use ftl::codec::binary_to_module;
use ftl::plugin::{
    generate_schema, Codegen, Column, GenerateRequest, Identifier, Parameter, Plugin, PluginError,
    Query, Settings,
};
use ftl::schema::{Data, Decl, Field, Module, SchemaType, TypeRef, Verb};

fn ident(name: &str) -> Option<Identifier> {
    Some(Identifier { catalog: String::new(), schema: String::new(), name: name.to_string() })
}

fn column(name: &str, ty: &str) -> Column {
    Column { name: name.to_string(), sql_type: ident(ty) }
}

fn settings(options: &str) -> Option<Settings> {
    Some(Settings { codegen: Some(Codegen { options: options.as_bytes().to_vec() }) })
}

fn echo_request() -> GenerateRequest {
    GenerateRequest {
        settings: settings(r#"{"module":"echo"}"#),
        queries: vec![
            Query {
                name: "GetUserByID".to_string(),
                cmd: ":one".to_string(),
                columns: vec![column("id", "integer"), column("name", "text"), column("email", "text")],
                params: vec![Parameter { number: 1, column: Some(column("id", "integer")) }],
            },
            Query {
                name: "CreateUser".to_string(),
                cmd: ":exec".to_string(),
                columns: vec![],
                params: vec![
                    Parameter { number: 1, column: Some(column("name", "text")) },
                    Parameter { number: 2, column: Some(column("email", "text")) },
                ],
            },
        ],
    }
}

fn field(name: &str, ty: SchemaType) -> Field {
    Field { name: name.to_string(), ty }
}

fn reference(name: &str) -> Option<SchemaType> {
    Some(SchemaType::Ref(TypeRef { module: "echo".to_string(), name: name.to_string() }))
}

fn expected_module_schema() -> Module {
    Module {
        name: "echo".to_string(),
        decls: vec![
            Decl::Data(Data { name: "GetUserByIDQuery".to_string(), fields: vec![field("id", SchemaType::Int)] }),
            Decl::Data(Data {
                name: "GetUserByIDResult".to_string(),
                fields: vec![
                    field("id", SchemaType::Int),
                    field("name", SchemaType::Str),
                    field("email", SchemaType::Str),
                ],
            }),
            Decl::Verb(Verb {
                name: "GetUserByID".to_string(),
                request: reference("GetUserByIDQuery"),
                response: reference("GetUserByIDResult"),
            }),
            Decl::Data(Data {
                name: "CreateUserQuery".to_string(),
                fields: vec![field("name", SchemaType::Str), field("email", SchemaType::Str)],
            }),
            Decl::Verb(Verb { name: "CreateUser".to_string(), request: reference("CreateUserQuery"), response: None }),
        ],
    }
}

#[test]
fn schema_from_queries() {
    assert_eq!(generate_schema(&echo_request()).unwrap(), expected_module_schema());
}

#[test]
fn response_holds_the_encoded_schema() {
    let resp = Plugin::handle_generate(&echo_request()).unwrap();
    assert_eq!(resp.files.len(), 1);
    assert_eq!(resp.files[0].name, "queries.pb");
    assert_eq!(binary_to_module(&resp.files[0].contents).unwrap(), expected_module_schema());
}

#[test]
fn generate_from_input_writes_response_bytes() {
    let bytes = Plugin::generate_from_input(&echo_request()).unwrap();
    let resp = Plugin::handle_generate(&echo_request()).unwrap();
    let contents = &resp.files[0].contents;
    // One repeated `files` field holding the name then the contents.
    assert_eq!(bytes[0], 0x0a);
    assert!(bytes.ends_with(contents));
    assert!(bytes.windows(10).any(|w| w == b"queries.pb"));
}

#[test]
fn sql_types_map_to_kinds() {
    let cases = [
        ("bigserial", SchemaType::Int),
        ("numeric", SchemaType::Float),
        ("uuid", SchemaType::Str),
        ("boolean", SchemaType::Bool),
        ("date", SchemaType::Time),
        ("jsonb", SchemaType::Any),
        ("bytea", SchemaType::Bytes),
        ("geometry", SchemaType::Any),
    ];
    for (sql, kind) in cases {
        let req = GenerateRequest {
            settings: settings(r#"{"module":"m"}"#),
            queries: vec![Query {
                name: "Q".to_string(),
                cmd: ":many".to_string(),
                columns: vec![column("c", sql)],
                params: vec![],
            }],
        };
        let m = generate_schema(&req).unwrap();
        match &m.decls[0] {
            Decl::Data(d) => assert_eq!(d.fields[0].ty, kind, "{}", sql),
            other => panic!("unexpected {:?}", other),
        }
    }
}

#[test]
fn parameter_without_column_is_named_by_number() {
    let req = GenerateRequest {
        settings: settings(r#"{"module":"m"}"#),
        queries: vec![Query {
            name: "Del".to_string(),
            cmd: ":exec".to_string(),
            columns: vec![],
            params: vec![Parameter { number: 12, column: None }],
        }],
    };
    let m = generate_schema(&req).unwrap();
    assert_eq!(m.decls[0], Decl::Data(Data { name: "DelQuery".to_string(), fields: vec![field("param12", SchemaType::Any)] }));
    assert_eq!(m.decls.len(), 2);
}

#[test]
fn query_without_params_or_columns_is_a_bare_verb() {
    let req = GenerateRequest {
        settings: settings(r#"{"module":"m"}"#),
        queries: vec![Query { name: "Ping".to_string(), cmd: ":exec".to_string(), columns: vec![], params: vec![] }],
    };
    let m = generate_schema(&req).unwrap();
    assert_eq!(m.decls, vec![Decl::Verb(Verb { name: "Ping".to_string(), request: None, response: None })]);
}

#[test]
fn missing_settings_is_an_error() {
    let req = GenerateRequest { settings: None, queries: vec![] };
    assert_eq!(generate_schema(&req), Err(PluginError::MissingSettings));
}

#[test]
fn missing_codegen_is_an_error() {
    let req = GenerateRequest { settings: Some(Settings { codegen: None }), queries: vec![] };
    assert_eq!(generate_schema(&req), Err(PluginError::MissingCodegen));
}

#[test]
fn invalid_utf8_options_are_an_error() {
    let req = GenerateRequest {
        settings: Some(Settings { codegen: Some(Codegen { options: vec![0xff, 0xfe] }) }),
        queries: vec![],
    };
    assert_eq!(generate_schema(&req), Err(PluginError::InvalidUtf8));
}

#[test]
fn invalid_json_options_are_an_error() {
    let req = GenerateRequest { settings: settings("{module"), queries: vec![] };
    assert_eq!(generate_schema(&req), Err(PluginError::InvalidJson));
}

#[test]
fn missing_module_option_is_an_error() {
    let req = GenerateRequest { settings: settings(r#"{"other":"x"}"#), queries: vec![] };
    assert_eq!(generate_schema(&req), Err(PluginError::MissingModuleName));
    let req = GenerateRequest { settings: settings(r#"{"module":3}"#), queries: vec![] };
    assert_eq!(generate_schema(&req), Err(PluginError::MissingModuleName));
}
