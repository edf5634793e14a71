use ftl::generator::{DispatchCase, RequestDecoding};
use ftl::parser::{
    code_to_module, extract_ast_verbs, ModuleIdent, ParseErrorKind, Parser, TypeName, VerbToken,
};
use ftl::schema::{Data, Decl, Field, Module, SchemaType, TypeRef, Verb};
use ftl::source::{FnItem, Item, Param, SourceFile, StructField, StructItem, TypeExpr, TypePath};

fn path(name: &str) -> TypeExpr {
    TypeExpr::Path(TypePath { segments: vec![name.to_string()], args: vec![] })
}

fn generic(name: &str, args: Vec<TypeExpr>) -> TypeExpr {
    TypeExpr::Path(TypePath { segments: vec![name.to_string()], args })
}

fn unit() -> TypeExpr {
    TypeExpr::Tuple(vec![])
}

fn field(name: &str, ty: TypeExpr) -> StructField {
    StructField { name: Some(name.to_string()), ty }
}

fn strukt(name: &str, generics: &[&str], fields: Vec<StructField>) -> Item {
    Item::Struct(StructItem {
        name: name.to_string(),
        generics: generics.iter().map(|g| g.to_string()).collect(),
        fields,
    })
}

fn verb_fn(name: &str, params: Vec<Param>, output: Option<TypeExpr>) -> Item {
    Item::Fn(FnItem {
        name: name.to_string(),
        attrs: vec![vec!["ftl".to_string(), "verb".to_string()]],
        params,
        output,
    })
}

fn ctx() -> Param {
    Param::Typed(path("Context"))
}

fn ref_to(module: &str, name: &str) -> SchemaType {
    SchemaType::Ref(TypeRef { module: module.to_string(), name: name.to_string() })
}

#[test]
fn test_basic_types() {
    let mut parser = Parser::new();
    parser.add_module(
        &ModuleIdent::new("test"),
        SourceFile {
            items: vec![
                strukt("User", &[], vec![field("name", path("String")), field("age", path("u32"))]),
                strukt("Request", &[], vec![field("name", path("String")), field("user", path("User"))]),
                strukt("Response", &[], vec![field("message", path("String")), field("user", path("User"))]),
                verb_fn("test_verb", vec![ctx(), Param::Typed(path("Request"))], Some(path("Response"))),
            ],
        },
    );
    let parsed = parser.parse().unwrap();

    assert_eq!(parsed.modules_count(), 1);
    assert_eq!(parsed.verb_count(), 1);
    assert_eq!(parsed.types.len(), 3);

    let module = parsed.generate_module_proto(&ModuleIdent::new("test"));
    assert_eq!(module.name, "test");
    assert_eq!(module.decls.len(), 4);
}

#[test]
fn generic_types() {
    let mut parser = Parser::new();
    parser.add_module(
        &ModuleIdent::new("test"),
        SourceFile {
            items: vec![
                strukt(
                    "User",
                    &["T", "Y"],
                    vec![field("name", path("String")), field("age", path("T")), field("score", path("Y"))],
                ),
                strukt(
                    "Request",
                    &["T", "Y"],
                    vec![field("name", path("String")), field("user", generic("User", vec![path("T"), path("Y")]))],
                ),
                strukt(
                    "Response",
                    &["Y"],
                    vec![field("message", path("String")), field("user", generic("User", vec![path("u32"), path("Y")]))],
                ),
                verb_fn(
                    "test_verb",
                    vec![ctx(), Param::Typed(generic("Request", vec![path("T"), path("Y")]))],
                    Some(generic("Response", vec![path("Y")])),
                ),
            ],
        },
    );
    let parsed = parser.parse().unwrap();

    assert_eq!(parsed.modules_count(), 1);
    assert_eq!(parsed.verb_count(), 1);
    assert_eq!(parsed.types.len(), 3);

    let user = parsed.types.iter().find(|d| d.name == "User").unwrap();
    assert_eq!(user.fields[1].ty, SchemaType::Any);
    assert_eq!(user.fields[2].ty, SchemaType::Any);
}

// The request and response types are those the function declares, and every struct
// that they reach is declared once, after the verb.
#[test]
fn schema_ast_to_proto() {
    let mut parser = Parser::new();
    let moo = ModuleIdent::new("moo");
    parser.add_module(
        &moo,
        SourceFile {
            items: vec![
                Item::Other,
                strukt("Request", &[], vec![field("name", path("String")), field("age", path("u32"))]),
                strukt("Response", &[], vec![field("message", path("String"))]),
                verb_fn(
                    "test_verb",
                    vec![ctx(), Param::Typed(path("Request"))],
                    Some(generic("Result", vec![path("Response"), TypeExpr::Other])),
                ),
            ],
        },
    );
    let parsed = parser.parse().unwrap();
    let m = parsed.generate_module_proto(&moo);

    assert_eq!(
        m,
        Module {
            name: "moo".to_string(),
            decls: vec![
                Decl::Verb(Verb {
                    name: "testVerb".to_string(),
                    request: Some(ref_to("moo", "Request")),
                    response: Some(ref_to("moo", "Response")),
                }),
                Decl::Data(Data {
                    name: "Request".to_string(),
                    fields: vec![
                        Field { name: "name".to_string(), ty: SchemaType::Str },
                        Field { name: "age".to_string(), ty: SchemaType::Int },
                    ],
                }),
                Decl::Data(Data {
                    name: "Response".to_string(),
                    fields: vec![Field { name: "message".to_string(), ty: SchemaType::Str }],
                }),
            ],
        }
    );
}

// The context may be taken by reference; a `Result` response is its success type.
#[test]
fn lib_ast_to_proto() {
    let module = ModuleIdent::new("");
    let file = SourceFile {
        items: vec![
            strukt("Request", &[], vec![field("name", path("String")), field("age", path("u32"))]),
            verb_fn(
                "test_verb",
                vec![
                    Param::Typed(TypeExpr::Reference(Box::new(path("Context")))),
                    Param::Typed(path("Request")),
                ],
                Some(generic("Result", vec![path("String"), TypeExpr::Other])),
            ),
        ],
    };
    let verbs = extract_ast_verbs(&module, &file).unwrap();
    assert_eq!(verbs.len(), 1);
    assert_eq!(verbs[0].ident, "test_verb");
    assert_eq!(verbs[0].request, TypeName::Named("Request".to_string()));
    assert_eq!(verbs[0].response, TypeName::Named("String".to_string()));
    let proto = verbs[0].to_verb_proto();
    assert_eq!(proto.name, "testVerb");
    assert_eq!(proto.response, Some(SchemaType::Str));

    let m = code_to_module(&file).unwrap();
    assert_eq!(
        m,
        Module {
            name: "".to_string(),
            decls: vec![Decl::Verb(Verb {
                name: "testVerb".to_string(),
                request: Some(ref_to("", "Request")),
                response: Some(SchemaType::Str),
            })],
        }
    );
}

#[test]
fn unmarked_functions_and_other_items_are_ignored() {
    let module = ModuleIdent::new("m");
    let plain = Item::Fn(FnItem {
        name: "helper".to_string(),
        attrs: vec![vec!["inline".to_string()]],
        params: vec![],
        output: None,
    });
    let r = VerbToken::try_parse_any_item(&module, &plain).unwrap();
    assert!(r.is_none());
    let r = VerbToken::try_parse_any_item(&module, &Item::Other).unwrap();
    assert!(r.is_none());
}

#[test]
fn unit_request_and_no_return_type() {
    let module = ModuleIdent::new("echo");
    let item = verb_fn("unit_to_unit", vec![ctx(), Param::Typed(unit())], None);
    let v = VerbToken::try_parse_any_item(&module, &item).unwrap().unwrap();
    assert_eq!(v.request, TypeName::Unit);
    assert_eq!(v.response, TypeName::Unit);
    assert_eq!(v.to_verb_proto().request, Some(SchemaType::Unit));
}

#[test]
fn verb_with_one_parameter_is_rejected() {
    let item = verb_fn("lonely", vec![ctx()], None);
    let e = VerbToken::try_parse_any_item(&ModuleIdent::new("m"), &item).unwrap_err();
    assert_eq!(e.kind, ParseErrorKind::MissingParameters);
    assert_eq!(e.subject, "lonely");
}

#[test]
fn verb_without_context_is_rejected() {
    let item = verb_fn("bad", vec![Param::Typed(path("String")), Param::Typed(path("Request"))], None);
    let e = VerbToken::try_parse_any_item(&ModuleIdent::new("m"), &item).unwrap_err();
    assert_eq!(e.kind, ParseErrorKind::NotContext);
}

#[test]
fn verb_taking_self_is_rejected() {
    let item = verb_fn("method", vec![Param::Receiver, Param::Typed(path("Request"))], None);
    let e = VerbToken::try_parse_any_item(&ModuleIdent::new("m"), &item).unwrap_err();
    assert_eq!(e.kind, ParseErrorKind::ReceiverParameter);
}

#[test]
fn reference_request_is_rejected() {
    let item = verb_fn("r", vec![ctx(), Param::Typed(TypeExpr::Reference(Box::new(path("Request"))))], None);
    let e = VerbToken::try_parse_any_item(&ModuleIdent::new("m"), &item).unwrap_err();
    assert_eq!(e.kind, ParseErrorKind::UnnameableRequest);
}

#[test]
fn unknown_type_is_an_error() {
    let mut parser = Parser::new();
    parser.add_module(
        &ModuleIdent::new("m"),
        SourceFile { items: vec![verb_fn("v", vec![ctx(), Param::Typed(path("Missing"))], None)] },
    );
    let e = parser.parse().unwrap_err();
    assert_eq!(e.kind, ParseErrorKind::UnresolvedType);
    assert_eq!(e.subject, "Missing");
}

#[test]
fn cyclic_structs_resolve_once() {
    let mut parser = Parser::new();
    parser.add_module(
        &ModuleIdent::new("m"),
        SourceFile {
            items: vec![
                strukt("A", &[], vec![field("b", path("B")), field("me", path("A"))]),
                strukt("B", &[], vec![field("a", path("A"))]),
                verb_fn("first", vec![ctx(), Param::Typed(path("A"))], Some(path("B"))),
                verb_fn("second", vec![ctx(), Param::Typed(path("B"))], Some(path("A"))),
            ],
        },
    );
    let parsed = parser.parse().unwrap();
    assert_eq!(parsed.types.len(), 2);
    assert_eq!(parsed.types[0].name, "A");
    assert_eq!(parsed.types[1].name, "B");
    assert_eq!(parsed.types[0].fields[1].ty, ref_to("m", "A"));
}

#[test]
fn types_are_found_across_modules() {
    let mut parser = Parser::new();
    parser.add_module(
        &ModuleIdent::new("a"),
        SourceFile { items: vec![verb_fn("call", vec![ctx(), Param::Typed(path("Shared"))], Some(path("bool")))] },
    );
    parser.add_module(
        &ModuleIdent::new("b"),
        SourceFile {
            items: vec![
                strukt("Shared", &[], vec![field("flag", path("bool")), field("ratio", path("f64"))]),
                verb_fn("other", vec![ctx(), Param::Typed(unit())], None),
            ],
        },
    );
    let parsed = parser.parse().unwrap();
    assert_eq!(parsed.modules_count(), 2);
    assert_eq!(parsed.verb_count(), 2);
    assert_eq!(parsed.types.len(), 1);
    assert_eq!(parsed.types[0].fields[0].ty, SchemaType::Bool);
    assert_eq!(parsed.types[0].fields[1].ty, SchemaType::Float);
}

#[test]
fn empty_unit_has_no_verbs() {
    let parser = Parser::new();
    let parsed = parser.parse().unwrap();
    assert_eq!(parsed.modules_count(), 0);
    assert_eq!(parsed.verb_count(), 0);
    assert!(parsed.types.is_empty());
}

#[test]
fn unnamed_struct_field_is_an_error() {
    let mut parser = Parser::new();
    parser.add_module(
        &ModuleIdent::new("m"),
        SourceFile {
            items: vec![
                strukt("Wrapper", &[], vec![StructField { name: None, ty: path("u8") }]),
                verb_fn("v", vec![ctx(), Param::Typed(path("Wrapper"))], None),
            ],
        },
    );
    let e = parser.parse().unwrap_err();
    assert_eq!(e.kind, ParseErrorKind::UnnameableField);
    assert_eq!(e.subject, "Wrapper");
}

#[test]
fn dispatch_cases_follow_the_verbs() {
    let mut parser = Parser::new();
    parser.add_module(
        &ModuleIdent::new("echo"),
        SourceFile {
            items: vec![
                strukt("Request", &[], vec![field("name", path("String")), field("age", path("u32"))]),
                verb_fn("unit_to_unit", vec![ctx(), Param::Typed(unit())], None),
                verb_fn("request_to_unit", vec![ctx(), Param::Typed(path("Request"))], None),
            ],
        },
    );
    let parsed = parser.parse().unwrap();
    assert_eq!(
        parsed.call_immediate_cases(),
        vec![
            DispatchCase { module: "echo".to_string(), verb: "unit_to_unit".to_string(), request: RequestDecoding::Unit },
            DispatchCase {
                module: "echo".to_string(),
                verb: "request_to_unit".to_string(),
                request: RequestDecoding::Json("Request".to_string()),
            },
        ]
    );
}

#[test]
fn first_struct_of_a_name_is_used() {
    let mut parser = Parser::new();
    parser.add_module(
        &ModuleIdent::new("a"),
        SourceFile {
            items: vec![
                strukt("Req", &[], vec![field("first", path("bool"))]),
                strukt("Req", &[], vec![field("second", path("u8"))]),
                verb_fn("v", vec![ctx(), Param::Typed(path("Req"))], None),
            ],
        },
    );
    parser.add_module(
        &ModuleIdent::new("b"),
        SourceFile { items: vec![strukt("Req", &[], vec![field("third", path("String"))])] },
    );
    let parsed = parser.parse().unwrap();
    assert_eq!(parsed.types.len(), 1);
    assert_eq!(parsed.types[0].fields[0].name, "first");
}

#[test]
fn unreached_undeclared_types_are_not_errors() {
    let mut parser = Parser::new();
    parser.add_module(
        &ModuleIdent::new("m"),
        SourceFile {
            items: vec![
                strukt("Unused", &[], vec![field("x", path("Nowhere"))]),
                strukt("Req", &[], vec![field("n", path("i64"))]),
                verb_fn("v", vec![ctx(), Param::Typed(path("Req"))], None),
            ],
        },
    );
    let parsed = parser.parse().unwrap();
    assert_eq!(parsed.types.len(), 1);
    assert_eq!(parsed.types[0].name, "Req");
}

#[test]
fn missing_reached_field_type_is_named() {
    let mut parser = Parser::new();
    parser.add_module(
        &ModuleIdent::new("m"),
        SourceFile {
            items: vec![
                strukt("Req", &[], vec![field("inner", path("Inner"))]),
                verb_fn("v", vec![ctx(), Param::Typed(path("Req"))], None),
            ],
        },
    );
    let e = parser.parse().unwrap_err();
    assert_eq!(e.kind, ParseErrorKind::UnresolvedType);
    assert_eq!(e.subject, "Inner");
}

fn discovery_source() -> SourceFile {
    SourceFile {
        items: vec![
            strukt("Z", &[], vec![field("y", path("Y"))]),
            strukt("Y", &[], vec![field("x", path("X"))]),
            strukt("X", &[], vec![field("v", path("u8"))]),
            strukt("W", &[], vec![field("flag", path("bool"))]),
            verb_fn("v", vec![ctx(), Param::Typed(path("Z"))], Some(path("W"))),
        ],
    }
}

#[test]
fn declarations_come_in_discovery_order() {
    let mut p1 = Parser::new();
    p1.add_module(&ModuleIdent::new("m"), discovery_source());
    let mut p2 = Parser::new();
    p2.add_module(&ModuleIdent::new("m"), discovery_source());
    let a = p1.parse().unwrap();
    let b = p2.parse().unwrap();
    let names: Vec<&str> = a.types.iter().map(|d| d.name.as_str()).collect();
    assert_eq!(names, vec!["Z", "W", "Y", "X"]);
    let m = ModuleIdent::new("m");
    assert_eq!(a.generate_module_proto(&m), b.generate_module_proto(&m));
}
