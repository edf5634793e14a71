//! A code generator plugin that derives a module schema from SQL queries: each query
//! becomes a verb, with data declarations for its parameters and its result columns.
use vstd::prelude::*;
use vstd::utf8::{decode_utf8, valid_utf8};

use crate::codec::{decode_text, encode_module, module_bytes, text_field};
use crate::schema::{
    Data, DataFieldV, DataV, Decl, DeclV, Field, Module, ModuleV, SchemaType, TypeRef, TypeRefV,
    TypeV, Verb, VerbV,
};
use crate::text::str_eq;
use crate::wire::{bytes_field, fields_bytes, lemma_fields_bytes_push, put_bytes_field, FieldV};

verus! {

#[verifier::external_type_specification]
#[verifier::external_body]
pub struct ExJsonError(serde_json::Error);

/// A SQL type name, as the query compiler reports it.
#[derive(Debug, Clone, PartialEq, Eq)]
pub struct Identifier {
    pub catalog: String,
    pub schema: String,
    pub name: String,
}

/// A result column or a parameter's column.
#[derive(Debug, Clone, PartialEq, Eq)]
pub struct Column {
    pub name: String,
    pub sql_type: Option<Identifier>,
}

/// A numbered query parameter.
#[derive(Debug, Clone, PartialEq, Eq)]
pub struct Parameter {
    pub number: i32,
    pub column: Option<Column>,
}

/// A named query with its command (`:one`, `:many`, `:exec`, ...).
#[derive(Debug, Clone, PartialEq, Eq)]
pub struct Query {
    pub name: String,
    pub cmd: String,
    pub columns: Vec<Column>,
    pub params: Vec<Parameter>,
}

/// The plugin's options, as JSON bytes.
#[derive(Debug, Clone, PartialEq, Eq)]
pub struct Codegen {
    pub options: Vec<u8>,
}

#[derive(Debug, Clone, PartialEq, Eq)]
pub struct Settings {
    pub codegen: Option<Codegen>,
}

/// What the query compiler asks the plugin to generate from.
#[derive(Debug, Clone, PartialEq, Eq)]
pub struct GenerateRequest {
    pub settings: Option<Settings>,
    pub queries: Vec<Query>,
}

/// A generated file.
#[derive(Debug, Clone, PartialEq, Eq)]
pub struct File {
    pub name: String,
    pub contents: Vec<u8>,
}

/// The plugin's answer: the files that it generated.
#[derive(Debug, Clone, PartialEq, Eq)]
pub struct GenerateResponse {
    pub files: Vec<File>,
}

/// Why the plugin cannot generate a schema.
#[derive(Debug, Clone, Copy, PartialEq, Eq)]
pub enum PluginError {
    MissingSettings,
    MissingCodegen,
    InvalidUtf8,
    InvalidJson,
    MissingModuleName,
}

/// The code generator plugin.
pub struct Plugin;

/// The string member `key` of the JSON object written in `text`: `None` when the text is
/// not JSON, `Some(None)` when it has no such string member.
pub uninterp spec fn json_string_member(text: Seq<char>, key: Seq<char>) -> Option<Option<Seq<char>>>;

/// Relies on serde_json::from_str into a Value, then Value::get and Value::as_str: the
/// string member of an object, if the text parses as JSON. The result depends on the
/// text and the key alone.
#[verifier::external_body]
fn json_member(text: &str, key: &str) -> (r: Result<Option<String>, serde_json::Error>)
    ensures
        match r {
            Err(_) => json_string_member(text@, key@) is None,
            Ok(Some(s)) => json_string_member(text@, key@) == Some(Some(s@)),
            Ok(None) => json_string_member(text@, key@) == Some(None::<Seq<char>>),
        },
{
    let v: serde_json::Value = serde_json::from_str(text)?;
    Ok(v.get(key).and_then(serde_json::Value::as_str).map(String::from))
}

pub open spec fn digit_char(d: int) -> char {
    seq!['0', '1', '2', '3', '4', '5', '6', '7', '8', '9'][d]
}

pub open spec fn digits_of(n: nat) -> Seq<char>
    decreases n,
{
    if n < 10 {
        seq![digit_char(n as int)]
    } else {
        digits_of(n / 10).push(digit_char((n % 10) as int))
    }
}

/// The decimal form of an integer.
pub open spec fn decimal_of(n: int) -> Seq<char> {
    if n < 0 {
        seq!['-'] + digits_of((-n) as nat)
    } else {
        digits_of(n as nat)
    }
}

/// Relies on i32's Display: the decimal form of the number.
#[verifier::external_body]
fn decimal(n: i32) -> (r: String)
    ensures
        r@ == decimal_of(n as int),
{
    n.to_string()
}

/// The schema type of a SQL type name.
pub open spec fn sql_type_of(name: Seq<char>) -> TypeV {
    if name == "integer"@ || name == "bigint"@ || name == "smallint"@ || name == "serial"@ || name
        == "bigserial"@ {
        TypeV::Int
    } else if name == "real"@ || name == "float"@ || name == "double"@ || name == "numeric"@ || name
        == "decimal"@ {
        TypeV::Float
    } else if name == "text"@ || name == "varchar"@ || name == "char"@ || name == "uuid"@ {
        TypeV::Str
    } else if name == "boolean"@ {
        TypeV::Bool
    } else if name == "timestamp"@ || name == "date"@ || name == "time"@ {
        TypeV::Time
    } else if name == "bytea"@ || name == "blob"@ {
        TypeV::Bytes
    } else {
        TypeV::Any
    }
}

pub open spec fn field_of_column(name: Seq<char>, t: Option<Identifier>) -> DataFieldV {
    DataFieldV {
        name,
        ty: match t {
            Some(id) => sql_type_of(id.name@),
            None => TypeV::Any,
        },
    }
}

pub open spec fn param_field(p: Parameter) -> DataFieldV {
    match p.column {
        Some(c) => field_of_column(c.name@, c.sql_type),
        None => field_of_column("param"@ + decimal_of(p.number as int), None),
    }
}

pub open spec fn request_data(q: Query) -> DataV {
    DataV {
        name: q.name@ + "Query"@,
        fields: Seq::new(q.params@.len(), |i: int| param_field(q.params@[i])),
    }
}

pub open spec fn response_data(q: Query) -> DataV {
    DataV {
        name: q.name@ + "Result"@,
        fields: Seq::new(q.columns@.len(), |i: int| field_of_column(q.columns@[i].name@, q.columns@[i].sql_type)),
    }
}

pub open spec fn ref_to(module: Seq<char>, name: Seq<char>) -> TypeV {
    TypeV::Ref(TypeRefV { module, name })
}

/// The verb of a query: its request is the parameters' record when it has parameters,
/// its response the result record unless the query only executes.
pub open spec fn verb_of_query(q: Query, module: Seq<char>) -> VerbV {
    VerbV {
        name: q.name@,
        request: if q.params@.len() > 0 {
            Some(ref_to(module, q.name@ + "Query"@))
        } else {
            None
        },
        response: if q.cmd@ == ":exec"@ {
            None
        } else {
            Some(ref_to(module, q.name@ + "Result"@))
        },
    }
}

pub open spec fn query_decls(q: Query, module: Seq<char>) -> Seq<DeclV> {
    (if q.params@.len() > 0 { seq![DeclV::Data(request_data(q))] } else { seq![] })
        + (if q.columns@.len() > 0 { seq![DeclV::Data(response_data(q))] } else { seq![] })
        + seq![DeclV::Verb(verb_of_query(q, module))]
}

pub open spec fn queries_decls(qs: Seq<Query>, module: Seq<char>) -> Seq<DeclV>
    decreases qs.len(),
{
    if qs.len() == 0 {
        seq![]
    } else {
        queries_decls(qs.drop_last(), module) + query_decls(qs.last(), module)
    }
}

pub open spec fn schema_of(req: GenerateRequest, module: Seq<char>) -> ModuleV {
    ModuleV { name: module, decls: queries_decls(req.queries@, module) }
}

/// The module name that the plugin's options give, or why there is none.
pub open spec fn module_name_of(req: GenerateRequest) -> Result<Seq<char>, PluginError> {
    match req.settings {
        None => Err(PluginError::MissingSettings),
        Some(s) => match s.codegen {
            None => Err(PluginError::MissingCodegen),
            Some(c) => if !valid_utf8(c.options@) {
                Err(PluginError::InvalidUtf8)
            } else {
                match json_string_member(decode_utf8(c.options@), "module"@) {
                    None => Err(PluginError::InvalidJson),
                    Some(None) => Err(PluginError::MissingModuleName),
                    Some(Some(m)) => Ok(m),
                }
            },
        },
    }
}

pub open spec fn file_fields(name: Seq<char>, contents: Seq<u8>) -> Seq<FieldV> {
    seq![text_field(1, name), bytes_field(2, contents)]
}

pub open spec fn response_fields(files: Seq<File>) -> Seq<FieldV> {
    Seq::new(files.len(), |i: int| bytes_field(1, fields_bytes(file_fields(files[i].name@, files[i].contents@))))
}

/// The bytes of a generate response.
pub open spec fn response_bytes(files: Seq<File>) -> Seq<u8> {
    fields_bytes(response_fields(files))
}

/// The module name given by the option `module` of the plugin's options.
pub fn module_name_from_options(parsed: Result<Option<String>, serde_json::Error>) -> (r: Result<String, PluginError>)
    ensures
        match parsed {
            Err(_) => r == Err::<String, PluginError>(PluginError::InvalidJson),
            Ok(None) => r == Err::<String, PluginError>(PluginError::MissingModuleName),
            Ok(Some(s)) => r matches Ok(m) && m@ == s@,
        },
{
    match parsed {
        Err(_) => Err(PluginError::InvalidJson),
        Ok(None) => Err(PluginError::MissingModuleName),
        Ok(Some(s)) => Ok(s),
    }
}

fn get_module_name(req: &GenerateRequest) -> (r: Result<String, PluginError>)
    ensures
        match r {
            Ok(m) => module_name_of(*req) == Ok::<Seq<char>, PluginError>(m@),
            Err(e) => module_name_of(*req) == Err::<Seq<char>, PluginError>(e),
        },
{
    let settings = match &req.settings {
        Some(s) => s,
        None => return Err(PluginError::MissingSettings),
    };
    let codegen = match &settings.codegen {
        Some(c) => c,
        None => return Err(PluginError::MissingCodegen),
    };
    let text = match decode_text(codegen.options.as_slice()) {
        Some(t) => t,
        None => {
            proof {
                if valid_utf8(codegen.options@) {
                    vstd::utf8::decode_utf8_encode_utf8(codegen.options@);
                }
            }
            return Err(PluginError::InvalidUtf8);
        },
    };
    module_name_from_options(json_member(text.as_str(), "module"))
}

fn is_one_of(s: &String, names: &[&str]) -> (r: bool)
    ensures
        r == exists|i: int| 0 <= i < names@.len() && s@ == names@[i]@,
{
    let mut i: usize = 0;
    while i < names.len()
        invariant
            i <= names@.len(),
            forall|j: int| 0 <= j < i ==> s@ != names@[j]@,
        decreases names@.len() - i,
    {
        if str_eq(s.as_str(), names[i]) {
            return true;
        }
        i = i + 1;
    }
    false
}

/// The schema type of a SQL type.
fn to_schema_type(sql_type: &Identifier) -> (r: SchemaType)
    ensures
        r@ == sql_type_of(sql_type.name@),
{
    let n = &sql_type.name;
    if is_one_of(n, &["integer", "bigint", "smallint", "serial", "bigserial"]) {
        SchemaType::Int
    } else if is_one_of(n, &["real", "float", "double", "numeric", "decimal"]) {
        SchemaType::Float
    } else if is_one_of(n, &["text", "varchar", "char", "uuid"]) {
        SchemaType::Str
    } else if is_one_of(n, &["boolean"]) {
        SchemaType::Bool
    } else if is_one_of(n, &["timestamp", "date", "time"]) {
        SchemaType::Time
    } else if is_one_of(n, &["bytea", "blob"]) {
        SchemaType::Bytes
    } else {
        SchemaType::Any
    }
}

fn to_schema_field(name: String, sql_type: &Option<Identifier>) -> (r: Field)
    ensures
        r@ == field_of_column(name@, *sql_type),
{
    let ty = match sql_type {
        Some(id) => to_schema_type(id),
        None => SchemaType::Any,
    };
    Field { name, ty }
}

fn to_schema_ref(module_name: &String, name: String) -> (r: SchemaType)
    ensures
        r@ == ref_to(module_name@, name@),
{
    SchemaType::Ref(TypeRef { module: module_name.clone(), name })
}

fn suffixed(name: &String, suffix: &str) -> (r: String)
    ensures
        r@ == name@ + suffix@,
{
    let mut s = name.clone();
    s.append(suffix);
    s
}

fn to_verb_request(query: &Query) -> (r: Decl)
    ensures
        r@ == DeclV::Data(request_data(*query)),
{
    let mut fields: Vec<Field> = Vec::new();
    let mut i: usize = 0;
    while i < query.params.len()
        invariant
            i <= query.params@.len(),
            fields@.len() == i,
            forall|j: int| 0 <= j < i ==> (#[trigger] fields@[j])@ == param_field(query.params@[j]),
        decreases query.params@.len() - i,
    {
        let p = &query.params[i];
        let f = match &p.column {
            Some(c) => to_schema_field(c.name.clone(), &c.sql_type),
            None => {
                let mut n = "param".to_owned();
                n.append(decimal(p.number).as_str());
                proof {
                    reveal_strlit("param");
                }
                to_schema_field(n, &None)
            },
        };
        fields.push(f);
        i = i + 1;
    }
    proof {
        reveal_strlit("Query");
    }
    let d = Data { name: suffixed(&query.name, "Query"), fields };
    assert(d@.fields =~= request_data(*query).fields);
    Decl::Data(d)
}

fn to_verb_response(query: &Query) -> (r: Decl)
    ensures
        r@ == DeclV::Data(response_data(*query)),
{
    let mut fields: Vec<Field> = Vec::new();
    let mut i: usize = 0;
    while i < query.columns.len()
        invariant
            i <= query.columns@.len(),
            fields@.len() == i,
            forall|j: int| 0 <= j < i ==> (#[trigger] fields@[j])@ == field_of_column(query.columns@[j].name@, query.columns@[j].sql_type),
        decreases query.columns@.len() - i,
    {
        let c = &query.columns[i];
        fields.push(to_schema_field(c.name.clone(), &c.sql_type));
        i = i + 1;
    }
    let d = Data { name: suffixed(&query.name, "Result"), fields };
    assert(d@.fields =~= response_data(*query).fields);
    Decl::Data(d)
}

fn to_verb(query: &Query, module_name: &String) -> (r: Decl)
    ensures
        r@ == DeclV::Verb(verb_of_query(*query, module_name@)),
{
    let request = if query.params.len() > 0 {
        Some(to_schema_ref(module_name, suffixed(&query.name, "Query")))
    } else {
        None
    };
    let response = if str_eq(query.cmd.as_str(), ":exec") {
        None
    } else {
        Some(to_schema_ref(module_name, suffixed(&query.name, "Result")))
    };
    Decl::Verb(Verb { name: query.name.clone(), request, response })
}

/// Builds the schema: for each query, its parameters' record when it has parameters, its
/// result record when it has columns, then its verb.
pub fn generate_schema(request: &GenerateRequest) -> (r: Result<Module, PluginError>)
    ensures
        match r {
            Ok(m) => module_name_of(*request) matches Ok(n) && m@ == schema_of(*request, n),
            Err(e) => module_name_of(*request) == Err::<Seq<char>, PluginError>(e),
        },
{
    let module_name = get_module_name(request)?;
    let mut decls: Vec<Decl> = Vec::new();
    let mut i: usize = 0;
    assert(request.queries@.take(0) =~= Seq::<Query>::empty());
    assert(decls@.map_values(|d: Decl| d@) =~= Seq::<DeclV>::empty());
    while i < request.queries.len()
        invariant
            i <= request.queries@.len(),
            decls@.map_values(|d: Decl| d@) == queries_decls(request.queries@.take(i as int), module_name@),
        decreases request.queries@.len() - i,
    {
        let q = &request.queries[i];
        let ghost before = decls@.map_values(|d: Decl| d@);
        let ghost mut added: Seq<DeclV> = seq![];
        if q.params.len() > 0 {
            let d = to_verb_request(q);
            proof {
                added = added.push(d@);
            }
            decls.push(d);
        }
        if q.columns.len() > 0 {
            let d = to_verb_response(q);
            proof {
                added = added.push(d@);
            }
            decls.push(d);
        }
        let d = to_verb(q, &module_name);
        proof {
            added = added.push(d@);
        }
        decls.push(d);
        proof {
            assert(added =~= query_decls(*q, module_name@));
            assert(decls@.map_values(|d: Decl| d@) =~= before + added);
            assert(request.queries@.take(i + 1).drop_last() =~= request.queries@.take(i as int));
        }
        i = i + 1;
    }
    assert(request.queries@.take(i as int) =~= request.queries@);
    Ok(Module { name: module_name, decls })
}

fn encode_file(f: &File) -> (b: Vec<u8>)
    ensures
        b@ == fields_bytes(file_fields(f.name@, f.contents@)),
{
    let mut b: Vec<u8> = Vec::new();
    let ghost fs0 = Seq::<FieldV>::empty();
    assert(b@ =~= fields_bytes(fs0));
    put_bytes_field(&mut b, 1, f.name.as_str().as_bytes());
    proof {
        lemma_fields_bytes_push(fs0, text_field(1, f.name@));
    }
    let ghost fs1 = fs0.push(text_field(1, f.name@));
    put_bytes_field(&mut b, 2, f.contents.as_slice());
    proof {
        lemma_fields_bytes_push(fs1, bytes_field(2, f.contents@));
        assert(fs1.push(bytes_field(2, f.contents@)) =~= file_fields(f.name@, f.contents@));
    }
    b
}

/// Writes a generate response.
pub fn encode_generate_response(resp: &GenerateResponse) -> (b: Vec<u8>)
    ensures
        b@ == response_bytes(resp.files@),
{
    let mut b: Vec<u8> = Vec::new();
    let ghost all = response_fields(resp.files@);
    assert(b@ =~= fields_bytes(all.take(0)));
    let mut i: usize = 0;
    while i < resp.files.len()
        invariant
            i <= resp.files@.len(),
            all == response_fields(resp.files@),
            b@ == fields_bytes(all.take(i as int)),
        decreases resp.files@.len() - i,
    {
        let fb = encode_file(&resp.files[i]);
        put_bytes_field(&mut b, 1, fb.as_slice());
        proof {
            lemma_fields_bytes_push(all.take(i as int), bytes_field(1, fb@));
            assert(all.take(i as int).push(bytes_field(1, fb@)) =~= all.take(i + 1));
        }
        i = i + 1;
    }
    assert(all.take(i as int) =~= all);
    b
}

impl Plugin {
    /// Generates the schema file `queries.pb` for a request.
    pub fn handle_generate(req: &GenerateRequest) -> (r: Result<GenerateResponse, PluginError>)
        ensures
            match r {
                Ok(resp) => module_name_of(*req) matches Ok(n) && resp.files@.len() == 1
                    && resp.files@[0].name@ == "queries.pb"@
                    && resp.files@[0].contents@ == module_bytes(schema_of(*req, n)),
                Err(e) => module_name_of(*req) == Err::<Seq<char>, PluginError>(e),
            },
    {
        let module = generate_schema(req)?;
        let contents = encode_module(&module);
        let mut files: Vec<File> = Vec::new();
        files.push(File { name: "queries.pb".to_owned(), contents });
        Ok(GenerateResponse { files })
    }

    /// Answers a request with the bytes of the generate response.
    pub fn generate_from_input(req: &GenerateRequest) -> (r: Result<Vec<u8>, PluginError>)
        ensures
            match r {
                Ok(bytes) => module_name_of(*req) matches Ok(n) && exists|resp: GenerateResponse|
                    bytes@ == response_bytes(resp.files@) && resp.files@.len() == 1
                    && resp.files@[0].name@ == "queries.pb"@
                    && resp.files@[0].contents@ == module_bytes(schema_of(*req, n)),
                Err(e) => module_name_of(*req) == Err::<Seq<char>, PluginError>(e),
            },
    {
        let resp = Self::handle_generate(req)?;
        let bytes = encode_generate_response(&resp);
        Ok(bytes)
    }
}

} // verus!
