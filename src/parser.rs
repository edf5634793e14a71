//! The declaration extractor and the type resolver.
use std::collections::VecDeque;

use vstd::prelude::*;

use crate::schema::{Data, DataFieldV, DataV, Decl, DeclV, Field, Module as SchemaModule, ModuleV, SchemaType, TypeRef, TypeRefV, TypeV, Verb, VerbV};
use crate::text::{lower_camel_of, to_lower_camel_case};
use crate::source::{FnItem, Item, Param, SourceFile, StructField, StructItem, TypeExpr, TypePath};
use crate::text::str_eq;
use vstd::set_lib::lemma_len_subset;
use vstd::seq_lib::seq_to_set_is_finite;

verus! {

/// The name of one compilation unit.
#[derive(Debug, Clone, PartialEq, Eq, Hash)]
pub struct ModuleIdent(pub String);

impl ModuleIdent {
    pub fn new(name: &str) -> (r: Self)
        ensures
            r.0@ == name@,
    {
        ModuleIdent(name.to_owned())
    }
}

/// A request or response type of a verb: the unit type, or a type named in source.
#[derive(Debug, Clone, PartialEq, Eq)]
pub enum TypeName {
    Unit,
    Named(String),
}

pub enum TypeNameV {
    Unit,
    Named(Seq<char>),
}

impl View for TypeName {
    type V = TypeNameV;

    open spec fn view(&self) -> TypeNameV {
        match self {
            TypeName::Unit => TypeNameV::Unit,
            TypeName::Named(n) => TypeNameV::Named(n@),
        }
    }
}

/// Why a source unit cannot be compiled.
#[derive(Debug, Clone, Copy, PartialEq, Eq)]
pub enum ParseErrorKind {
    /// A verb has fewer than two parameters.
    MissingParameters,
    /// A verb takes `self`.
    ReceiverParameter,
    /// The first parameter of a verb is not the context.
    NotContext,
    /// The request type of a verb is not a named type.
    UnnameableRequest,
    /// The response type of a verb is not a named type.
    UnnameableResponse,
    /// A type reached from a verb is declared in no module.
    UnresolvedType,
    /// A field of a struct reached from a verb has no name, or a type that cannot be named.
    UnnameableField,
}

/// A fatal build error and the function or type that it names.
#[derive(Debug, Clone, PartialEq, Eq)]
pub struct ParseError {
    pub kind: ParseErrorKind,
    pub subject: String,
}

pub struct ParseErrorV {
    pub kind: ParseErrorKind,
    pub subject: Seq<char>,
}

impl View for ParseError {
    type V = ParseErrorV;

    open spec fn view(&self) -> ParseErrorV {
        ParseErrorV { kind: self.kind, subject: self.subject@ }
    }
}

/// A verb found in source: the module, the function, and its request and response types.
#[derive(Debug, Clone, PartialEq, Eq)]
pub struct VerbToken {
    pub module: ModuleIdent,
    pub ident: String,
    pub request: TypeName,
    pub response: TypeName,
}

pub struct VerbTokenV {
    pub module: Seq<char>,
    pub ident: Seq<char>,
    pub request: TypeNameV,
    pub response: TypeNameV,
}

impl View for VerbToken {
    type V = VerbTokenV;

    open spec fn view(&self) -> VerbTokenV {
        VerbTokenV {
            module: self.module.0@,
            ident: self.ident@,
            request: self.request@,
            response: self.response@,
        }
    }
}

pub open spec fn last_segment(p: TypePath) -> Option<Seq<char>> {
    if p.segments@.len() == 0 {
        None
    } else {
        Some(p.segments@.last()@)
    }
}

/// `Context` (under any path) with no generic arguments.
pub open spec fn is_context_path(p: TypePath) -> bool {
    last_segment(p) == Some("Context"@) && p.args@.len() == 0
}

/// The context capability, taken by value or by reference.
pub open spec fn is_context_type(t: TypeExpr) -> bool {
    match t {
        TypeExpr::Path(p) => is_context_path(p),
        TypeExpr::Reference(inner) => match *inner {
            TypeExpr::Path(p) => is_context_path(p),
            _ => false,
        },
        _ => false,
    }
}

/// The name of a nameable type: a path is named by its last segment, the empty tuple is the unit type.
pub open spec fn type_name_of(t: TypeExpr) -> Option<TypeNameV> {
    match t {
        TypeExpr::Path(p) => match last_segment(p) {
            Some(n) => Some(TypeNameV::Named(n)),
            None => None,
        },
        TypeExpr::Tuple(es) => if es@.len() == 0 {
            Some(TypeNameV::Unit)
        } else {
            None
        },
        _ => None,
    }
}

/// The response type of a function: unit when it returns nothing, the success type when it
/// returns a `Result`, else the declared type.
pub open spec fn response_name_of(out: Option<TypeExpr>) -> Option<TypeNameV> {
    match out {
        None => Some(TypeNameV::Unit),
        Some(t) => match t {
            TypeExpr::Path(p) => if last_segment(p) == Some("Result"@) && p.args@.len() >= 1 {
                type_name_of(p.args@[0])
            } else {
                type_name_of(t)
            },
            _ => type_name_of(t),
        },
    }
}

pub open spec fn is_verb_marker(attr: Seq<String>) -> bool {
    attr.len() == 2 && attr[0]@ == "ftl"@ && attr[1]@ == "verb"@
}

pub open spec fn has_verb_marker(f: FnItem) -> bool {
    exists|i: int| 0 <= i < f.attrs@.len() && #[trigger] is_verb_marker(f.attrs@[i]@)
}

pub open spec fn error_v(kind: ParseErrorKind, subject: Seq<char>) -> ParseErrorV {
    ParseErrorV { kind, subject }
}

/// What one marked function yields: its verb, or the build error that names it.
pub open spec fn verb_of_fn(module: Seq<char>, f: FnItem) -> Result<VerbTokenV, ParseErrorV> {
    if f.params@.len() < 2 {
        Err(error_v(ParseErrorKind::MissingParameters, f.name@))
    } else if f.params@[0] is Receiver || f.params@[1] is Receiver {
        Err(error_v(ParseErrorKind::ReceiverParameter, f.name@))
    } else if !is_context_type(f.params@[0]->Typed_0) {
        Err(error_v(ParseErrorKind::NotContext, f.name@))
    } else if type_name_of(f.params@[1]->Typed_0) is None {
        Err(error_v(ParseErrorKind::UnnameableRequest, f.name@))
    } else if response_name_of(f.output) is None {
        Err(error_v(ParseErrorKind::UnnameableResponse, f.name@))
    } else {
        Ok(
            VerbTokenV {
                module,
                ident: f.name@,
                request: type_name_of(f.params@[1]->Typed_0)->0,
                response: response_name_of(f.output)->0,
            },
        )
    }
}

/// What one top-level item yields: nothing unless it is a function with the verb marker.
pub open spec fn item_verb(module: Seq<char>, item: Item) -> Result<Option<VerbTokenV>, ParseErrorV> {
    match item {
        Item::Fn(f) => if has_verb_marker(f) {
            match verb_of_fn(module, f) {
                Ok(v) => Ok(Some(v)),
                Err(e) => Err(e),
            }
        } else {
            Ok(None)
        },
        _ => Ok(None),
    }
}

/// The verbs of a sequence of items in order, or the error of the first marked function
/// that is not a well-formed verb.
pub open spec fn extract_spec(module: Seq<char>, items: Seq<Item>) -> Result<Seq<VerbTokenV>, ParseErrorV>
    decreases items.len(),
{
    if items.len() == 0 {
        Ok(seq![])
    } else {
        match extract_spec(module, items.drop_last()) {
            Err(e) => Err(e),
            Ok(vs) => match item_verb(module, items.last()) {
                Err(e) => Err(e),
                Ok(None) => Ok(vs),
                Ok(Some(v)) => Ok(vs.push(v)),
            },
        }
    }
}

/// The marked functions of a sequence of items, in order.
pub open spec fn marked_fns(items: Seq<Item>) -> Seq<FnItem>
    decreases items.len(),
{
    if items.len() == 0 {
        seq![]
    } else {
        let rest = marked_fns(items.drop_last());
        match items.last() {
            Item::Fn(f) => if has_verb_marker(f) {
                rest.push(f)
            } else {
                rest
            },
            _ => rest,
        }
    }
}

/// Where every marked function is a well-formed verb, the extractor yields exactly one
/// verb per marked function, in order, named after the function and carrying the module,
/// the request type and the response type that the function declares.
pub proof fn lemma_one_verb_per_marked_fn(module: Seq<char>, items: Seq<Item>)
    requires
        forall|k: int| 0 <= k < marked_fns(items).len() ==> #[trigger] verb_of_fn(module, marked_fns(items)[k]) is Ok,
    ensures
        extract_spec(module, items) matches Ok(vs) && vs.len() == marked_fns(items).len() && forall|k: int|
            0 <= k < vs.len() ==> {
                let f = #[trigger] marked_fns(items)[k];
                &&& vs[k].module == module
                &&& vs[k].ident == f.name@
                &&& Some(vs[k].request) == type_name_of(f.params@[1]->Typed_0)
                &&& Some(vs[k].response) == response_name_of(f.output)
            },
    decreases items.len(),
{
    if items.len() > 0 {
        let rest = items.drop_last();
        assert forall|k: int| 0 <= k < marked_fns(rest).len() implies #[trigger] verb_of_fn(module, marked_fns(rest)[k]) is Ok by {
            assert(marked_fns(items)[k] == marked_fns(rest)[k]);
        }
        lemma_one_verb_per_marked_fn(module, rest);
        match items.last() {
            Item::Fn(f) => if has_verb_marker(f) {
                let k = marked_fns(rest).len() as int;
                assert(marked_fns(items)[k] == f);
            },
            _ => {},
        }
    }
}

fn is_named(s: &String, name: &str) -> (r: bool)
    ensures
        r == (s@ == name@),
{
    str_eq(s.as_str(), name)
}

fn last_segment_of(p: &TypePath) -> (r: Option<&String>)
    ensures
        match r {
            Some(s) => last_segment(*p) == Some(s@),
            None => last_segment(*p) is None,
        },
{
    if p.segments.len() == 0 {
        None
    } else {
        Some(&p.segments[p.segments.len() - 1])
    }
}

fn context_path(p: &TypePath) -> (r: bool)
    ensures
        r == is_context_path(*p),
{
    match last_segment_of(p) {
        Some(s) => is_named(s, "Context") && p.args.len() == 0,
        None => false,
    }
}

fn context_type(t: &TypeExpr) -> (r: bool)
    ensures
        r == is_context_type(*t),
{
    match t {
        TypeExpr::Path(p) => context_path(p),
        TypeExpr::Reference(inner) => match &**inner {
            TypeExpr::Path(p) => context_path(p),
            _ => false,
        },
        _ => false,
    }
}

/// The name of a type written in source, when it has one.
pub fn ident_from_type(t: &TypeExpr) -> (r: Option<TypeName>)
    ensures
        match r {
            Some(n) => type_name_of(*t) == Some(n@),
            None => type_name_of(*t) is None,
        },
{
    match t {
        TypeExpr::Path(p) => match last_segment_of(p) {
            Some(s) => Some(TypeName::Named(s.clone())),
            None => None,
        },
        TypeExpr::Tuple(es) => if es.len() == 0 {
            Some(TypeName::Unit)
        } else {
            None
        },
        _ => None,
    }
}

fn response_name(out: &Option<TypeExpr>) -> (r: Option<TypeName>)
    ensures
        match r {
            Some(n) => response_name_of(*out) == Some(n@),
            None => response_name_of(*out) is None,
        },
{
    match out {
        None => Some(TypeName::Unit),
        Some(t) => match t {
            TypeExpr::Path(p) => {
                let is_result = match last_segment_of(p) {
                    Some(s) => is_named(s, "Result"),
                    None => false,
                };
                if is_result && p.args.len() >= 1 {
                    ident_from_type(&p.args[0])
                } else {
                    ident_from_type(t)
                }
            },
            _ => ident_from_type(t),
        },
    }
}

fn marker_present(f: &FnItem) -> (r: bool)
    ensures
        r == has_verb_marker(*f),
{
    let mut i: usize = 0;
    while i < f.attrs.len()
        invariant
            i <= f.attrs@.len(),
            forall|j: int| 0 <= j < i ==> !#[trigger] is_verb_marker(f.attrs@[j]@),
        decreases f.attrs@.len() - i,
    {
        let a = &f.attrs[i];
        if a.len() == 2 && is_named(&a[0], "ftl") && is_named(&a[1], "verb") {
            assert(is_verb_marker(f.attrs@[i as int]@));
            return true;
        }
        i = i + 1;
    }
    false
}

fn error(kind: ParseErrorKind, subject: &String) -> (e: ParseError)
    ensures
        e@ == error_v(kind, subject@),
{
    ParseError { kind, subject: subject.clone() }
}

impl VerbToken {
    /// The verb that a top-level item declares: none unless it is a function with the
    /// verb marker; a build error naming the function when its shape is wrong.
    pub fn try_parse_any_item(module: &ModuleIdent, item: &Item) -> (r: Result<Option<VerbToken>, ParseError>)
        ensures
            match r {
                Ok(Some(v)) => item_verb(module.0@, *item) == Ok::<_, ParseErrorV>(Some(v@)),
                Ok(None) => item_verb(module.0@, *item) == Ok::<_, ParseErrorV>(None::<VerbTokenV>),
                Err(e) => item_verb(module.0@, *item) == Err::<Option<VerbTokenV>, _>(e@),
            },
    {
        let f = match item {
            Item::Fn(f) => f,
            _ => return Ok(None),
        };
        if !marker_present(f) {
            return Ok(None);
        }
        if f.params.len() < 2 {
            return Err(error(ParseErrorKind::MissingParameters, &f.name));
        }
        let (first, second) = match (&f.params[0], &f.params[1]) {
            (Param::Typed(a), Param::Typed(b)) => (a, b),
            _ => return Err(error(ParseErrorKind::ReceiverParameter, &f.name)),
        };
        if !context_type(first) {
            return Err(error(ParseErrorKind::NotContext, &f.name));
        }
        let request = match ident_from_type(second) {
            Some(n) => n,
            None => return Err(error(ParseErrorKind::UnnameableRequest, &f.name)),
        };
        let response = match response_name(&f.output) {
            Some(n) => n,
            None => return Err(error(ParseErrorKind::UnnameableResponse, &f.name)),
        };
        let v = VerbToken {
            module: ModuleIdent(module.0.clone()),
            ident: f.name.clone(),
            request,
            response,
        };
        Ok(Some(v))
    }
}

/// The verbs that a source unit declares, in order, or the build error of the first
/// marked function that is not a well-formed verb.
pub fn extract_ast_verbs(module: &ModuleIdent, file: &SourceFile) -> (r: Result<Vec<VerbToken>, ParseError>)
    ensures
        match r {
            Ok(vs) => extract_spec(module.0@, file.items@) == Ok::<_, ParseErrorV>(vs@.map_values(|v: VerbToken| v@)),
            Err(e) => extract_spec(module.0@, file.items@) == Err::<Seq<VerbTokenV>, _>(e@),
        },
{
    let mut verbs: Vec<VerbToken> = Vec::new();
    let mut i: usize = 0;
    assert(file.items@.take(0) =~= Seq::<Item>::empty());
    assert(verbs@.map_values(|v: VerbToken| v@) =~= Seq::<VerbTokenV>::empty());
    while i < file.items.len()
        invariant
            i <= file.items@.len(),
            extract_spec(module.0@, file.items@.take(i as int)) == Ok::<_, ParseErrorV>(verbs@.map_values(|v: VerbToken| v@)),
        decreases file.items@.len() - i,
    {
        let ghost before = verbs@;
        assert(file.items@.take(i + 1).drop_last() =~= file.items@.take(i as int));
        match VerbToken::try_parse_any_item(module, &file.items[i]) {
            Ok(Some(v)) => {
                verbs.push(v);
                assert(verbs@.map_values(|v: VerbToken| v@) =~= before.map_values(|v: VerbToken| v@).push(v@));
            },
            Ok(None) => {},
            Err(e) => {
                proof {
                    lemma_extract_err_sticks(module.0@, file.items@, i as int + 1);
                }
                return Err(e);
            },
        }
        i = i + 1;
    }
    assert(file.items@.take(i as int) =~= file.items@);
    Ok(verbs)
}

proof fn lemma_extract_err_sticks(module: Seq<char>, items: Seq<Item>, i: int)
    requires
        0 <= i <= items.len(),
        extract_spec(module, items.take(i)) is Err,
    ensures
        extract_spec(module, items) == extract_spec(module, items.take(i)),
    decreases items.len() - i,
{
    if i < items.len() {
        assert(items.take(i + 1).drop_last() =~= items.take(i));
        lemma_extract_err_sticks(module, items, i + 1);
    } else {
        assert(items.take(i) =~= items);
    }
}

/// The primitive kind that a type name stands for, if it is one.
pub open spec fn primitive_of(n: Seq<char>) -> Option<TypeV> {
    if n == "String"@ {
        Some(TypeV::Str)
    } else if n == "bool"@ {
        Some(TypeV::Bool)
    } else if n == "u8"@ || n == "u16"@ || n == "u32"@ || n == "u64"@ || n == "i8"@ || n == "i16"@
        || n == "i32"@ || n == "i64"@ {
        Some(TypeV::Int)
    } else if n == "f32"@ || n == "f64"@ {
        Some(TypeV::Float)
    } else {
        None
    }
}

pub fn primitive_type(n: &str) -> (r: Option<SchemaType>)
    ensures
        match r {
            Some(t) => primitive_of(n@) == Some(t@),
            None => primitive_of(n@) is None,
        },
{
    if str_eq(n, "String") {
        Some(SchemaType::Str)
    } else if str_eq(n, "bool") {
        Some(SchemaType::Bool)
    } else if str_eq(n, "u8") || str_eq(n, "u16") || str_eq(n, "u32") || str_eq(n, "u64") || str_eq(
        n,
        "i8",
    ) || str_eq(n, "i16") || str_eq(n, "i32") || str_eq(n, "i64") {
        Some(SchemaType::Int)
    } else if str_eq(n, "f32") || str_eq(n, "f64") {
        Some(SchemaType::Float)
    } else {
        None
    }
}

pub open spec fn names_view(v: Seq<String>) -> Seq<Seq<char>> {
    v.map_values(|s: String| s@)
}

/// The schema type of a field: a type parameter of its struct is erased to `Any`, a
/// primitive name to its kind, and any other name refers to a struct of the same module.
pub open spec fn field_type_of(module: Seq<char>, generics: Seq<String>, t: TypeExpr) -> Option<TypeV> {
    match type_name_of(t) {
        None => None,
        Some(TypeNameV::Unit) => Some(TypeV::Unit),
        Some(TypeNameV::Named(n)) => if names_view(generics).contains(n) {
            Some(TypeV::Any)
        } else {
            match primitive_of(n) {
                Some(p) => Some(p),
                None => Some(TypeV::Ref(TypeRefV { module, name: n })),
            }
        },
    }
}

pub open spec fn data_field_of(module: Seq<char>, generics: Seq<String>, f: StructField) -> Option<DataFieldV> {
    match (f.name, field_type_of(module, generics, f.ty)) {
        (Some(n), Some(t)) => Some(DataFieldV { name: n@, ty: t }),
        _ => None,
    }
}

/// The data declaration of a struct, when all of its fields can be named.
pub open spec fn data_of(module: Seq<char>, s: StructItem) -> Option<DataV> {
    if forall|i: int| 0 <= i < s.fields@.len() ==> #[trigger] data_field_of(module, s.generics@, s.fields@[i]) is Some {
        Some(DataV {
            name: s.name@,
            fields: Seq::new(s.fields@.len(), |i: int| data_field_of(module, s.generics@, s.fields@[i])->0),
        })
    } else {
        None
    }
}

fn is_generic(generics: &Vec<String>, n: &String) -> (r: bool)
    ensures
        r == names_view(generics@).contains(n@),
{
    let mut i: usize = 0;
    while i < generics.len()
        invariant
            i <= generics@.len(),
            forall|j: int| 0 <= j < i ==> generics@[j]@ != n@,
        decreases generics@.len() - i,
    {
        if str_eq(generics[i].as_str(), n.as_str()) {
            assert(names_view(generics@)[i as int] == n@);
            return true;
        }
        i = i + 1;
    }
    assert forall|j: int| 0 <= j < names_view(generics@).len() implies names_view(generics@)[j] != n@ by {
        assert(generics@[j]@ != n@);
    }
    false
}

/// The names of the structs that fields refer to, in field order.
pub open spec fn ref_names(fields: Seq<DataFieldV>) -> Seq<Seq<char>>
    decreases fields.len(),
{
    if fields.len() == 0 {
        seq![]
    } else {
        ref_names(fields.drop_last()) + match fields.last().ty {
            TypeV::Ref(r) => seq![r.name],
            _ => Seq::<Seq<char>>::empty(),
        }
    }
}

/// Resolves the fields of a struct found in `module`; yields its data declaration and the
/// names of the structs that its fields refer to.
fn resolve_struct(module: &ModuleIdent, s: &StructItem) -> (r: Result<(Data, Vec<String>), ParseError>)
    ensures
        match r {
            Ok((d, refs)) => {
                &&& data_of(module.0@, *s) == Some(d@)
                &&& names_view(refs@) == ref_names(d@.fields)
                &&& forall|j: int| 0 <= j < d@.fields.len() ==> (#[trigger] d@.fields[j]).ty is Ref
                    ==> names_view(refs@).contains(d@.fields[j].ty->Ref_0.name)
            },
            Err(e) => data_of(module.0@, *s) is None && e@ == error_v(ParseErrorKind::UnnameableField, s.name@),
        },
{
    let mut fields: Vec<Field> = Vec::new();
    let mut refs: Vec<String> = Vec::new();
    let mut i: usize = 0;
    while i < s.fields.len()
        invariant
            i <= s.fields@.len(),
            fields@.len() == i,
            forall|j: int| 0 <= j < i ==> #[trigger] data_field_of(module.0@, s.generics@, s.fields@[j]) == Some(fields@[j]@),
            forall|j: int| 0 <= j < i ==> (#[trigger] fields@[j]).ty@ is Ref ==> names_view(refs@).contains(fields@[j].ty@->Ref_0.name),
            names_view(refs@) == ref_names(fields@.map_values(|f: Field| f@)),
        decreases s.fields@.len() - i,
    {
        let f = &s.fields[i];
        let ghost start_refs = refs@;
        let name = match &f.name {
            Some(n) => n.clone(),
            None => {
                assert(data_field_of(module.0@, s.generics@, s.fields@[i as int]) is None);
                return Err(error(ParseErrorKind::UnnameableField, &s.name));
            },
        };
        let ty = match ident_from_type(&f.ty) {
            None => {
                assert(data_field_of(module.0@, s.generics@, s.fields@[i as int]) is None);
                return Err(error(ParseErrorKind::UnnameableField, &s.name));
            },
            Some(TypeName::Unit) => SchemaType::Unit,
            Some(TypeName::Named(n)) => if is_generic(&s.generics, &n) {
                SchemaType::Any
            } else {
                match primitive_type(n.as_str()) {
                    Some(p) => p,
                    None => {
                        refs.push(n.clone());
                        assert(names_view(refs@) =~= names_view(start_refs).push(n@));
                        assert(names_view(refs@)[refs@.len() - 1] == n@);
                        SchemaType::Ref(TypeRef { module: module.0.clone(), name: n })
                    },
                }
            },
        };
        assert(ty@ is Ref ==> names_view(refs@).contains(ty@->Ref_0.name));
        assert(forall|k: int| 0 <= k < start_refs.len() ==> names_view(refs@)[k] == names_view(start_refs)[k]);
        let ghost before_fields = fields@;
        proof {
            assert(names_view(start_refs) == ref_names(before_fields.map_values(|f: Field| f@)));
            if ty@ is Ref {
                assert(names_view(refs@) =~= names_view(start_refs) + seq![ty@->Ref_0.name]);
            } else {
                assert(names_view(refs@) =~= names_view(start_refs) + Seq::<Seq<char>>::empty());
            }
        }
        fields.push(Field { name, ty });
        proof {
            let fv = fields@.map_values(|f: Field| f@);
            assert(fv.drop_last() =~= before_fields.map_values(|f: Field| f@));
            assert(fv.last() == fields@[i as int]@);
        }
        proof {
            assert forall|j: int| 0 <= j < i + 1 implies (#[trigger] fields@[j]).ty@ is Ref ==> names_view(refs@).contains(fields@[j].ty@->Ref_0.name) by {
                if j < i && fields@[j].ty@ is Ref {
                    assert(fields@[j] == before_fields[j]);
                    let k = choose|k: int| 0 <= k < names_view(start_refs).len() && names_view(start_refs)[k] == fields@[j].ty@->Ref_0.name;
                    assert(names_view(refs@)[k] == names_view(start_refs)[k]);
                }
            }
        }
        i = i + 1;
    }
    let d = Data { name: s.name.clone(), fields };
    assert(d@.fields == fields@.map_values(|f: Field| f@));
    assert(d@.fields =~= Seq::new(s.fields@.len(), |i: int| data_field_of(module.0@, s.generics@, s.fields@[i])->0));
    Ok((d, refs))
}

/// One source unit of the compiler's input, under the name of its module.
#[derive(Debug)]
pub struct Module {
    pub name: ModuleIdent,
    pub file: SourceFile,
}

/// Collects the source units of one compiler run.
pub struct Parser {
    modules: Vec<Module>,
}

/// What a compiler run found: the verbs of all units, and each data declaration that
/// they reach, once.
#[derive(Debug)]
pub struct Parsed {
    pub verbs: Vec<VerbToken>,
    pub types: Vec<Data>,
}

/// The structs that a unit declares, in order, each with the name of its module.
pub open spec fn structs_of(module: Seq<char>, items: Seq<Item>) -> Seq<(Seq<char>, StructItem)>
    decreases items.len(),
{
    if items.len() == 0 {
        seq![]
    } else {
        let rest = structs_of(module, items.drop_last());
        match items.last() {
            Item::Struct(s) => rest.push((module, s)),
            _ => rest,
        }
    }
}

/// The structs of all units, in order.
pub open spec fn struct_list(modules: Seq<Module>) -> Seq<(Seq<char>, StructItem)>
    decreases modules.len(),
{
    if modules.len() == 0 {
        seq![]
    } else {
        struct_list(modules.drop_last()) + structs_of(modules.last().name.0@, modules.last().file.items@)
    }
}

/// The verbs of all units, in order, or the first build error among them.
pub open spec fn all_verbs(modules: Seq<Module>) -> Result<Seq<VerbTokenV>, ParseErrorV>
    decreases modules.len(),
{
    if modules.len() == 0 {
        Ok(seq![])
    } else {
        match all_verbs(modules.drop_last()) {
            Err(e) => Err(e),
            Ok(vs) => match extract_spec(modules.last().name.0@, modules.last().file.items@) {
                Err(e) => Err(e),
                Ok(ws) => Ok(vs + ws),
            },
        }
    }
}

pub open spec fn type_names(types: Seq<Data>) -> Seq<Seq<char>> {
    types.map_values(|d: Data| d.name@)
}

pub open spec fn types_view(types: Seq<Data>) -> Seq<DataV> {
    types.map_values(|d: Data| d@)
}

pub open spec fn verbs_view(verbs: Seq<VerbToken>) -> Seq<VerbTokenV> {
    verbs.map_values(|v: VerbToken| v@)
}

/// A request or response type that names a data declaration is resolved.
pub open spec fn name_resolved(n: TypeNameV, types: Seq<Data>) -> bool {
    match n {
        TypeNameV::Unit => true,
        TypeNameV::Named(x) => primitive_of(x) is Some || type_names(types).contains(x),
    }
}

pub open spec fn flat_view<'a>(flat: Seq<(&'a ModuleIdent, &'a StructItem)>) -> Seq<(Seq<char>, StructItem)> {
    flat.map_values(|e: (&'a ModuleIdent, &'a StructItem)| ((e.0).0@, *e.1))
}

proof fn lemma_all_verbs_err_sticks(modules: Seq<Module>, k: int)
    requires
        0 <= k <= modules.len(),
        all_verbs(modules.take(k)) is Err,
    ensures
        all_verbs(modules) == all_verbs(modules.take(k)),
    decreases modules.len() - k,
{
    if k < modules.len() {
        assert(modules.take(k + 1).drop_last() =~= modules.take(k));
        lemma_all_verbs_err_sticks(modules, k + 1);
    } else {
        assert(modules.take(k) =~= modules);
    }
}

proof fn lemma_room_for_one_more(names: Seq<Seq<char>>, all: Seq<Seq<char>>, x: Seq<char>)
    requires
        names.no_duplicates(),
        forall|i: int| 0 <= i < names.len() ==> all.contains(#[trigger] names[i]),
        all.contains(x),
        !names.contains(x),
    ensures
        names.len() < all.len(),
{
    let s = names.push(x);
    assert(s.no_duplicates()) by {
        assert forall|i: int, j: int| 0 <= i < s.len() && 0 <= j < s.len() && i != j implies s[i] != s[j] by {
            if i < names.len() && j < names.len() {
            } else if i == names.len() {
                assert(s[j] == names[j]);
            } else {
                assert(s[i] == names[i]);
            }
        }
    }
    s.unique_seq_to_set();
    all.lemma_cardinality_of_set();
    seq_to_set_is_finite(all);
    assert forall|y: Seq<char>| s.to_set().contains(y) implies all.to_set().contains(y) by {
        let i = choose|i: int| 0 <= i < s.len() && s[i] == y;
        if i < names.len() {
            assert(all.contains(names[i]));
        }
    }
    lemma_len_subset(s.to_set(), all.to_set());
}

fn find_type(types: &Vec<Data>, n: &String) -> (r: bool)
    ensures
        r == type_names(types@).contains(n@),
{
    let mut i: usize = 0;
    while i < types.len()
        invariant
            i <= types@.len(),
            forall|j: int| 0 <= j < i ==> types@[j].name@ != n@,
        decreases types@.len() - i,
    {
        if str_eq(types[i].name.as_str(), n.as_str()) {
            assert(type_names(types@)[i as int] == n@);
            return true;
        }
        i = i + 1;
    }
    assert forall|j: int| 0 <= j < type_names(types@).len() implies type_names(types@)[j] != n@ by {
        assert(types@[j].name@ != n@);
    }
    false
}

/// `q` is the first struct named `n` of the list.
pub open spec fn first_struct(list: Seq<(Seq<char>, StructItem)>, n: Seq<char>, q: int) -> bool {
    0 <= q < list.len() && list[q].1.name@ == n && forall|j: int| 0 <= j < q ==> #[trigger] list[j].1.name@ != n
}

/// The index of the first struct named `n`, in module order and then item order.
pub open spec fn struct_index(list: Seq<(Seq<char>, StructItem)>, n: Seq<char>) -> Option<int> {
    if exists|q: int| first_struct(list, n, q) {
        Some(choose|q: int| first_struct(list, n, q))
    } else {
        None
    }
}

pub proof fn lemma_first_struct_unique(list: Seq<(Seq<char>, StructItem)>, n: Seq<char>, q: int)
    requires
        first_struct(list, n, q),
    ensures
        struct_index(list, n) == Some(q),
{
    let c = choose|c: int| first_struct(list, n, c);
    if c < q {
        assert(list[c].1.name@ != n);
    } else if q < c {
        assert(list[q].1.name@ != n);
    }
}

pub proof fn lemma_no_struct(list: Seq<(Seq<char>, StructItem)>, n: Seq<char>)
    requires
        forall|q: int| 0 <= q < list.len() ==> #[trigger] list[q].1.name@ != n,
    ensures
        struct_index(list, n) is None,
{
}

fn find_struct<'a>(flat: &Vec<(&'a ModuleIdent, &'a StructItem)>, n: &String) -> (r: Option<usize>)
    ensures
        match r {
            Some(q) => first_struct(flat_view(flat@), n@, q as int),
            None => forall|q: int| 0 <= q < flat@.len() ==> #[trigger] flat_view(flat@)[q].1.name@ != n@,
        },
{
    let mut q: usize = 0;
    while q < flat.len()
        invariant
            q <= flat@.len(),
            forall|j: int| 0 <= j < q ==> #[trigger] flat_view(flat@)[j].1.name@ != n@,
        decreases flat@.len() - q,
    {
        if str_eq(flat[q].1.name.as_str(), n.as_str()) {
            return Some(q);
        }
        q = q + 1;
    }
    None
}

impl Parser {
    pub fn new() -> (r: Parser)
        ensures
            r.modules().len() == 0,
    {
        Parser { modules: Vec::new() }
    }

    pub closed spec fn modules(&self) -> Seq<Module> {
        self.modules@
    }

    /// Adds a source unit under the name of its module.
    pub fn add_module(&mut self, module_ident: &ModuleIdent, file: SourceFile)
        ensures
            final(self).modules().len() == old(self).modules().len() + 1,
            final(self).modules().take(old(self).modules().len() as int) == old(self).modules(),
            final(self).modules().last().name.0@ == module_ident.0@,
            final(self).modules().last().file == file,
    {
        let ghost before = self.modules@;
        self.modules.push(Module { name: ModuleIdent(module_ident.0.clone()), file });
        assert(self.modules@.take(before.len() as int) =~= before);
    }

    fn collect_structs<'a>(&'a self) -> (flat: Vec<(&'a ModuleIdent, &'a StructItem)>)
        ensures
            flat_view(flat@) == struct_list(self.modules@),
    {
        let mut flat: Vec<(&'a ModuleIdent, &'a StructItem)> = Vec::new();
        let mut k: usize = 0;
        assert(self.modules@.take(0) =~= Seq::<Module>::empty());
        assert(flat_view(flat@) =~= Seq::<(Seq<char>, StructItem)>::empty());
        while k < self.modules.len()
            invariant
                k <= self.modules@.len(),
                flat_view(flat@) == struct_list(self.modules@.take(k as int)),
            decreases self.modules@.len() - k,
        {
            let m = &self.modules[k];
            let ghost base = flat_view(flat@);
            let mut j: usize = 0;
            assert(m.file.items@.take(0) =~= Seq::<Item>::empty());
            assert(base =~= base + structs_of(m.name.0@, m.file.items@.take(0)));
            while j < m.file.items.len()
                invariant
                    j <= m.file.items@.len(),
                    flat_view(flat@) == base + structs_of(m.name.0@, m.file.items@.take(j as int)),
                decreases m.file.items@.len() - j,
            {
                let ghost before = flat@;
                assert(m.file.items@.take(j + 1).drop_last() =~= m.file.items@.take(j as int));
                match &m.file.items[j] {
                    Item::Struct(s) => {
                        flat.push((&m.name, s));
                        assert(flat_view(flat@) =~= flat_view(before).push((m.name.0@, *s)));
                    },
                    _ => {},
                }
                j = j + 1;
            }
            assert(m.file.items@.take(j as int) =~= m.file.items@);
            assert(self.modules@.take(k + 1).drop_last() =~= self.modules@.take(k as int));
            k = k + 1;
        }
        assert(self.modules@.take(k as int) =~= self.modules@);
        flat
    }

    fn collect_verbs(&self) -> (r: Result<Vec<VerbToken>, ParseError>)
        ensures
            match r {
                Ok(vs) => all_verbs(self.modules@) == Ok::<_, ParseErrorV>(verbs_view(vs@)),
                Err(e) => all_verbs(self.modules@) == Err::<Seq<VerbTokenV>, _>(e@),
            },
    {
        let mut verbs: Vec<VerbToken> = Vec::new();
        let mut k: usize = 0;
        assert(self.modules@.take(0) =~= Seq::<Module>::empty());
        assert(verbs_view(verbs@) =~= Seq::<VerbTokenV>::empty());
        while k < self.modules.len()
            invariant
                k <= self.modules@.len(),
                all_verbs(self.modules@.take(k as int)) == Ok::<_, ParseErrorV>(verbs_view(verbs@)),
            decreases self.modules@.len() - k,
        {
            let m = &self.modules[k];
            assert(self.modules@.take(k + 1).drop_last() =~= self.modules@.take(k as int));
            let mut found = match extract_ast_verbs(&m.name, &m.file) {
                Ok(vs) => vs,
                Err(e) => {
                    proof {
                        lemma_all_verbs_err_sticks(self.modules@, k + 1);
                    }
                    return Err(e);
                },
            };
            let ghost before = verbs@;
            let ghost added = found@;
            verbs.append(&mut found);
            assert(verbs_view(verbs@) =~= verbs_view(before) + verbs_view(added));
            k = k + 1;
        }
        assert(self.modules@.take(k as int) =~= self.modules@);
        Ok(verbs)
    }
}

/// The state of the resolver's worklist: the names queued so far in FIFO order, how many
/// have been taken, the declarations built so far, and the error that stopped it.
pub struct WorkState {
    pub queue: Seq<Seq<char>>,
    pub head: int,
    pub types: Seq<DataV>,
    pub error: Option<ParseErrorV>,
}

pub open spec fn name_seq(n: TypeNameV) -> Seq<Seq<char>> {
    match n {
        TypeNameV::Named(x) => seq![x],
        TypeNameV::Unit => seq![],
    }
}

/// The names that seed the worklist: each verb's request then response type name, in order.
pub open spec fn seeds(vs: Seq<VerbTokenV>) -> Seq<Seq<char>>
    decreases vs.len(),
{
    if vs.len() == 0 {
        seq![]
    } else {
        seeds(vs.drop_last()) + name_seq(vs.last().request) + name_seq(vs.last().response)
    }
}

pub open spec fn data_names(types: Seq<DataV>) -> Seq<Seq<char>> {
    types.map_values(|d: DataV| d.name)
}

pub open spec fn wl_start(vs: Seq<VerbTokenV>) -> WorkState {
    WorkState { queue: seeds(vs), head: 0, types: seq![], error: None }
}

pub open spec fn wl_done(s: WorkState) -> bool {
    s.error is Some || s.head >= s.queue.len()
}

/// One step of the resolver: take the next queued name; skip it when it is primitive or
/// already resolved; else build the declaration of the first struct of that name and queue
/// the names its fields refer to; fail when no struct has that name or a field cannot be named.
pub open spec fn wl_step(list: Seq<(Seq<char>, StructItem)>, s: WorkState) -> WorkState {
    if wl_done(s) {
        s
    } else {
        let n = s.queue[s.head];
        if primitive_of(n) is Some || data_names(s.types).contains(n) {
            WorkState { head: s.head + 1, ..s }
        } else {
            match struct_index(list, n) {
                None => WorkState { error: Some(error_v(ParseErrorKind::UnresolvedType, n)), ..s },
                Some(q) => match data_of(list[q].0, list[q].1) {
                    None => WorkState { error: Some(error_v(ParseErrorKind::UnnameableField, n)), ..s },
                    Some(d) => WorkState {
                        queue: s.queue + ref_names(d.fields),
                        head: s.head + 1,
                        types: s.types.push(d),
                        error: None,
                    },
                },
            }
        }
    }
}

pub open spec fn wl_run(list: Seq<(Seq<char>, StructItem)>, s: WorkState, k: nat) -> WorkState
    decreases k,
{
    if k == 0 {
        s
    } else {
        wl_step(list, wl_run(list, s, (k - 1) as nat))
    }
}

/// The resolver stopped after `k` steps with this outcome.
pub open spec fn resolves_to(modules: Seq<Module>, vs: Seq<VerbTokenV>, k: nat, out: Result<Seq<DataV>, ParseErrorV>) -> bool {
    let s = wl_run(struct_list(modules), wl_start(vs), k);
    &&& wl_done(s)
    &&& match out {
        Ok(types) => s.error is None && s.types == types,
        Err(e) => s.error == Some(e),
    }
}

proof fn lemma_done_stays(list: Seq<(Seq<char>, StructItem)>, s: WorkState, k1: nat, k2: nat)
    requires
        wl_done(wl_run(list, s, k1)),
        k1 <= k2,
    ensures
        wl_run(list, s, k2) == wl_run(list, s, k1),
    decreases k2,
{
    if k2 > k1 {
        lemma_done_stays(list, s, k1, (k2 - 1) as nat);
    }
}

/// The resolver is deterministic: two runs that stop give the same outcome, so two parses
/// of one input give the same declarations, in the same (discovery) order.
pub proof fn lemma_resolution_deterministic(modules: Seq<Module>, vs: Seq<VerbTokenV>, k1: nat, k2: nat, a: Result<Seq<DataV>, ParseErrorV>, b: Result<Seq<DataV>, ParseErrorV>)
    requires
        resolves_to(modules, vs, k1, a),
        resolves_to(modules, vs, k2, b),
    ensures
        a == b,
{
    let list = struct_list(modules);
    if k1 <= k2 {
        lemma_done_stays(list, wl_start(vs), k1, k2);
    } else {
        lemma_done_stays(list, wl_start(vs), k2, k1);
    }
}

/// `m` is not primitive, and a field of the first struct named `m` refers to `n`.
pub open spec fn refers_to(list: Seq<(Seq<char>, StructItem)>, m: Seq<char>, n: Seq<char>) -> bool {
    primitive_of(m) is None && match struct_index(list, m) {
        Some(q) => match data_of(list[q].0, list[q].1) {
            Some(d) => ref_names(d.fields).contains(n),
            None => false,
        },
        None => false,
    }
}

/// A chain of names from a seed, each referred to by a field of the struct of the one before.
pub open spec fn reach_path(list: Seq<(Seq<char>, StructItem)>, sd: Seq<Seq<char>>, path: Seq<Seq<char>>) -> bool {
    &&& path.len() >= 1
    &&& sd.contains(path[0])
    &&& forall|i: int| 0 <= i < path.len() - 1 ==> refers_to(list, #[trigger] path[i], path[i + 1])
}

/// The names reached from the verbs' request and response types through the field types
/// of the structs that they name.
pub open spec fn reached(modules: Seq<Module>, n: Seq<char>) -> bool {
    exists|vs: Seq<VerbTokenV>, path: Seq<Seq<char>>|
        all_verbs(modules) == Ok::<_, ParseErrorV>(vs) && #[trigger] reach_path(struct_list(modules), seeds(vs), path)
            && path.last() == n
}

/// Every reached name that is not primitive names a struct whose fields can all be named.
pub open spec fn reachable_types_declared(modules: Seq<Module>) -> bool {
    forall|n: Seq<char>| #[trigger] reached(modules, n) && primitive_of(n) is None ==> (struct_index(struct_list(modules), n) matches Some(q)
        && data_of(struct_list(modules)[q].0, struct_list(modules)[q].1) is Some)
}

/// The resolver stopped with this error on a reached, non-primitive name: no struct has
/// that name, or a field of the first struct of that name cannot be named.
pub open spec fn failed_on(modules: Seq<Module>, e: ParseErrorV) -> bool {
    &&& exists|vs: Seq<VerbTokenV>, k: nat|
        all_verbs(modules) == Ok::<_, ParseErrorV>(vs) && #[trigger] resolves_to(modules, vs, k, Err(e))
    &&& reached(modules, e.subject)
    &&& primitive_of(e.subject) is None
    &&& match e.kind {
        ParseErrorKind::UnresolvedType => struct_index(struct_list(modules), e.subject) is None,
        ParseErrorKind::UnnameableField => match struct_index(struct_list(modules), e.subject) {
            Some(q) => data_of(struct_list(modules)[q].0, struct_list(modules)[q].1) is None,
            None => false,
        },
        _ => false,
    }
}

proof fn lemma_ref_names_contains(fields: Seq<DataFieldV>, z: Seq<char>)
    requires
        ref_names(fields).contains(z),
    ensures
        exists|j: int| 0 <= j < fields.len() && (#[trigger] fields[j]).ty is Ref && fields[j].ty->Ref_0.name == z,
    decreases fields.len(),
{
    let rest = ref_names(fields.drop_last());
    let k = choose|k: int| 0 <= k < ref_names(fields).len() && ref_names(fields)[k] == z;
    if k < rest.len() {
        assert(rest[k] == z);
        lemma_ref_names_contains(fields.drop_last(), z);
        let j = choose|j: int| 0 <= j < fields.drop_last().len() && (#[trigger] fields.drop_last()[j]).ty is Ref && fields.drop_last()[j].ty->Ref_0.name == z;
        assert(fields[j] == fields.drop_last()[j]);
    } else {
        let j = fields.len() - 1;
        assert(fields[j] == fields.last());
    }
}

proof fn lemma_path_in_queue(
    list: Seq<(Seq<char>, StructItem)>,
    sd: Seq<Seq<char>>,
    path: Seq<Seq<char>>,
    queue: Seq<Seq<char>>,
    names: Seq<Seq<char>>,
    k: int,
)
    requires
        reach_path(list, sd, path),
        0 <= k < path.len(),
        forall|x: Seq<char>| sd.contains(x) ==> queue.contains(x),
        forall|x: Seq<char>| queue.contains(x) && primitive_of(x) is None ==> names.contains(x),
        forall|x: Seq<char>, z: Seq<char>| names.contains(x) && #[trigger] refers_to(list, x, z) ==> queue.contains(z),
    ensures
        queue.contains(path[k]),
    decreases k,
{
    if k > 0 {
        lemma_path_in_queue(list, sd, path, queue, names, k - 1);
        assert(refers_to(list, path[k - 1], path[k]));
    }
}

proof fn lemma_reached_intro(modules: Seq<Module>, vs: Seq<VerbTokenV>, path: Seq<Seq<char>>)
    requires
        all_verbs(modules) == Ok::<_, ParseErrorV>(vs),
        reach_path(struct_list(modules), seeds(vs), path),
    ensures
        reached(modules, path.last()),
{
}

proof fn lemma_path_push(list: Seq<(Seq<char>, StructItem)>, sd: Seq<Seq<char>>, path: Seq<Seq<char>>, n: Seq<char>)
    requires
        reach_path(list, sd, path),
        refers_to(list, path.last(), n),
    ensures
        reach_path(list, sd, path.push(n)),
        path.push(n).last() == n,
{
    let p2 = path.push(n);
    assert(p2[0] == path[0]);
    assert forall|i: int| 0 <= i < p2.len() - 1 implies refers_to(list, #[trigger] p2[i], p2[i + 1]) by {
        if i < path.len() - 1 {
            assert(p2[i] == path[i] && p2[i + 1] == path[i + 1]);
        } else {
            assert(p2[i] == path.last());
        }
    }
}

impl Parser {
    /// Extracts the verbs of all units, then resolves every data declaration that they
    /// reach. A FIFO worklist is seeded with the verbs' request and response type names;
    /// each name popped is skipped when it is primitive or already resolved, and otherwise
    /// resolved from the first struct of that name, whose field types join the worklist.
    /// A name is recorded as resolved as soon as its declaration is built, so cyclic struct
    /// graphs terminate and each type is emitted once.
    pub fn parse(self) -> (r: Result<Parsed, ParseError>)
        ensures
            match r {
                Ok(p) => {
                    &&& all_verbs(self.modules()) == Ok::<_, ParseErrorV>(verbs_view(p.verbs@))
                    &&& exists|k: nat| #[trigger] resolves_to(self.modules(), verbs_view(p.verbs@), k, Ok(types_view(p.types@)))
                    &&& type_names(p.types@).no_duplicates()
                    &&& forall|i: int| 0 <= i < p.types@.len() ==> declared_in(self.modules(), #[trigger] p.types@[i])
                    &&& forall|i: int| 0 <= i < p.types@.len() ==> reached(self.modules(), (#[trigger] p.types@[i]).name@)
                    &&& forall|x: Seq<char>| #[trigger] reached(self.modules(), x) && primitive_of(x) is None ==> type_names(p.types@).contains(x)
                    &&& forall|i: int, j: int| 0 <= i < p.types@.len() && 0 <= j < p.types@[i]@.fields.len()
                        && (#[trigger] p.types@[i]@.fields[j]).ty is Ref ==> type_names(p.types@).contains(
                        p.types@[i]@.fields[j].ty->Ref_0.name)
                    &&& forall|m: int| 0 <= m < p.verbs@.len() ==> name_resolved((#[trigger] p.verbs@[m])@.request, p.types@)
                        && name_resolved(p.verbs@[m]@.response, p.types@)
                },
                Err(e) => {
                    ||| all_verbs(self.modules()) == Err::<Seq<VerbTokenV>, _>(e@)
                    ||| failed_on(self.modules(), e@)
                },
            },
            all_verbs(self.modules()) is Ok && reachable_types_declared(self.modules()) ==> r is Ok,
    {
        let verbs = match self.collect_verbs() {
            Ok(vs) => vs,
            Err(e) => return Err(e),
        };
        let flat = self.collect_structs();
        let ghost fv = flat_view(flat@);
        let ghost all = fv.map_values(|e: (Seq<char>, StructItem)| e.1.name@);

        let mut queue: Vec<String> = Vec::new();
        let mut m: usize = 0;
        while m < verbs.len()
            invariant
                m <= verbs@.len(),
                names_view(queue@) == seeds(verbs_view(verbs@).take(m as int)),
                forall|x: int| 0 <= x < m ==> #[trigger] name_seeded(verbs@[x]@.request, names_view(queue@)),
                forall|x: int| 0 <= x < m ==> #[trigger] name_seeded(verbs@[x]@.response, names_view(queue@)),
            decreases verbs@.len() - m,
        {
            let ghost q0 = names_view(queue@);
            seed(&mut queue, &verbs[m].request);
            let ghost q1 = names_view(queue@);
            seed(&mut queue, &verbs[m].response);
            proof {
                let q2 = names_view(queue@);
                let c1 = q1.skip(q0.len() as int);
                let c2 = q2.skip(q1.len() as int);
                assert(q1 =~= q0 + c1);
                assert(q2 =~= q1 + c2);
                let vt = verbs_view(verbs@).take(m + 1);
                assert(vt.drop_last() =~= verbs_view(verbs@).take(m as int));
                assert(vt.last() == verbs@[m as int]@);
                assert(q2 =~= seeds(vt.drop_last()) + name_seq(vt.last().request) + name_seq(vt.last().response));
                assert forall|x: int| 0 <= x < m + 1 implies #[trigger] name_seeded(verbs@[x]@.request, names_view(queue@)) by {
                    if x < m {
                        assert(name_seeded(verbs@[x]@.request, q0));
                        lemma_seeded_append(verbs@[x]@.request, q0, c1);
                        lemma_seeded_append(verbs@[x]@.request, q1, c2);
                    } else {
                        lemma_seeded_append(verbs@[x]@.request, q1, c2);
                    }
                }
                assert forall|x: int| 0 <= x < m + 1 implies #[trigger] name_seeded(verbs@[x]@.response, names_view(queue@)) by {
                    if x < m {
                        assert(name_seeded(verbs@[x]@.response, q0));
                        lemma_seeded_append(verbs@[x]@.response, q0, c1);
                        lemma_seeded_append(verbs@[x]@.response, q1, c2);
                    }
                }
            }
            m = m + 1;
        }

        assert(verbs_view(verbs@).take(verbs@.len() as int) =~= verbs_view(verbs@));
        let ghost vs = verbs_view(verbs@);
        let ghost sd = seeds(vs);
        let mut types: Vec<Data> = Vec::new();
        let ghost mut origin: Seq<int> = Seq::empty();
        let ghost mut steps: nat = 0;
        let ghost mut hist: Seq<Seq<char>> = names_view(queue@);
        let ghost mut head: int = 0;
        let mut pending: VecDeque<String> = VecDeque::new();
        let mut i: usize = 0;
        while i < queue.len()
            invariant
                i <= queue@.len(),
                hist == names_view(queue@),
                names_view(pending@) == hist.take(i as int),
            decreases queue@.len() - i,
        {
            let ghost before = pending@;
            pending.push_back(queue[i].clone());
            assert(names_view(pending@) =~= names_view(before).push(queue@[i as int]@));
            assert(hist.take(i + 1) =~= hist.take(i as int).push(hist[i as int]));
            i = i + 1;
        }
        assert(hist.take(i as int) =~= hist.skip(0));
        let ghost mut paths: Seq<Seq<Seq<char>>> = Seq::new(hist.len(), |p: int| seq![hist[p]]);
        let ghost mut tpos: Seq<int> = Seq::empty();
        assert(type_names(types@) =~= Seq::<Seq<char>>::empty());
        assert(types@.map_values(|d: Data| d@) =~= Seq::<DataV>::empty());
        assert forall|p: int| 0 <= p < hist.len() implies reach_path(fv, sd, #[trigger] paths[p]) && paths[p].last() == hist[p] by {
            assert(sd[p] == hist[p]);
            assert(paths[p][0] == sd[p]);
        }
        while pending.len() > 0
            invariant
                fv == flat_view(flat@),
                fv == struct_list(self.modules@),
                all == fv.map_values(|e: (Seq<char>, StructItem)| e.1.name@),
                0 <= head <= hist.len(),
                names_view(pending@) == hist.skip(head),
                types@.len() <= fv.len(),
                type_names(types@).no_duplicates(),
                origin.len() == types@.len(),
                forall|i: int| 0 <= i < types@.len() ==> first_struct(fv, types@[i].name@, #[trigger] origin[i])
                    && data_of(fv[origin[i]].0, fv[origin[i]].1) == Some(types@[i]@),
                vs == verbs_view(verbs@),
                sd == seeds(vs),
                all_verbs(self.modules@) == Ok::<_, ParseErrorV>(vs),
                wl_run(fv, wl_start(vs), steps) == (WorkState {
                    queue: hist,
                    head: head,
                    types: types@.map_values(|d: Data| d@),
                    error: None,
                }),
                sd.len() <= hist.len(),
                forall|p: int| 0 <= p < sd.len() ==> #[trigger] hist[p] == sd[p],
                paths.len() == hist.len(),
                forall|p: int| 0 <= p < hist.len() ==> reach_path(fv, sd, #[trigger] paths[p]) && paths[p].last() == hist[p],
                tpos.len() == types@.len(),
                forall|i: int| 0 <= i < types@.len() ==> 0 <= #[trigger] tpos[i] < hist.len()
                    && hist[tpos[i]] == types@[i].name@,
                forall|i: int, j: int| 0 <= i < types@.len() && 0 <= j < types@[i]@.fields.len()
                    && (#[trigger] types@[i]@.fields[j]).ty is Ref ==> hist.contains(
                    types@[i]@.fields[j].ty->Ref_0.name),
                forall|p: int| 0 <= p < head ==> primitive_of(#[trigger] hist[p]) is Some
                    || type_names(types@).contains(hist[p]),
                forall|x: int| 0 <= x < verbs@.len() ==> #[trigger] name_seeded(verbs@[x]@.request, hist),
                forall|x: int| 0 <= x < verbs@.len() ==> #[trigger] name_seeded(verbs@[x]@.response, hist),
            decreases fv.len() - types@.len(), pending@.len(),
        {
            let ghost before_pending = pending@;
            let n = match pending.pop_front() {
                Some(x) => x,
                None => {
                    assert(false);
                    return Err(error(ParseErrorKind::UnresolvedType, &String::new()));
                },
            };
            proof {
                assert(names_view(before_pending).len() == before_pending.len());
                assert(hist.skip(head).len() == hist.len() - head);
                assert(head < hist.len());
                assert(hist.skip(head)[0] == hist[head]);
                assert(before_pending.len() > 0);
                assert(n == before_pending[0]);
                assert(names_view(before_pending)[0] == before_pending[0]@);
                assert(names_view(before_pending)[0] == n@);
                assert(pending@ == before_pending.subrange(1, before_pending.len() as int));
                assert(names_view(before_pending) == hist.skip(head));
                assert forall|k: int| 0 <= k < pending@.len() implies #[trigger] names_view(pending@)[k] == hist.skip(head + 1)[k] by {
                    assert(pending@[k] == before_pending[k + 1]);
                    assert(names_view(before_pending)[k + 1] == hist.skip(head)[k + 1]);
                }
                assert(names_view(pending@) =~= hist.skip(head + 1));
            }
            let ghost cur = WorkState {
                queue: hist,
                head: head,
                types: types@.map_values(|d: Data| d@),
                error: None,
            };
            proof {
                assert(cur.queue[head] == n@);
                assert(data_names(cur.types) =~= type_names(types@));
                assert(wl_run(fv, wl_start(vs), steps + 1) == wl_step(fv, cur));
                assert(self.modules() == self.modules@);
            }
            let is_primitive = match primitive_type(n.as_str()) {
                Some(_) => true,
                None => false,
            };
            if is_primitive || find_type(&types, &n) {
                proof {
                    head = head + 1;
                }
                proof {
                    assert(wl_step(fv, cur) == WorkState { head: cur.head + 1, ..cur });
                    steps = steps + 1;
                }
            } else {
                let q = match find_struct(&flat, &n) {
                    Some(q) => q,
                    None => {
                        let e = error(ParseErrorKind::UnresolvedType, &n);
                        proof {
                            lemma_no_struct(fv, n@);
                            assert(wl_run(fv, wl_start(vs), steps + 1).error == Some(e@));
                            assert(resolves_to(self.modules(), vs, steps + 1, Err(e@)));
                            assert(hist[head] == n@);
                            assert(e.subject@ == n@);
                            assert(struct_list(self.modules()) == fv);
                            assert(reach_path(fv, sd, paths[head]));
                            lemma_reached_intro(self.modules(), vs, paths[head]);
                        }
                        return Err(e);
                    },
                };
                let (module, item) = flat[q];
                assert(fv[q as int] == (module.0@, *item));
                proof {
                    lemma_first_struct_unique(fv, n@, q as int);
                }
                let (data, mut refs) = match resolve_struct(module, item) {
                    Ok(x) => x,
                    Err(e) => {
                        proof {
                            assert(wl_run(fv, wl_start(vs), steps + 1).error == Some(e@));
                            assert(resolves_to(self.modules(), vs, steps + 1, Err(e@)));
                            assert(hist[head] == n@);
                            assert(e.subject@ == n@);
                            assert(struct_list(self.modules()) == fv);
                            assert(reach_path(fv, sd, paths[head]));
                            lemma_reached_intro(self.modules(), vs, paths[head]);
                        }
                        return Err(e);
                    },
                };
                let ghost dv = data@;
                let ghost old_head = head;
                proof {
                    assert(wl_step(fv, cur) == (WorkState {
                        queue: cur.queue + ref_names(dv.fields),
                        head: cur.head + 1,
                        types: cur.types.push(dv),
                        error: None,
                    }));
                    assert forall|i: int| 0 <= i < type_names(types@).len() implies all.contains(#[trigger] type_names(types@)[i]) by {
                        assert(first_struct(fv, types@[i].name@, origin[i]));
                        assert(all[origin[i]] == type_names(types@)[i]);
                    }
                    assert(all[q as int] == n@);
                    lemma_room_for_one_more(type_names(types@), all, n@);
                }
                let ghost old_types = types@;
                let ghost old_hist = hist;
                let ghost added = refs@;
                assert(old_types.len() < fv.len());
                types.push(data);
                proof {
                    origin = origin.push(q as int);
                }
                let ghost p0 = pending@;
                let mut j: usize = 0;
                while j < refs.len()
                    invariant
                        j <= refs@.len(),
                        refs@ == added,
                        names_view(pending@) == names_view(p0) + names_view(added).take(j as int),
                    decreases refs@.len() - j,
                {
                    let ghost before = pending@;
                    pending.push_back(refs[j].clone());
                    assert(names_view(pending@) =~= names_view(before).push(refs@[j as int]@));
                    assert(names_view(added).take(j + 1) =~= names_view(added).take(j as int).push(names_view(added)[j as int]));
                    j = j + 1;
                }
                assert(names_view(added).take(j as int) =~= names_view(added));
                proof {
                    hist = hist + names_view(added);
                    head = head + 1;
                    assert(names_view(pending@) =~= hist.skip(head));
                }
                proof {
                    assert(type_names(types@) =~= type_names(old_types).push(n@));
                    assert(hist =~= old_hist + names_view(added));
                    assert forall|p: int| 0 <= p < sd.len() implies #[trigger] hist[p] == sd[p] by {
                        assert(hist[p] == old_hist[p]);
                    }
                    assert(types@.map_values(|d: Data| d@) =~= old_types.map_values(|d: Data| d@).push(dv));
                    steps = steps + 1;
                    assert(types@.len() == old_types.len() + 1);
                    assert(types@.len() <= fv.len());
                    let base = paths[old_head];
                    let old_paths = paths;
                    paths = paths + Seq::new(added.len(), |j: int| base.push(ref_names(dv.fields)[j]));
                    assert forall|p: int| 0 <= p < hist.len() implies reach_path(fv, sd, #[trigger] paths[p]) && paths[p].last() == hist[p] by {
                        if p < old_hist.len() {
                            assert(paths[p] == old_paths[p]);
                            assert(hist[p] == old_hist[p]);
                        } else {
                            let x = hist[p];
                            assert(x == ref_names(dv.fields)[p - old_hist.len()]);
                            assert(ref_names(dv.fields).contains(x));
                            assert(refers_to(fv, n@, x));
                            assert(old_hist[old_head] == n@);
                            assert(base.last() == n@);
                            lemma_path_push(fv, sd, base, x);
                            assert(paths[p] == base.push(x));
                        }
                    }
                    tpos = tpos.push(old_head);
                    assert forall|i: int| 0 <= i < types@.len() implies 0 <= #[trigger] tpos[i] < hist.len()
                        && hist[tpos[i]] == types@[i].name@ by {
                        if i < old_types.len() {
                            assert(types@[i] == old_types[i]);
                            assert(hist[tpos[i]] == old_hist[tpos[i]]);
                        } else {
                            assert(hist[old_head] == old_hist[old_head]);
                        }
                    }
                    assert forall|i: int| 0 <= i < types@.len() implies first_struct(fv, types@[i].name@, #[trigger] origin[i])
                        && data_of(fv[origin[i]].0, fv[origin[i]].1) == Some(types@[i]@) by {
                        if i < old_types.len() {
                            assert(types@[i] == old_types[i]);
                        }
                    }
                    assert forall|i: int, j: int| 0 <= i < types@.len() && 0 <= j < types@[i]@.fields.len()
                        && (#[trigger] types@[i]@.fields[j]).ty is Ref implies hist.contains(
                        types@[i]@.fields[j].ty->Ref_0.name) by {
                        let x = types@[i]@.fields[j].ty->Ref_0.name;
                        if i < old_types.len() {
                            assert(types@[i] == old_types[i]);
                            let k = choose|k: int| 0 <= k < old_hist.len() && old_hist[k] == x;
                            assert(hist[k] == x);
                        } else {
                            let k = choose|k: int| 0 <= k < names_view(added).len() && names_view(added)[k] == x;
                            assert(hist[old_hist.len() + k] == x);
                        }
                    }
                    assert forall|p: int| 0 <= p < head implies primitive_of(#[trigger] hist[p]) is Some
                        || type_names(types@).contains(hist[p]) by {
                        assert(hist[p] == old_hist[p]);
                        if p < head - 1 && type_names(old_types).contains(hist[p]) {
                            let k = choose|k: int| 0 <= k < type_names(old_types).len() && type_names(old_types)[k] == hist[p];
                            assert(type_names(types@)[k] == hist[p]);
                        }
                        if p == head - 1 {
                            assert(type_names(types@)[old_types.len() as int] == n@);
                        }
                    }
                    assert forall|x: int| 0 <= x < verbs@.len() implies #[trigger] name_seeded(verbs@[x]@.request, hist) by {
                        assert(name_seeded(verbs@[x]@.request, old_hist));
                        lemma_seeded_append(verbs@[x]@.request, old_hist, names_view(added));
                    }
                    assert forall|x: int| 0 <= x < verbs@.len() implies #[trigger] name_seeded(verbs@[x]@.response, hist) by {
                        assert(name_seeded(verbs@[x]@.response, old_hist));
                        lemma_seeded_append(verbs@[x]@.response, old_hist, names_view(added));
                    }
                }
            }
        }
        let p = Parsed { verbs, types };
        proof {
            assert(self.modules() == self.modules@);
            assert(resolves_to(self.modules(), verbs_view(p.verbs@), steps, Ok(types_view(p.types@))));
            assert forall|i: int| 0 <= i < p.types@.len() implies declared_in(self.modules(), #[trigger] p.types@[i]) by {
                lemma_first_struct_unique(fv, p.types@[i].name@, origin[i]);
            }
            let qn = hist;
            let tn = type_names(p.types@);
            assert forall|x: Seq<char>| sd.contains(x) implies qn.contains(x) by {
                let k = choose|k: int| 0 <= k < sd.len() && sd[k] == x;
                assert(qn[k] == sd[k]);
            }
            assert forall|x: Seq<char>| qn.contains(x) && primitive_of(x) is None implies tn.contains(x) by {
                let k = choose|k: int| 0 <= k < qn.len() && qn[k] == x;
                assert(hist[k] == x);
            }
            assert forall|x: Seq<char>, z: Seq<char>| tn.contains(x) && #[trigger] refers_to(fv, x, z) implies qn.contains(z) by {
                let i = choose|i: int| 0 <= i < tn.len() && tn[i] == x;
                lemma_first_struct_unique(fv, p.types@[i].name@, origin[i]);
                let q = origin[i];
                assert(data_of(fv[q].0, fv[q].1) == Some(p.types@[i]@));
                lemma_ref_names_contains(p.types@[i]@.fields, z);
                let j = choose|j: int| 0 <= j < p.types@[i]@.fields.len() && (#[trigger] p.types@[i]@.fields[j]).ty is Ref && p.types@[i]@.fields[j].ty->Ref_0.name == z;
                assert(hist.contains(p.types@[i]@.fields[j].ty->Ref_0.name));
            }
            assert forall|x: Seq<char>| #[trigger] reached(self.modules(), x) && primitive_of(x) is None implies tn.contains(x) by {
                let (vs2, path) = choose|vs2: Seq<VerbTokenV>, path: Seq<Seq<char>>|
                    all_verbs(self.modules()) == Ok::<_, ParseErrorV>(vs2) && #[trigger] reach_path(struct_list(self.modules()), seeds(vs2), path)
                        && path.last() == x;
                assert(vs2 == vs);
                assert(struct_list(self.modules()) == fv);
                lemma_path_in_queue(fv, sd, path, qn, tn, path.len() - 1);
            }
            assert forall|i: int| 0 <= i < p.types@.len() implies reached(self.modules(), (#[trigger] p.types@[i]).name@) by {
                let x = tpos[i];
                assert(0 <= x < hist.len());
                assert(reach_path(fv, sd, paths[x]));
                assert(struct_list(self.modules()) == fv);
                lemma_reached_intro(self.modules(), vs, paths[x]);
            }
            assert forall|x: Seq<char>| hist.contains(x) && primitive_of(x) is None implies type_names(p.types@).contains(x) by {
                let k = choose|k: int| 0 <= k < hist.len() && hist[k] == x;
                assert(hist[k] == x);
            }
            assert forall|i: int, j: int| 0 <= i < p.types@.len() && 0 <= j < p.types@[i]@.fields.len()
                && (#[trigger] p.types@[i]@.fields[j]).ty is Ref implies type_names(p.types@).contains(
                p.types@[i]@.fields[j].ty->Ref_0.name) by {
                let q = origin[i];
                let st = fv[q].1;
                let md = fv[q].0;
                assert(data_field_of(md, st.generics@, st.fields@[j]) is Some);
                assert(p.types@[i]@.fields[j] == data_field_of(md, st.generics@, st.fields@[j])->0);
            }
            assert forall|x: int| 0 <= x < p.verbs@.len() implies name_resolved((#[trigger] p.verbs@[x])@.request, p.types@)
                && name_resolved(p.verbs@[x]@.response, p.types@) by {
                assert(name_seeded(p.verbs@[x]@.request, hist));
                assert(name_seeded(p.verbs@[x]@.response, hist));
            }
        }
        Ok(p)
    }
}

/// A data declaration is built from the first struct of its name.
pub open spec fn declared_in(modules: Seq<Module>, d: Data) -> bool {
    struct_index(struct_list(modules), d.name@) matches Some(q)
        && data_of(struct_list(modules)[q].0, struct_list(modules)[q].1) == Some(d@)
}

/// A request or response type that names a type is on the worklist.
pub open spec fn name_seeded(n: TypeNameV, queue: Seq<Seq<char>>) -> bool {
    match n {
        TypeNameV::Unit => true,
        TypeNameV::Named(x) => queue.contains(x),
    }
}

proof fn lemma_seeded_append(n: TypeNameV, a: Seq<Seq<char>>, c: Seq<Seq<char>>)
    requires
        name_seeded(n, a),
    ensures
        name_seeded(n, a + c),
{
    if let TypeNameV::Named(x) = n {
        let k = choose|k: int| 0 <= k < a.len() && a[k] == x;
        assert((a + c)[k] == x);
    }
}

fn seed(queue: &mut Vec<String>, n: &TypeName)
    ensures
        names_view(final(queue)@) == names_view(old(queue)@) + match n@ {
            TypeNameV::Named(x) => seq![x],
            TypeNameV::Unit => Seq::<Seq<char>>::empty(),
        },
        name_seeded(n@, names_view(final(queue)@)),
{
    let ghost before = queue@;
    match n {
        TypeName::Named(x) => {
            queue.push(x.clone());
            assert(names_view(queue@) =~= names_view(before).push(x@));
            assert(names_view(queue@)[before.len() as int] == x@);
        },
        TypeName::Unit => {
            assert(names_view(queue@) =~= names_view(before) + Seq::<Seq<char>>::empty());
        },
    }
}

/// The schema type of a verb's request or response type, declared in `module`.
pub open spec fn verb_type_of(module: Seq<char>, n: TypeNameV) -> TypeV {
    match n {
        TypeNameV::Unit => TypeV::Unit,
        TypeNameV::Named(x) => match primitive_of(x) {
            Some(p) => p,
            None => TypeV::Ref(TypeRefV { module, name: x }),
        },
    }
}

/// The declaration of a verb, under its name in lower camel case.
pub open spec fn verb_decl_of(v: VerbTokenV) -> DeclV {
    DeclV::Verb(
        VerbV {
            name: lower_camel_of(v.ident),
            request: Some(verb_type_of(v.module, v.request)),
            response: Some(verb_type_of(v.module, v.response)),
        },
    )
}

/// The schema of a module: its verbs first, in discovery order, then its data declarations.
pub open spec fn module_schema(module: Seq<char>, verbs: Seq<VerbTokenV>, types: Seq<DataV>) -> ModuleV {
    ModuleV {
        name: module,
        decls: verbs.map_values(|v: VerbTokenV| verb_decl_of(v)) + types.map_values(|d: DataV| DeclV::Data(d)),
    }
}

fn verb_type(module: &ModuleIdent, n: &TypeName) -> (r: SchemaType)
    ensures
        r@ == verb_type_of(module.0@, n@),
{
    match n {
        TypeName::Unit => SchemaType::Unit,
        TypeName::Named(x) => match primitive_type(x.as_str()) {
            Some(p) => p,
            None => SchemaType::Ref(TypeRef { module: module.0.clone(), name: x.clone() }),
        },
    }
}

impl VerbToken {
    pub fn to_verb_proto(&self) -> (r: Verb)
        ensures
            DeclV::Verb(r@) == verb_decl_of(self@),
    {
        Verb {
            name: to_lower_camel_case(self.ident.as_str()),
            request: Some(verb_type(&self.module, &self.request)),
            response: Some(verb_type(&self.module, &self.response)),
        }
    }
}

impl Parsed {
    /// The number of distinct modules that the verbs come from.
    pub fn modules_count(&self) -> (r: usize)
        ensures
            r == verbs_view(self.verbs@).map_values(|v: VerbTokenV| v.module).to_set().len(),
    {
        let ghost all = verbs_view(self.verbs@).map_values(|v: VerbTokenV| v.module);
        let mut seen: Vec<String> = Vec::new();
        let mut i: usize = 0;
        while i < self.verbs.len()
            invariant
                i <= self.verbs@.len(),
                all == verbs_view(self.verbs@).map_values(|v: VerbTokenV| v.module),
                names_view(seen@).no_duplicates(),
                names_view(seen@).to_set() == all.take(i as int).to_set(),
            decreases self.verbs@.len() - i,
        {
            let name = &self.verbs[i].module.0;
            let mut found = false;
            let mut j: usize = 0;
            while j < seen.len()
                invariant
                    j <= seen@.len(),
                    found == exists|k: int| 0 <= k < j && seen@[k]@ == name@,
                decreases seen@.len() - j,
            {
                if str_eq(seen[j].as_str(), name.as_str()) {
                    found = true;
                }
                j = j + 1;
            }
            let ghost before = names_view(seen@);
            if !found {
                seen.push(name.clone());
                proof {
                    assert(names_view(seen@) =~= before.push(name@));
                    assert forall|a: int, b: int| 0 <= a < names_view(seen@).len() && 0 <= b < names_view(seen@).len() && a != b
                        implies names_view(seen@)[a] != names_view(seen@)[b] by {
                        if a == before.len() {
                            assert(seen@[b]@ != name@);
                        } else if b == before.len() {
                            assert(seen@[a]@ != name@);
                        }
                    }
                }
            }
            proof {
                let t0 = all.take(i as int);
                let t1 = all.take(i + 1);
                let now = names_view(seen@);
                assert(t1 =~= t0.push(name@));
                assert(all[i as int] == name@);
                assert forall|x: Seq<char>| now.to_set().contains(x) <==> t1.to_set().contains(x) by {
                    if found {
                        let k = choose|k: int| 0 <= k < j && seen@[k]@ == name@;
                        assert(before[k] == name@);
                        assert(now == before);
                    }
                    if x == name@ {
                        assert(t1[i as int] == name@);
                        if !found {
                            assert(now[before.len() as int] == name@);
                        }
                    }
                    if now.to_set().contains(x) && x != name@ {
                        let m = choose|m: int| 0 <= m < now.len() && now[m] == x;
                        assert(before[m] == x);
                        assert(before.to_set().contains(x));
                        assert(t0.to_set().contains(x));
                        let k = choose|k: int| 0 <= k < t0.len() && t0[k] == x;
                        assert(t1[k] == x);
                    }
                    if t1.to_set().contains(x) && x != name@ {
                        let k = choose|k: int| 0 <= k < t1.len() && t1[k] == x;
                        assert(t0[k] == x);
                        assert(t0.to_set().contains(x));
                        assert(before.to_set().contains(x));
                        let m = choose|m: int| 0 <= m < before.len() && before[m] == x;
                        assert(now[m] == x);
                    }
                }
                assert(now.to_set() =~= t1.to_set());
            }
            i = i + 1;
        }
        proof {
            assert(all.take(i as int) =~= all);
            names_view(seen@).unique_seq_to_set();
        }
        seen.len()
    }

    pub fn verb_count(&self) -> (r: usize)
        ensures
            r == self.verbs@.len(),
    {
        self.verbs.len()
    }

    /// Builds the schema of a module: one verb declaration per verb, then one data
    /// declaration per resolved type.
    pub fn generate_module_proto(&self, module: &ModuleIdent) -> (r: SchemaModule)
        ensures
            r@ == module_schema(module.0@, verbs_view(self.verbs@), self.types@.map_values(|d: Data| d@)),
    {
        let ghost target = module_schema(module.0@, verbs_view(self.verbs@), self.types@.map_values(|d: Data| d@)).decls;
        let mut decls: Vec<Decl> = Vec::new();
        let mut i: usize = 0;
        while i < self.verbs.len()
            invariant
                i <= self.verbs@.len(),
                target == module_schema(module.0@, verbs_view(self.verbs@), self.types@.map_values(|d: Data| d@)).decls,
                decls@.map_values(|d: Decl| d@) == target.take(i as int),
            decreases self.verbs@.len() - i,
        {
            let ghost before = decls@;
            let v = self.verbs[i].to_verb_proto();
            decls.push(Decl::Verb(v));
            assert(decls@.map_values(|d: Decl| d@) =~= before.map_values(|d: Decl| d@).push(target[i as int]));
            assert(target.take(i + 1) =~= target.take(i as int).push(target[i as int]));
            i = i + 1;
        }
        let n = self.verbs.len();
        let mut j: usize = 0;
        while j < self.types.len()
            invariant
                j <= self.types@.len(),
                n == self.verbs@.len(),
                target == module_schema(module.0@, verbs_view(self.verbs@), self.types@.map_values(|d: Data| d@)).decls,
                decls@.map_values(|d: Decl| d@) == target.take(n + j),
            decreases self.types@.len() - j,
        {
            let ghost before = decls@;
            decls.push(Decl::Data(self.types[j].copy()));
            assert(decls@.map_values(|d: Decl| d@) =~= before.map_values(|d: Decl| d@).push(target[n + j]));
            assert(target.take(n + j + 1) =~= target.take(n + j).push(target[n + j]));
            j = j + 1;
        }
        assert(target.take(n + j) =~= target);
        SchemaModule { name: module.0.clone(), decls }
    }
}

/// The schema of a single source unit with no module name: its verbs only.
pub fn code_to_module(file: &SourceFile) -> (r: Result<SchemaModule, ParseError>)
    ensures
        match r {
            Ok(m) => extract_spec(""@, file.items@) matches Ok(vs) && m@ == module_schema(""@, vs, seq![]),
            Err(e) => extract_spec(""@, file.items@) == Err::<Seq<VerbTokenV>, _>(e@),
        },
{
    let module = ModuleIdent::new("");
    let verbs = extract_ast_verbs(&module, file)?;
    let parsed = Parsed { verbs, types: Vec::new() };
    proof {
        assert(parsed.types@.map_values(|d: Data| d@) =~= Seq::<DataV>::empty());
    }
    Ok(parsed.generate_module_proto(&module))
}

} // verus!
