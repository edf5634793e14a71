//! The schema data model: modules made of verb and data declarations.
use vstd::prelude::*;

verus! {

/// A reference to a data declaration of some module.
#[derive(Debug, Clone, PartialEq, Eq)]
pub struct TypeRef {
    pub module: String,
    pub name: String,
}

/// The type of a request, a response or a field.
#[derive(Debug, Clone, PartialEq, Eq)]
pub enum SchemaType {
    Int,
    Float,
    Str,
    Bool,
    Time,
    Bytes,
    Any,
    Unit,
    Ref(TypeRef),
}

/// A named field of a data declaration.
#[derive(Debug, Clone, PartialEq, Eq)]
pub struct Field {
    pub name: String,
    pub ty: SchemaType,
}

/// A verb: a named operation with its request and response types.
#[derive(Debug, Clone, PartialEq, Eq)]
pub struct Verb {
    pub name: String,
    pub request: Option<SchemaType>,
    pub response: Option<SchemaType>,
}

/// A data declaration: a named record type with ordered fields.
#[derive(Debug, Clone, PartialEq, Eq)]
pub struct Data {
    pub name: String,
    pub fields: Vec<Field>,
}

/// One declaration of a module.
#[derive(Debug, Clone, PartialEq, Eq)]
pub enum Decl {
    Verb(Verb),
    Data(Data),
}

/// The schema of one module: its name and its declarations in order.
#[derive(Debug, Clone, PartialEq, Eq)]
pub struct Module {
    pub name: String,
    pub decls: Vec<Decl>,
}

pub struct TypeRefV {
    pub module: Seq<char>,
    pub name: Seq<char>,
}

pub enum TypeV {
    Int,
    Float,
    Str,
    Bool,
    Time,
    Bytes,
    Any,
    Unit,
    Ref(TypeRefV),
}

pub struct DataFieldV {
    pub name: Seq<char>,
    pub ty: TypeV,
}

pub struct VerbV {
    pub name: Seq<char>,
    pub request: Option<TypeV>,
    pub response: Option<TypeV>,
}

pub struct DataV {
    pub name: Seq<char>,
    pub fields: Seq<DataFieldV>,
}

pub enum DeclV {
    Verb(VerbV),
    Data(DataV),
}

pub struct ModuleV {
    pub name: Seq<char>,
    pub decls: Seq<DeclV>,
}

impl View for TypeRef {
    type V = TypeRefV;

    open spec fn view(&self) -> TypeRefV {
        TypeRefV { module: self.module@, name: self.name@ }
    }
}

impl View for SchemaType {
    type V = TypeV;

    open spec fn view(&self) -> TypeV {
        match self {
            SchemaType::Int => TypeV::Int,
            SchemaType::Float => TypeV::Float,
            SchemaType::Str => TypeV::Str,
            SchemaType::Bool => TypeV::Bool,
            SchemaType::Time => TypeV::Time,
            SchemaType::Bytes => TypeV::Bytes,
            SchemaType::Any => TypeV::Any,
            SchemaType::Unit => TypeV::Unit,
            SchemaType::Ref(r) => TypeV::Ref(r@),
        }
    }
}

pub open spec fn opt_type_view(t: Option<SchemaType>) -> Option<TypeV> {
    match t {
        Some(x) => Some(x@),
        None => None,
    }
}

impl View for Field {
    type V = DataFieldV;

    open spec fn view(&self) -> DataFieldV {
        DataFieldV { name: self.name@, ty: self.ty@ }
    }
}

impl View for Verb {
    type V = VerbV;

    open spec fn view(&self) -> VerbV {
        VerbV {
            name: self.name@,
            request: opt_type_view(self.request),
            response: opt_type_view(self.response),
        }
    }
}

impl View for Data {
    type V = DataV;

    open spec fn view(&self) -> DataV {
        DataV { name: self.name@, fields: self.fields@.map_values(|f: Field| f@) }
    }
}

impl View for Decl {
    type V = DeclV;

    open spec fn view(&self) -> DeclV {
        match self {
            Decl::Verb(v) => DeclV::Verb(v@),
            Decl::Data(d) => DeclV::Data(d@),
        }
    }
}

impl View for Module {
    type V = ModuleV;

    open spec fn view(&self) -> ModuleV {
        ModuleV { name: self.name@, decls: self.decls@.map_values(|d: Decl| d@) }
    }
}

impl TypeRef {
    pub fn copy(&self) -> (r: TypeRef)
        ensures
            r@ == self@,
    {
        TypeRef { module: self.module.clone(), name: self.name.clone() }
    }
}

impl SchemaType {
    pub fn copy(&self) -> (r: SchemaType)
        ensures
            r@ == self@,
    {
        match self {
            SchemaType::Int => SchemaType::Int,
            SchemaType::Float => SchemaType::Float,
            SchemaType::Str => SchemaType::Str,
            SchemaType::Bool => SchemaType::Bool,
            SchemaType::Time => SchemaType::Time,
            SchemaType::Bytes => SchemaType::Bytes,
            SchemaType::Any => SchemaType::Any,
            SchemaType::Unit => SchemaType::Unit,
            SchemaType::Ref(r) => SchemaType::Ref(r.copy()),
        }
    }
}

impl Field {
    pub fn copy(&self) -> (r: Field)
        ensures
            r@ == self@,
    {
        Field { name: self.name.clone(), ty: self.ty.copy() }
    }
}

impl Data {
    pub fn copy(&self) -> (r: Data)
        ensures
            r@ == self@,
    {
        let mut fields: Vec<Field> = Vec::new();
        let mut i: usize = 0;
        while i < self.fields.len()
            invariant
                i <= self.fields@.len(),
                fields@.map_values(|f: Field| f@) == self.fields@.map_values(|f: Field| f@).take(i as int),
            decreases self.fields@.len() - i,
        {
            let ghost before = fields@;
            fields.push(self.fields[i].copy());
            assert(fields@.map_values(|f: Field| f@) =~= before.map_values(|f: Field| f@).push(self.fields@[i as int]@));
            assert(self.fields@.map_values(|f: Field| f@).take(i + 1) =~= self.fields@.map_values(|f: Field| f@).take(i as int).push(self.fields@[i as int]@));
            i = i + 1;
        }
        assert(self.fields@.map_values(|f: Field| f@).take(i as int) =~= self.fields@.map_values(|f: Field| f@));
        Data { name: self.name.clone(), fields }
    }
}

} // verus!
