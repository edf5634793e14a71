//! The declarations of a module's source that the schema compiler reads.
use vstd::prelude::*;

verus! {

/// A type as written in source.
#[derive(Debug, PartialEq)]
pub enum TypeExpr {
    /// A path such as `Request`, `ftl::Context` or `Result<T, E>`.
    Path(TypePath),
    /// A reference `&T` or `&mut T`.
    Reference(Box<TypeExpr>),
    /// A tuple; the unit type is the empty tuple.
    Tuple(Vec<TypeExpr>),
    /// Any other form of type (a closure, a slice, an array, ...).
    Other,
}

/// The segments of a path type, and the generic arguments of its last segment.
#[derive(Debug, PartialEq)]
pub struct TypePath {
    pub segments: Vec<String>,
    pub args: Vec<TypeExpr>,
}

/// A parameter of a function.
#[derive(Debug, PartialEq)]
pub enum Param {
    /// `self`, `&self` or `&mut self`.
    Receiver,
    /// A pattern with a declared type.
    Typed(TypeExpr),
}

/// A function declared at the top level of a source unit.
#[derive(Debug, PartialEq)]
pub struct FnItem {
    pub name: String,
    /// The path of each attribute, as segments (`#[ftl::verb]` is `["ftl", "verb"]`).
    pub attrs: Vec<Vec<String>>,
    pub params: Vec<Param>,
    /// The declared return type; `None` when the function returns nothing.
    pub output: Option<TypeExpr>,
}

/// A field of a struct; tuple structs have unnamed fields.
#[derive(Debug, PartialEq)]
pub struct StructField {
    pub name: Option<String>,
    pub ty: TypeExpr,
}

/// A struct declared at the top level of a source unit.
#[derive(Debug, PartialEq)]
pub struct StructItem {
    pub name: String,
    /// The names of its type parameters.
    pub generics: Vec<String>,
    pub fields: Vec<StructField>,
}

/// A top-level declaration of a source unit.
#[derive(Debug, PartialEq)]
pub enum Item {
    Fn(FnItem),
    Struct(StructItem),
    Other,
}

/// One source unit: its top-level declarations in order.
#[derive(Debug, PartialEq)]
pub struct SourceFile {
    pub items: Vec<Item>,
}

} // verus!
