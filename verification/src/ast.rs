//! The parts of a Rust item that the derive logic reads: types, generic
//! parameters, and the item a derive is applied to.

use vstd::prelude::*;

verus! {

/// A type: its text, and its shape where the logic looks into it.
#[derive(Debug)]
pub struct TypeModel {
    pub text: String,
    pub kind: TypeKind,
}

/// A path type (`a::b::C<..>`) by its segments, or any other type.
#[derive(Debug)]
pub enum TypeKind {
    Path(Vec<PathSegment>),
    Other,
}

/// One segment of a path: its identifier and its arguments.
#[derive(Debug)]
pub struct PathSegment {
    pub ident: String,
    pub arguments: PathArguments,
}

/// The arguments of a path segment.
#[derive(Debug)]
pub enum PathArguments {
    /// No arguments.
    Absent,
    /// `<...>` arguments.
    AngleBracketed(Vec<GenericArgument>),
    /// `(...) -> ...` arguments.
    Parenthesized,
}

/// One argument between angle brackets: a type, or anything else (a
/// lifetime, a constant, a binding) by its text.
#[derive(Debug)]
pub enum GenericArgument {
    Type(TypeModel),
    Other(String),
}

/// A type as every parser of types builds it: a path type has at least one segment.
pub open spec fn type_wf(ty: TypeModel) -> bool {
    match ty.kind {
        TypeKind::Path(segs) => segs@.len() > 0,
        TypeKind::Other => true,
    }
}

/// One generic parameter: the name it is referred to by (`'a`, `T`, `N`) and
/// the text it is declared with in an impl header (`'a`, `T: Clone`, `const N: usize`).
#[derive(Debug)]
pub struct GenericParam {
    pub name: String,
    pub decl: String,
}

/// The generic parameters of an item, and the predicates of its `where`
/// clause when it has one.
#[derive(Debug)]
pub struct Generics {
    pub params: Vec<GenericParam>,
    pub where_clause: Option<Vec<String>>,
}

/// The body of the item a derive is applied to: the types of a struct's
/// fields, in order, or another kind of item.
#[derive(Debug)]
pub enum Data {
    Struct(Vec<TypeModel>),
    Enum,
    Union,
}

/// The item a derive is applied to.
#[derive(Debug)]
pub struct DeriveInput {
    pub ident: String,
    pub generics: Generics,
    pub data: Data,
}

} // verus!
