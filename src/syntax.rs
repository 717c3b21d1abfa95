//! A plain model of the declarations the derive-style macros read: paths, types, fields and
//! items, holding only what the generators decide on.
use crate::token::str_eq;
use vstd::prelude::*;

verus! {

/// One path segment: its identifier and whether it carries generic arguments.
pub struct PathSeg {
    pub ident: String,
    pub has_args: bool,
}

/// A path such as `::core::marker::PhantomPinned`.
pub struct PathDecl {
    pub leading_colon: bool,
    pub segments: Vec<PathSeg>,
}

/// A field type: a path (possibly qualified, `<T as Trait>::X`) or any other type.
pub enum TypeDecl {
    Path { qself: bool, path: PathDecl },
    Other,
}

/// A field: its name (absent in tuple structs), its type, and the paths of its attributes.
pub struct FieldDecl {
    pub ident: Option<String>,
    pub ty: TypeDecl,
    pub attrs: Vec<PathDecl>,
}

/// What kind of item a macro was applied to.
#[derive(PartialEq, Eq, Structural, Clone, Copy, Debug)]
pub enum ItemKind {
    Struct,
    Enum,
    Union,
    Other,
}

/// An item with its fields (empty unless it is a struct or union).
pub struct ItemDecl {
    pub kind: ItemKind,
    pub fields: Vec<FieldDecl>,
}

/// `p` is the single identifier `name`, without `::` or arguments.
pub open spec fn path_is_ident(p: PathDecl, name: Seq<char>) -> bool {
    &&& !p.leading_colon
    &&& p.segments@.len() == 1
    &&& !p.segments@[0].has_args
    &&& p.segments@[0].ident@ == name
}

/// Whether `p` is the single identifier `name`.
pub fn path_is(p: &PathDecl, name: &str) -> (r: bool)
    ensures
        r == path_is_ident(*p, name@),
{
    !p.leading_colon && p.segments.len() == 1 && !p.segments[0].has_args && str_eq(
        p.segments[0].ident.as_str(),
        name,
    )
}

} // verus!
