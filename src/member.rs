//! The key of a struct field: its name, or its position in a tuple struct.
use vstd::prelude::*;

verus! {

/// A field key.
#[derive(Debug)]
pub enum Member {
    Named(String),
    Unnamed(usize),
}

impl Member {
    /// The key of the field at position `idx`, named `ident` if it has a name.
    pub fn new(idx: usize, ident: Option<&String>) -> (r: Self)
        ensures
            r == member_of(idx, ident),
    {
        match ident {
            Some(name) => Member::Named(name.clone()),
            None => Member::Unnamed(idx),
        }
    }
}

impl From<usize> for Member {
    fn from(value: usize) -> (r: Self)
        ensures
            r == Member::Unnamed(value),
    {
        Member::Unnamed(value)
    }
}

impl vstd::std_specs::convert::FromSpecImpl<usize> for Member {
    open spec fn obeys_from_spec() -> bool {
        true
    }

    open spec fn from_spec(v: usize) -> Member {
        Member::Unnamed(v)
    }
}

/// The key of the field at position `idx` with optional name `ident`.
pub open spec fn member_of(idx: usize, ident: Option<&String>) -> Member {
    match ident {
        Some(name) => Member::Named(*name),
        None => Member::Unnamed(idx),
    }
}

} // verus!
