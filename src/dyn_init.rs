//! Decisions of the attribute that adds a dynamically dispatchable initializer method next
//! to a trait method returning `impl Trait`.
use crate::syntax::{path_is, path_is_ident, TypeDecl};
use vstd::prelude::*;

verus! {

/// The declared return type of the method.
#[derive(PartialEq, Eq, Structural, Clone, Copy, Debug)]
pub enum ReturnDecl {
    /// No `->` at all.
    Default,
    /// `-> impl Trait`.
    ImplTrait,
    /// Any other type.
    Other,
}

/// The method's receiver: a reference (`&T` or `&mut T`), or another form.
pub enum ReceiverDecl {
    Ref { mutable: bool, elem: TypeDecl },
    Other,
}

/// The raw pointer the receiver is passed as.
#[derive(PartialEq, Eq, Structural, Clone, Copy, Debug)]
pub enum RawReceiver {
    /// `*const ()`, for `&Self`.
    Const,
    /// `*mut ()`, for `&mut Self`.
    Mut,
}

/// Methods the attribute does not handle.
#[derive(PartialEq, Eq, Structural, Clone, Copy, Debug)]
pub enum DynInitError {
    /// The method does not return `impl Trait` (and is not `async`).
    ExpectedImplTrait,
    /// The receiver is not `&Self` or `&mut Self`.
    UnsupportedReceiver,
    /// The method has no receiver.
    MissingReceiver,
}

/// What the dynamic variant is built from.
#[derive(PartialEq, Eq, Structural, Clone, Copy, Debug)]
pub struct DynPlan {
    /// The method is `async`: its output becomes `impl Future<Output = ...>` first.
    pub wrap_future: bool,
    pub receiver: RawReceiver,
}

/// `ty` is the plain type `Self`.
pub open spec fn is_self_ty_spec(ty: TypeDecl) -> bool {
    match ty {
        TypeDecl::Path { qself, path } => !qself && path_is_ident(path, "Self"@),
        TypeDecl::Other => false,
    }
}

/// The plan for a method, or why it is refused.
pub open spec fn dyn_plan_spec(is_async: bool, ret: ReturnDecl, receiver: Option<ReceiverDecl>) -> Result<
    DynPlan,
    DynInitError,
> {
    if !(is_async || ret == ReturnDecl::ImplTrait) {
        Err(DynInitError::ExpectedImplTrait)
    } else {
        match receiver {
            None => Err(DynInitError::MissingReceiver),
            Some(ReceiverDecl::Ref { mutable, elem }) => if is_self_ty_spec(elem) {
                Ok(
                    DynPlan {
                        wrap_future: is_async,
                        receiver: if mutable {
                            RawReceiver::Mut
                        } else {
                            RawReceiver::Const
                        },
                    },
                )
            } else {
                Err(DynInitError::UnsupportedReceiver)
            },
            Some(ReceiverDecl::Other) => Err(DynInitError::UnsupportedReceiver),
        }
    }
}

/// Whether `ty` is the plain type `Self`.
pub fn is_self_ty(ty: &TypeDecl) -> (r: bool)
    ensures
        r == is_self_ty_spec(*ty),
{
    match ty {
        TypeDecl::Path { qself, path } => !*qself && path_is(path, "Self"),
        TypeDecl::Other => false,
    }
}

/// The raw pointer a receiver is passed as.
pub fn map_receiver(r: &ReceiverDecl) -> (res: Result<RawReceiver, DynInitError>)
    ensures
        match *r {
            ReceiverDecl::Ref { mutable, elem } => if is_self_ty_spec(elem) {
                res == Ok::<RawReceiver, DynInitError>(
                    if mutable {
                        RawReceiver::Mut
                    } else {
                        RawReceiver::Const
                    },
                )
            } else {
                res == Err::<RawReceiver, DynInitError>(DynInitError::UnsupportedReceiver)
            },
            ReceiverDecl::Other => res == Err::<RawReceiver, DynInitError>(
                DynInitError::UnsupportedReceiver,
            ),
        },
{
    match r {
        ReceiverDecl::Ref { mutable, elem } => {
            if !is_self_ty(elem) {
                Err(DynInitError::UnsupportedReceiver)
            } else if *mutable {
                Ok(RawReceiver::Mut)
            } else {
                Ok(RawReceiver::Const)
            }
        },
        ReceiverDecl::Other => Err(DynInitError::UnsupportedReceiver),
    }
}

/// Plans the dynamic variant of a method: its output must be `impl Trait` (an `async`
/// method's always is), and its receiver `&Self` or `&mut Self`.
pub fn plan_dyn(is_async: bool, ret: ReturnDecl, receiver: Option<&ReceiverDecl>) -> (r: Result<
    DynPlan,
    DynInitError,
>)
    ensures
        r == dyn_plan_spec(
            is_async,
            ret,
            match receiver {
                Some(x) => Some(*x),
                None => None,
            },
        ),
{
    if !(is_async || ret == ReturnDecl::ImplTrait) {
        return Err(DynInitError::ExpectedImplTrait);
    }
    match receiver {
        None => Err(DynInitError::MissingReceiver),
        Some(recv) => match map_receiver(recv) {
            Ok(raw) => Ok(DynPlan { wrap_future: is_async, receiver: raw }),
            Err(e) => Err(e),
        },
    }
}

} // verus!
