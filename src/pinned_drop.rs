//! Checks of a `#[pinned_drop]` impl block, and where the capability token is added.
use crate::syntax::{PathDecl, PathSeg};
use crate::token::str_eq;
use vstd::prelude::*;

verus! {

/// The trait part of `impl [!]Path for Type`.
pub struct TraitRef {
    pub negative: bool,
    pub path: PathDecl,
}

/// An impl block: whether it is `unsafe`, its trait (absent for an inherent impl), and for
/// each item the name of the function it declares, if it is one.
pub struct ImplDecl {
    pub is_unsafe: bool,
    pub trait_: Option<TraitRef>,
    pub fn_names: Vec<Option<String>>,
}

/// A misuse reported at the token it concerns.
#[derive(PartialEq, Eq, Structural, Clone, Copy, Debug)]
pub enum PinnedDropDiag {
    /// `unsafe impl`: implementing `PinnedDrop` is safe.
    UnsafeImpl,
    /// `impl !PinnedDrop`.
    NegativeImpl,
    /// The path segment at this index does not belong to `pin_init::PinnedDrop`.
    BadPath(usize),
    /// The path segment at this index carries generic arguments.
    UnexpectedArgs(usize),
    /// An inherent impl where `impl PinnedDrop for ...` was expected.
    InherentImpl,
}

/// The diagnostics, and for each item whether it is the `drop` function that gets the
/// `OnlyCallFromDrop` token as an extra parameter.
pub struct PinnedDropPlan {
    pub errors: Vec<PinnedDropDiag>,
    pub token_param: Vec<bool>,
}

/// The name expected for the segment `k` places from the end of the trait path.
pub open spec fn expected_seg(k: int) -> Seq<char> {
    if k == 0 {
        "PinnedDrop"@
    } else {
        "pin_init"@
    }
}

/// The diagnostics of the trait path's last three segments, from the last one backwards.
pub open spec fn path_diags(segs: Seq<PathSeg>, k: nat) -> Seq<PinnedDropDiag>
    decreases segs.len() - k,
{
    if k >= 3 || k >= segs.len() {
        Seq::empty()
    } else {
        let idx = (segs.len() - 1 - k) as usize;
        let seg = segs[segs.len() - 1 - k];
        let bad: Seq<PinnedDropDiag> = if k == 2 || seg.ident@ != expected_seg(k as int) {
            seq![PinnedDropDiag::BadPath(idx)]
        } else {
            Seq::empty()
        };
        let args: Seq<PinnedDropDiag> = if seg.has_args {
            seq![PinnedDropDiag::UnexpectedArgs(idx)]
        } else {
            Seq::empty()
        };
        bad + args + path_diags(segs, k + 1)
    }
}

/// All diagnostics of an impl block, in the order they are reported.
pub open spec fn drop_diags(d: ImplDecl) -> Seq<PinnedDropDiag> {
    let unsafety: Seq<PinnedDropDiag> = if d.is_unsafe {
        seq![PinnedDropDiag::UnsafeImpl]
    } else {
        Seq::empty()
    };
    unsafety + match d.trait_ {
        Some(t) => {
            let neg: Seq<PinnedDropDiag> = if t.negative {
                seq![PinnedDropDiag::NegativeImpl]
            } else {
                Seq::empty()
            };
            neg + path_diags(t.path.segments@, 0)
        },
        None => seq![PinnedDropDiag::InherentImpl],
    }
}

/// The item is a function named `drop`.
pub open spec fn is_drop_fn(name: Option<String>) -> bool {
    match name {
        Some(n) => n@ == "drop"@,
        None => false,
    }
}

/// Checks a `PinnedDrop` impl block and marks the `drop` functions that take the token.
pub fn pinned_drop(input: &ImplDecl) -> (r: PinnedDropPlan)
    ensures
        r.errors@ == drop_diags(*input),
        r.token_param@.len() == input.fn_names@.len(),
        forall|i: int|
            0 <= i < input.fn_names@.len() ==> r.token_param@[i] == is_drop_fn(
                #[trigger] input.fn_names@[i],
            ),
{
    let mut errors: Vec<PinnedDropDiag> = Vec::new();
    if input.is_unsafe {
        errors.push(PinnedDropDiag::UnsafeImpl);
    }
    let ghost head = errors@;
    match &input.trait_ {
        Some(t) => {
            if t.negative {
                errors.push(PinnedDropDiag::NegativeImpl);
            }
            let ghost before = errors@;
            let segs = &t.path.segments;
            let n = segs.len();
            let mut k: usize = 0;
            while k < 3 && k < n
                invariant
                    n == segs@.len(),
                    k <= n,
                    k <= 3,
                    errors@ + path_diags(segs@, k as nat) == before + path_diags(segs@, 0),
                decreases n - k,
            {
                let ghost cur = errors@;
                let idx = n - 1 - k;
                let seg = &segs[idx];
                let expected = if k == 0 {
                    "PinnedDrop"
                } else {
                    "pin_init"
                };
                if k == 2 || !str_eq(seg.ident.as_str(), expected) {
                    errors.push(PinnedDropDiag::BadPath(idx));
                }
                if seg.has_args {
                    errors.push(PinnedDropDiag::UnexpectedArgs(idx));
                }
                proof {
                    let rest = path_diags(segs@, (k + 1) as nat);
                    assert(errors@ + rest =~= cur + path_diags(segs@, k as nat));
                }
                k = k + 1;
            }
            assert(errors@ =~= errors@ + path_diags(segs@, k as nat));
        },
        None => {
            errors.push(PinnedDropDiag::InherentImpl);
        },
    }
    proof {
        assert(errors@ =~= drop_diags(*input));
    }
    let mut token_param: Vec<bool> = Vec::new();
    let mut i: usize = 0;
    while i < input.fn_names.len()
        invariant
            i <= input.fn_names@.len(),
            token_param@.len() == i,
            forall|k: int|
                0 <= k < i ==> token_param@[k] == is_drop_fn(#[trigger] input.fn_names@[k]),
        decreases input.fn_names@.len() - i,
    {
        let is_drop = match &input.fn_names[i] {
            Some(name) => str_eq(name.as_str(), "drop"),
            None => false,
        };
        token_param.push(is_drop);
        i = i + 1;
    }
    PinnedDropPlan { errors, token_param }
}

} // verus!
