//! Decisions of the pin-metadata generator: which fields are structurally pinned, how each
//! field is projected and initialized, which attributes are carried over, which fields get a
//! diagnostic, and which destructor guard is emitted.
use crate::member::Member;
use crate::syntax::{
    path_is, path_is_ident, FieldDecl, ItemDecl, ItemKind, PathDecl, PathSeg, TypeDecl,
};
use crate::token::str_eq;
use vstd::prelude::*;

verus! {

/// The argument of the generator: nothing, or `PinnedDrop`.
#[derive(PartialEq, Eq, Structural, Clone, Copy, Debug)]
pub enum PinDataArgs {
    Nothing,
    PinnedDrop,
}

/// Items the generator does not handle; it then emits a diagnostic and the item unchanged.
#[derive(PartialEq, Eq, Structural, Clone, Copy, Debug)]
pub enum PinDataError {
    /// Enums and unions are not supported yet.
    OnlyStructs,
    /// Not a struct, enum or union definition.
    NotAType,
}

/// How a projection or a field accessor hands out a field.
#[derive(PartialEq, Eq, Structural, Clone, Copy, Debug)]
pub enum RefKind {
    /// `Pin<&mut T>`.
    Pinned,
    /// `&mut T`.
    Plain,
}

/// Which initializer trait a field's initializing function takes.
#[derive(PartialEq, Eq, Structural, Clone, Copy, Debug)]
pub enum InitKind {
    /// `PinInit`, driven by `__pinned_init`.
    PinInit,
    /// `Init`, driven by `__init`.
    Init,
}

/// What is generated for one field.
pub struct FieldPlan {
    pub member: Member,
    /// The field is structurally pinned.
    pub pinned: bool,
    /// For each attribute: carried over to the projection and the accessors.
    pub kept_attrs: Vec<bool>,
    /// For each attribute: left on the struct itself (all but `#[pin]`).
    pub struct_attrs: Vec<bool>,
    /// A `PhantomPinned` field without `#[pin]`: it gets a diagnostic.
    pub useless_phantom: bool,
}

/// Everything the generator emits, by field, in declaration order.
pub struct PinDataPlan {
    pub fields: Vec<FieldPlan>,
    /// The structurally pinned fields, in order: the only ones that decide whether the
    /// struct may be `Unpin`.
    pub unpin_fields: Vec<usize>,
    /// A `Drop` impl that delegates to `PinnedDrop` (else: guards against any `Drop` impl).
    pub pinned_drop: bool,
}

/// The field carries `#[pin]`.
pub open spec fn has_pin_attr(f: FieldDecl) -> bool {
    exists|j: int| 0 <= j < f.attrs@.len() && path_is_ident(#[trigger] f.attrs@[j], "pin"@)
}

/// An attribute carried over to generated items: `doc` and `cfg`.
pub open spec fn keep_attr_spec(p: PathDecl) -> bool {
    !path_is_ident(p, "pin"@) && (path_is_ident(p, "doc"@) || path_is_ident(p, "cfg"@))
}

/// Segment `k` counted from the end of a path naming `PhantomPinned`.
pub open spec fn phantom_seg_ok(seg: PathSeg, k: int) -> bool {
    &&& !seg.has_args
    &&& if k == 0 {
        seg.ident@ == "PhantomPinned"@
    } else if k == 1 {
        seg.ident@ == "marker"@
    } else {
        seg.ident@ == "core"@ || seg.ident@ == "std"@
    }
}

/// Segment `k` counted from the end.
pub open spec fn seg_from_end(segs: Seq<PathSeg>, k: int) -> PathSeg {
    segs[segs.len() - 1 - k]
}

/// The type is spelled as `PhantomPinned`, `marker::PhantomPinned` or
/// `[::]core|std::marker::PhantomPinned`.
pub open spec fn is_phantom_pinned_spec(ty: TypeDecl) -> bool {
    match ty {
        TypeDecl::Path { qself, path } => {
            let segs = path.segments@;
            &&& !qself
            &&& segs.len() <= 3
            &&& path.leading_colon ==> segs.len() == 3
            &&& forall|k: int|
                0 <= k < segs.len() ==> phantom_seg_ok(#[trigger] seg_from_end(segs, k), k)
        },
        TypeDecl::Other => false,
    }
}

/// The key of the field at position `idx`.
pub open spec fn member_at(idx: usize, ident: Option<String>) -> Member {
    match ident {
        Some(name) => Member::Named(name),
        None => Member::Unnamed(idx),
    }
}

/// How the projection hands out a field.
pub open spec fn ref_kind_spec(pinned: bool) -> RefKind {
    if pinned {
        RefKind::Pinned
    } else {
        RefKind::Plain
    }
}

/// Which initializer a field takes.
pub open spec fn init_kind_spec(pinned: bool) -> InitKind {
    if pinned {
        InitKind::PinInit
    } else {
        InitKind::Init
    }
}

/// The plan for field `i` is the one its declaration calls for.
pub open spec fn field_plan_ok(i: usize, f: FieldDecl, p: FieldPlan) -> bool {
    &&& p.member == member_at(i, f.ident)
    &&& p.pinned == has_pin_attr(f)
    &&& p.kept_attrs@.len() == f.attrs@.len()
    &&& p.struct_attrs@.len() == f.attrs@.len()
    &&& forall|j: int|
        0 <= j < f.attrs@.len() ==> p.kept_attrs@[j] == keep_attr_spec(#[trigger] f.attrs@[j])
    &&& forall|j: int|
        0 <= j < f.attrs@.len() ==> p.struct_attrs@[j] == !path_is_ident(
            #[trigger] f.attrs@[j],
            "pin"@,
        )
    &&& p.useless_phantom == (!has_pin_attr(f) && is_phantom_pinned_spec(f.ty))
}

/// Indices of the fields among the first `n` that carry `#[pin]`, in order.
pub open spec fn pinned_indices(fields: Seq<FieldDecl>, n: int) -> Seq<usize>
    decreases n,
{
    if n <= 0 {
        Seq::empty()
    } else if has_pin_attr(fields[n - 1]) {
        pinned_indices(fields, n - 1).push((n - 1) as usize)
    } else {
        pinned_indices(fields, n - 1)
    }
}

/// The plan is the one the struct declaration and the arguments call for.
pub open spec fn plan_ok(args: PinDataArgs, input: ItemDecl, plan: PinDataPlan) -> bool {
    &&& plan.pinned_drop == (args == PinDataArgs::PinnedDrop)
    &&& plan.fields@.len() == input.fields@.len()
    &&& plan.unpin_fields@ == pinned_indices(input.fields@, input.fields@.len() as int)
    &&& forall|i: int|
        0 <= i < input.fields@.len() ==> field_plan_ok(
            i as usize,
            #[trigger] input.fields@[i],
            plan.fields@[i],
        )
}

/// Whether the type names `PhantomPinned` (a heuristic on how it is spelled).
pub fn is_phantom_pinned(ty: &TypeDecl) -> (r: bool)
    ensures
        r == is_phantom_pinned_spec(*ty),
{
    match ty {
        TypeDecl::Path { qself, path } => {
            if *qself {
                return false;
            }
            let n = path.segments.len();
            if n > 3 {
                return false;
            }
            if path.leading_colon && n != 3 {
                return false;
            }
            let mut k: usize = 0;
            while k < n
                invariant
                    *ty == (TypeDecl::Path { qself: false, path: *path }),
                    path.leading_colon ==> n == 3,
                    n == path.segments@.len(),
                    n <= 3,
                    k <= n,
                    forall|kk: int|
                        0 <= kk < k ==> phantom_seg_ok(
                            #[trigger] seg_from_end(path.segments@, kk),
                            kk,
                        ),
                decreases n - k,
            {
                let seg = &path.segments[n - 1 - k];
                assert(seg_from_end(path.segments@, k as int) == *seg);
                if seg.has_args {
                    return false;
                }
                let name = seg.ident.as_str();
                let ok = if k == 0 {
                    str_eq(name, "PhantomPinned")
                } else if k == 1 {
                    str_eq(name, "marker")
                } else {
                    str_eq(name, "core") || str_eq(name, "std")
                };
                if !ok {
                    return false;
                }
                k = k + 1;
            }
            true
        },
        TypeDecl::Other => false,
    }
}

/// Whether the field carries `#[pin]`.
pub fn is_field_structurally_pinned(f: &FieldDecl) -> (r: bool)
    ensures
        r == has_pin_attr(*f),
{
    let mut j: usize = 0;
    while j < f.attrs.len()
        invariant
            j <= f.attrs@.len(),
            forall|jj: int| 0 <= jj < j ==> !path_is_ident(#[trigger] f.attrs@[jj], "pin"@),
        decreases f.attrs@.len() - j,
    {
        if path_is(&f.attrs[j], "pin") {
            return true;
        }
        j = j + 1;
    }
    false
}

/// Whether an attribute is carried over to the generated items.
pub fn keep_attr(p: &PathDecl) -> (r: bool)
    ensures
        r == keep_attr_spec(*p),
{
    if path_is(p, "pin") {
        return false;
    }
    path_is(p, "doc") || path_is(p, "cfg")
}

/// How the projection and the field accessor hand out this field.
pub fn projection_kind(p: &FieldPlan) -> (r: RefKind)
    ensures
        r == ref_kind_spec(p.pinned),
{
    if p.pinned {
        RefKind::Pinned
    } else {
        RefKind::Plain
    }
}

/// Which initializer the field's initializing function takes.
pub fn initializer_kind(p: &FieldPlan) -> (r: InitKind)
    ensures
        r == init_kind_spec(p.pinned),
{
    if p.pinned {
        InitKind::PinInit
    } else {
        InitKind::Init
    }
}

fn plan_field(i: usize, f: &FieldDecl) -> (r: FieldPlan)
    ensures
        field_plan_ok(i, *f, r),
{
    let pinned = is_field_structurally_pinned(f);
    let mut kept_attrs: Vec<bool> = Vec::new();
    let mut struct_attrs: Vec<bool> = Vec::new();
    let mut j: usize = 0;
    while j < f.attrs.len()
        invariant
            j <= f.attrs@.len(),
            kept_attrs@.len() == j,
            struct_attrs@.len() == j,
            forall|jj: int|
                0 <= jj < j ==> kept_attrs@[jj] == keep_attr_spec(#[trigger] f.attrs@[jj]),
            forall|jj: int|
                0 <= jj < j ==> struct_attrs@[jj] == !path_is_ident(
                    #[trigger] f.attrs@[jj],
                    "pin"@,
                ),
        decreases f.attrs@.len() - j,
    {
        kept_attrs.push(keep_attr(&f.attrs[j]));
        struct_attrs.push(!path_is(&f.attrs[j], "pin"));
        j = j + 1;
    }
    let useless_phantom = !pinned && is_phantom_pinned(&f.ty);
    FieldPlan {
        member: Member::new(i, f.ident.as_ref()),
        pinned,
        kept_attrs,
        struct_attrs,
        useless_phantom,
    }
}

/// Plans the pin metadata of a struct: per field its key, pin classification, carried-over
/// attributes and diagnostic, and the destructor guard. Enums, unions and other items are
/// rejected.
pub fn pin_data(args: PinDataArgs, input: &ItemDecl) -> (r: Result<PinDataPlan, PinDataError>)
    ensures
        match input.kind {
            ItemKind::Struct => r matches Ok(plan) && plan_ok(args, *input, plan),
            ItemKind::Enum | ItemKind::Union => r == Err::<PinDataPlan, PinDataError>(
                PinDataError::OnlyStructs,
            ),
            ItemKind::Other => r == Err::<PinDataPlan, PinDataError>(PinDataError::NotAType),
        },
{
    match input.kind {
        ItemKind::Struct => {},
        ItemKind::Enum | ItemKind::Union => {
            return Err(PinDataError::OnlyStructs);
        },
        ItemKind::Other => {
            return Err(PinDataError::NotAType);
        },
    }
    let mut fields: Vec<FieldPlan> = Vec::new();
    let mut unpin_fields: Vec<usize> = Vec::new();
    let mut i: usize = 0;
    while i < input.fields.len()
        invariant
            i <= input.fields@.len(),
            fields@.len() == i,
            unpin_fields@ == pinned_indices(input.fields@, i as int),
            forall|k: int|
                0 <= k < i ==> field_plan_ok(k as usize, #[trigger] input.fields@[k], fields@[k]),
        decreases input.fields@.len() - i,
    {
        let p = plan_field(i, &input.fields[i]);
        if p.pinned {
            unpin_fields.push(i);
        }
        fields.push(p);
        i = i + 1;
    }
    Ok(PinDataPlan { fields, unpin_fields, pinned_drop: args == PinDataArgs::PinnedDrop })
}

proof fn lemma_pinned_indices(fields: Seq<FieldDecl>, n: int, i: usize)
    requires
        0 <= n <= fields.len(),
        fields.len() <= usize::MAX,
    ensures
        pinned_indices(fields, n).contains(i) <==> (i < n && has_pin_attr(fields[i as int])),
    decreases n,
{
    if n > 0 {
        lemma_pinned_indices(fields, n - 1, i);
        let prev = pinned_indices(fields, n - 1);
        let cur = pinned_indices(fields, n);
        if prev.contains(i) {
            let j = choose|j: int| 0 <= j < prev.len() && prev[j] == i;
            assert(cur[j] == i);
        }
        if has_pin_attr(fields[n - 1]) {
            assert(cur == prev.push((n - 1) as usize));
        } else {
            assert(cur == prev);
        }
        if cur.contains(i) {
            let j = choose|j: int| 0 <= j < cur.len() && cur[j] == i;
            if j < prev.len() {
                assert(prev[j] == i);
            } else {
                assert(has_pin_attr(fields[n - 1]));
                assert(i == (n - 1) as usize);
            }
        }
        if i == n - 1 && has_pin_attr(fields[i as int]) {
            assert(cur[cur.len() - 1] == i);
        }
    }
}

/// In a plan made for a struct, exactly the fields that carry `#[pin]` are structurally
/// pinned: they are projected to a pinned reference and initialized through `PinInit`; every
/// other field is projected to an ordinary exclusive reference and initialized through `Init`.
/// The fields that decide whether the struct may be `Unpin` are exactly the pinned ones.
pub proof fn projection_follows_pin_markers(args: PinDataArgs, input: ItemDecl, plan: PinDataPlan)
    requires
        plan_ok(args, input, plan),
    ensures
        forall|i: int|
            0 <= i < input.fields@.len() ==> {
                &&& (ref_kind_spec(#[trigger] plan.fields@[i].pinned) == RefKind::Pinned
                    <==> has_pin_attr(input.fields@[i]))
                &&& (ref_kind_spec(plan.fields@[i].pinned) == RefKind::Plain <==> !has_pin_attr(
                    input.fields@[i],
                ))
                &&& (init_kind_spec(plan.fields@[i].pinned) == InitKind::PinInit
                    <==> has_pin_attr(input.fields@[i]))
            },
        Set::new(|i: int| 0 <= i < plan.fields@.len() && plan.fields@[i].pinned) == Set::new(
            |i: int| 0 <= i < input.fields@.len() && has_pin_attr(input.fields@[i]),
        ),
        forall|i: usize|
            #![trigger plan.unpin_fields@.contains(i)]
            plan.unpin_fields@.contains(i) <==> (i < input.fields@.len() && has_pin_attr(
                input.fields@[i as int],
            )),
{
    assert forall|i: usize| #![trigger plan.unpin_fields@.contains(i)]
        plan.unpin_fields@.contains(i) <==> (i < input.fields@.len() && has_pin_attr(
            input.fields@[i as int],
        )) by {
        assert(input.fields.len() == input.fields@.len());
        lemma_pinned_indices(input.fields@, input.fields@.len() as int, i);
    }
    assert forall|i: int| 0 <= i < input.fields@.len() implies plan.fields@[i].pinned
        == has_pin_attr(input.fields@[i]) by {
        assert(field_plan_ok(i as usize, input.fields@[i], plan.fields@[i]));
    }
    assert(Set::new(|i: int| 0 <= i < plan.fields@.len() && plan.fields@[i].pinned) =~= Set::new(
        |i: int| 0 <= i < input.fields@.len() && has_pin_attr(input.fields@[i]),
    ));
}

} // verus!
