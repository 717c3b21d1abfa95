//! Decisions of the derivation that the all-zero bit pattern is a valid value of a type.
//!
//! Nothing is computed at run time: the derivation emits bounds that the compiler checks. A
//! struct or union is zeroable when every field type is; an enum never is, since a zero
//! discriminant need not name a variant.
use vstd::prelude::*;

verus! {

/// The shape of the item the derivation is applied to.
#[derive(PartialEq, Eq, Structural, Clone, Copy, Debug)]
pub enum DataKind {
    Struct,
    Union,
    Enum,
}

/// A generic parameter of the item.
#[derive(PartialEq, Eq, Structural, Clone, Copy, Debug)]
pub enum GenericParamKind {
    Type,
    Lifetime,
    Const,
}

/// An item to derive for: its kind, its generic parameters and its number of fields.
pub struct DeriveDecl {
    pub data: DataKind,
    pub params: Vec<GenericParamKind>,
    pub n_fields: usize,
}

/// The derivation is refused for enums.
#[derive(PartialEq, Eq, Structural, Clone, Copy, Debug)]
pub enum ZeroableError {
    Enum,
}

/// How the per-field obligation is emitted.
#[derive(PartialEq, Eq, Structural, Clone, Copy, Debug)]
pub enum FieldBound {
    /// A function asserting `FieldType: Zeroable` for every field.
    Asserted,
    /// A `where FieldType: Zeroable` clause on the impl for every field.
    WhereClause,
}

/// What the derivation emits.
pub struct ZeroablePlan {
    /// For each generic parameter: whether it gets a `Zeroable` bound.
    pub param_bounds: Vec<bool>,
    /// Every field type must be `Zeroable`, asserted in this way.
    pub field_bound: FieldBound,
    /// The number of field obligations: one per field.
    pub n_obligations: usize,
}

/// The plan of the plain derivation: every type parameter bounded, every field asserted.
pub open spec fn derive_ok(d: DeriveDecl, p: ZeroablePlan) -> bool {
    &&& p.param_bounds@.len() == d.params@.len()
    &&& forall|i: int|
        0 <= i < d.params@.len() ==> p.param_bounds@[i] == (d.params@[i]
            == GenericParamKind::Type)
    &&& p.field_bound == FieldBound::Asserted
    &&& p.n_obligations == d.n_fields
}

/// The plan of the variant: parameters untouched, a where clause for every field.
pub open spec fn maybe_derive_ok(d: DeriveDecl, p: ZeroablePlan) -> bool {
    &&& p.param_bounds@.len() == d.params@.len()
    &&& forall|i: int| 0 <= i < d.params@.len() ==> !p.param_bounds@[i]
    &&& p.field_bound == FieldBound::WhereClause
    &&& p.n_obligations == d.n_fields
}

/// Derives `Zeroable`: a bound on every type parameter and an assertion on every field type.
pub fn derive(input: &DeriveDecl) -> (r: Result<ZeroablePlan, ZeroableError>)
    ensures
        input.data == DataKind::Enum <==> r is Err,
        r matches Ok(p) ==> derive_ok(*input, p),
        r matches Err(e) ==> e == ZeroableError::Enum,
{
    if input.data == DataKind::Enum {
        return Err(ZeroableError::Enum);
    }
    let mut param_bounds: Vec<bool> = Vec::new();
    let mut i: usize = 0;
    while i < input.params.len()
        invariant
            i <= input.params@.len(),
            param_bounds@.len() == i,
            forall|k: int|
                0 <= k < i ==> param_bounds@[k] == (input.params@[k] == GenericParamKind::Type),
        decreases input.params@.len() - i,
    {
        param_bounds.push(input.params[i] == GenericParamKind::Type);
        i = i + 1;
    }
    Ok(ZeroablePlan { param_bounds, field_bound: FieldBound::Asserted, n_obligations: input.n_fields })
}

/// Derives `Zeroable` only where every field type is `Zeroable`, leaving the parameters'
/// bounds as they are.
pub fn maybe_derive(input: &DeriveDecl) -> (r: Result<ZeroablePlan, ZeroableError>)
    ensures
        input.data == DataKind::Enum <==> r is Err,
        r matches Ok(p) ==> maybe_derive_ok(*input, p),
        r matches Err(e) ==> e == ZeroableError::Enum,
{
    if input.data == DataKind::Enum {
        return Err(ZeroableError::Enum);
    }
    let mut param_bounds: Vec<bool> = Vec::new();
    let mut i: usize = 0;
    while i < input.params.len()
        invariant
            i <= input.params@.len(),
            param_bounds@.len() == i,
            forall|k: int| 0 <= k < i ==> !param_bounds@[k],
        decreases input.params@.len() - i,
    {
        param_bounds.push(false);
        i = i + 1;
    }
    Ok(
        ZeroablePlan {
            param_bounds,
            field_bound: FieldBound::WhereClause,
            n_obligations: input.n_fields,
        },
    )
}

/// The all-zero bit pattern of a struct or union is valid when it is valid for every field:
/// its bytes are the fields' bytes, and padding may hold anything.
pub open spec fn zeroed_valid(data: DataKind, field_zero_valid: Seq<bool>) -> bool {
    data != DataKind::Enum && forall|i: int|
        0 <= i < field_zero_valid.len() ==> #[trigger] field_zero_valid[i]
}

/// Where either derivation succeeded and the compiler accepted the bound it put on every
/// field type, a buffer of zero bytes is a valid value of the type. Applied to a field whose
/// own type was derived, this carries through nested types. Enums are never derived.
pub proof fn derived_zeroable_is_sound(
    input: DeriveDecl,
    plan: ZeroablePlan,
    field_zero_valid: Seq<bool>,
)
    requires
        input.data != DataKind::Enum,
        derive_ok(input, plan) || maybe_derive_ok(input, plan),
        field_zero_valid.len() == input.n_fields,
        forall|i: int| 0 <= i < plan.n_obligations ==> #[trigger] field_zero_valid[i],
    ensures
        zeroed_valid(input.data, field_zero_valid),
{
}

/// No derivation, plain or variant, accepts an enum.
pub proof fn enum_never_zeroable(data: DataKind, field_zero_valid: Seq<bool>)
    requires
        data == DataKind::Enum,
    ensures
        !zeroed_valid(data, field_zero_valid),
{
}

} // verus!
