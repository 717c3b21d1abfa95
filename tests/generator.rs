use pin_init::internal::init_from_result;
use pin_init::literal::{run_literal, Step};
use pin_init::member::Member;
use pin_init::pin_data::{
    initializer_kind, is_phantom_pinned, keep_attr, pin_data, projection_kind, InitKind,
    PinDataArgs, PinDataError, RefKind,
};
use pin_init::pinned_drop::{pinned_drop, ImplDecl, PinnedDropDiag, TraitRef};
use pin_init::syntax::{FieldDecl, ItemDecl, ItemKind, PathDecl, PathSeg, TypeDecl};
use pin_init::zeroable::{
    maybe_derive, DataKind, DeriveDecl, FieldBound, GenericParamKind, ZeroableError,
};

fn path(segs: &[&str]) -> PathDecl {
    PathDecl {
        leading_colon: false,
        segments: segs
            .iter()
            .map(|s| PathSeg { ident: s.to_string(), has_args: false })
            .collect(),
    }
}

fn ty(segs: &[&str]) -> TypeDecl {
    TypeDecl::Path { qself: false, path: path(segs) }
}

fn field(name: Option<&str>, t: TypeDecl, attrs: &[&str]) -> FieldDecl {
    FieldDecl {
        ident: name.map(|s| s.to_string()),
        ty: t,
        attrs: attrs.iter().map(|a| path(&[a])).collect(),
    }
}

fn strukt(fields: Vec<FieldDecl>) -> ItemDecl {
    ItemDecl { kind: ItemKind::Struct, fields }
}

#[test]
fn multiple_attributes() {
    let item = strukt(vec![field(Some("member"), ty(&["i8"]), &["pin", "dummy_attr", "cfg"])]);
    let plan = pin_data(PinDataArgs::Nothing, &item).unwrap();
    let f = &plan.fields[0];
    assert!(f.pinned);
    assert_eq!(plan.unpin_fields, vec![0]);
    assert_eq!(f.kept_attrs, vec![false, false, true]);
    assert_eq!(f.struct_attrs, vec![false, true, true]);
    assert!(!f.useless_phantom);
    assert!(!plan.pinned_drop);
}

#[test]
fn pinned_fields_are_exactly_the_marked_ones() {
    let item = strukt(vec![
        field(Some("present"), ty(&["bool"]), &[]),
        field(Some("value"), ty(&["MaybeUninit"]), &["doc", "pin"]),
        field(Some("_pin"), ty(&["PhantomPinned"]), &["pin"]),
    ]);
    let plan = pin_data(PinDataArgs::PinnedDrop, &item).unwrap();
    let pinned: Vec<bool> = plan.fields.iter().map(|f| f.pinned).collect();
    assert_eq!(pinned, vec![false, true, true]);
    assert_eq!(plan.unpin_fields, vec![1, 2]);
    assert_eq!(projection_kind(&plan.fields[0]), RefKind::Plain);
    assert_eq!(projection_kind(&plan.fields[1]), RefKind::Pinned);
    assert_eq!(initializer_kind(&plan.fields[0]), InitKind::Init);
    assert_eq!(initializer_kind(&plan.fields[2]), InitKind::PinInit);
    assert_eq!(plan.fields[1].kept_attrs, vec![true, false]);
    assert!(plan.pinned_drop);
    assert!(plan.fields.iter().all(|f| !f.useless_phantom));
}

#[test]
fn phantom_pinned_without_pin_is_flagged() {
    let item = strukt(vec![field(Some("_pin"), ty(&["core", "marker", "PhantomPinned"]), &[])]);
    let plan = pin_data(PinDataArgs::Nothing, &item).unwrap();
    assert!(plan.fields[0].useless_phantom);
    assert!(!plan.fields[0].pinned);
    assert!(plan.unpin_fields.is_empty());
}

#[test]
fn phantom_pinned_spellings() {
    assert!(is_phantom_pinned(&ty(&["PhantomPinned"])));
    assert!(is_phantom_pinned(&ty(&["marker", "PhantomPinned"])));
    assert!(is_phantom_pinned(&ty(&["std", "marker", "PhantomPinned"])));
    assert!(!is_phantom_pinned(&ty(&["alloc", "marker", "PhantomPinned"])));
    assert!(!is_phantom_pinned(&ty(&["a", "core", "marker", "PhantomPinned"])));
    assert!(!is_phantom_pinned(&ty(&["PhantomData"])));
    assert!(!is_phantom_pinned(&TypeDecl::Other));
    let rooted = TypeDecl::Path {
        qself: false,
        path: PathDecl { leading_colon: true, segments: path(&["marker", "PhantomPinned"]).segments },
    };
    assert!(!is_phantom_pinned(&rooted));
    let with_args = TypeDecl::Path {
        qself: false,
        path: PathDecl {
            leading_colon: false,
            segments: vec![PathSeg { ident: "PhantomPinned".to_string(), has_args: true }],
        },
    };
    assert!(!is_phantom_pinned(&with_args));
}

#[test]
fn kept_attributes() {
    assert!(keep_attr(&path(&["doc"])));
    assert!(keep_attr(&path(&["cfg"])));
    assert!(!keep_attr(&path(&["pin"])));
    assert!(!keep_attr(&path(&["allow"])));
    assert!(!keep_attr(&path(&["core", "doc"])));
}

#[test]
fn tuple_struct_around_pinned_struct() {
    let bar = strukt(vec![]);
    let bar_plan = pin_data(PinDataArgs::Nothing, &bar).unwrap();
    assert!(bar_plan.fields.is_empty());
    let foo = strukt(vec![field(None, ty(&["Bar"]), &["pin"])]);
    let plan = pin_data(PinDataArgs::Nothing, &foo).unwrap();
    assert_eq!(plan.fields.len(), 1);
    assert!(matches!(plan.fields[0].member, Member::Unnamed(0)));
    assert_eq!(projection_kind(&plan.fields[0]), RefKind::Pinned);
    assert_eq!(initializer_kind(&plan.fields[0]), InitKind::PinInit);
    // `Foo { 0 <- Bar::new() }` with `Bar {}` as the only field
    let bar_value = run_literal::<(), ()>(0, vec![], None).result.unwrap();
    assert!(bar_value.is_empty());
    let run = run_literal::<(), ()>(1, vec![Step::Write(0, init_from_result(Ok(())))], None);
    assert_eq!(run.result, Ok(vec![()]));
}

#[test]
fn member_keys() {
    assert!(matches!(Member::new(3, None), Member::Unnamed(3)));
    let name = "a".to_string();
    assert!(matches!(Member::new(3, Some(&name)), Member::Named(ref s) if s == "a"));
    assert!(matches!(Member::from(2usize), Member::Unnamed(2)));
}

#[test]
fn pin_data_rejects_other_items() {
    let e = ItemDecl { kind: ItemKind::Enum, fields: vec![] };
    assert_eq!(pin_data(PinDataArgs::Nothing, &e).err(), Some(PinDataError::OnlyStructs));
    let u = ItemDecl { kind: ItemKind::Union, fields: vec![] };
    assert_eq!(pin_data(PinDataArgs::Nothing, &u).err(), Some(PinDataError::OnlyStructs));
    let o = ItemDecl { kind: ItemKind::Other, fields: vec![] };
    assert_eq!(pin_data(PinDataArgs::Nothing, &o).err(), Some(PinDataError::NotAType));
}

#[test]
fn zeroable_derive_bounds_type_params() {
    let d = DeriveDecl {
        data: DataKind::Struct,
        params: vec![GenericParamKind::Lifetime, GenericParamKind::Type, GenericParamKind::Const],
        n_fields: 4,
    };
    let plan = pin_init::zeroable::derive(&d).unwrap();
    assert_eq!(plan.param_bounds, vec![false, true, false]);
    assert_eq!(plan.field_bound, FieldBound::Asserted);
    assert_eq!(plan.n_obligations, 4);
    let maybe = maybe_derive(&d).unwrap();
    assert_eq!(maybe.param_bounds, vec![false, false, false]);
    assert_eq!(maybe.field_bound, FieldBound::WhereClause);
    assert_eq!(maybe.n_obligations, 4);
}

#[test]
fn zeroable_union_is_derived() {
    let d = DeriveDecl { data: DataKind::Union, params: vec![], n_fields: 2 };
    assert!(pin_init::zeroable::derive(&d).is_ok());
}

#[test]
fn zeroable_refuses_enum() {
    let d = DeriveDecl { data: DataKind::Enum, params: vec![GenericParamKind::Type], n_fields: 1 };
    assert_eq!(pin_init::zeroable::derive(&d).err(), Some(ZeroableError::Enum));
    assert_eq!(maybe_derive(&d).err(), Some(ZeroableError::Enum));
}

fn impl_decl(is_unsafe: bool, trait_: Option<TraitRef>, fns: &[Option<&str>]) -> ImplDecl {
    ImplDecl {
        is_unsafe,
        trait_,
        fn_names: fns.iter().map(|f| f.map(|s| s.to_string())).collect(),
    }
}

#[test]
fn pinned_drop_accepts_well_formed_impl() {
    let t = TraitRef { negative: false, path: path(&["PinnedDrop"]) };
    let plan = pinned_drop(&impl_decl(false, Some(t), &[Some("drop"), None, Some("other")]));
    assert!(plan.errors.is_empty());
    assert_eq!(plan.token_param, vec![true, false, false]);
    let t = TraitRef { negative: false, path: path(&["pin_init", "PinnedDrop"]) };
    assert!(pinned_drop(&impl_decl(false, Some(t), &[])).errors.is_empty());
}

#[test]
fn pinned_drop_reports_misuse() {
    let t = TraitRef { negative: true, path: path(&["x", "pin_init", "Drop"]) };
    let plan = pinned_drop(&impl_decl(true, Some(t), &[Some("drop")]));
    assert_eq!(
        plan.errors,
        vec![
            PinnedDropDiag::UnsafeImpl,
            PinnedDropDiag::NegativeImpl,
            PinnedDropDiag::BadPath(2),
            PinnedDropDiag::BadPath(0),
        ]
    );
    let inherent = pinned_drop(&impl_decl(false, None, &[]));
    assert_eq!(inherent.errors, vec![PinnedDropDiag::InherentImpl]);
    let mut p = path(&["PinnedDrop"]);
    p.segments[0].has_args = true;
    let args = pinned_drop(&impl_decl(false, Some(TraitRef { negative: false, path: p }), &[]));
    assert_eq!(args.errors, vec![PinnedDropDiag::UnexpectedArgs(0)]);
}
