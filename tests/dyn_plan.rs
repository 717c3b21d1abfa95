use pin_init::dyn_init::{
    is_self_ty, map_receiver, plan_dyn, DynInitError, DynPlan, RawReceiver, ReceiverDecl,
    ReturnDecl,
};
use pin_init::syntax::{PathDecl, PathSeg, TypeDecl};

fn named(s: &str) -> TypeDecl {
    TypeDecl::Path {
        qself: false,
        path: PathDecl {
            leading_colon: false,
            segments: vec![PathSeg { ident: s.to_string(), has_args: false }],
        },
    }
}

#[test]
fn self_type_is_recognised() {
    assert!(is_self_ty(&named("Self")));
    assert!(!is_self_ty(&named("Foo")));
    assert!(!is_self_ty(&TypeDecl::Other));
    let q = TypeDecl::Path {
        qself: true,
        path: PathDecl {
            leading_colon: false,
            segments: vec![PathSeg { ident: "Self".to_string(), has_args: false }],
        },
    };
    assert!(!is_self_ty(&q));
}

#[test]
fn receivers_map_to_raw_pointers() {
    let shared = ReceiverDecl::Ref { mutable: false, elem: named("Self") };
    let exclusive = ReceiverDecl::Ref { mutable: true, elem: named("Self") };
    assert_eq!(map_receiver(&shared), Ok(RawReceiver::Const));
    assert_eq!(map_receiver(&exclusive), Ok(RawReceiver::Mut));
    let other = ReceiverDecl::Ref { mutable: false, elem: named("Box") };
    assert_eq!(map_receiver(&other), Err(DynInitError::UnsupportedReceiver));
    assert_eq!(map_receiver(&ReceiverDecl::Other), Err(DynInitError::UnsupportedReceiver));
}

#[test]
fn dyn_plans() {
    let shared = ReceiverDecl::Ref { mutable: false, elem: named("Self") };
    assert_eq!(
        plan_dyn(false, ReturnDecl::ImplTrait, Some(&shared)),
        Ok(DynPlan { wrap_future: false, receiver: RawReceiver::Const })
    );
    assert_eq!(
        plan_dyn(true, ReturnDecl::Default, Some(&shared)),
        Ok(DynPlan { wrap_future: true, receiver: RawReceiver::Const })
    );
    assert_eq!(
        plan_dyn(false, ReturnDecl::Other, Some(&shared)),
        Err(DynInitError::ExpectedImplTrait)
    );
    assert_eq!(
        plan_dyn(false, ReturnDecl::Default, Some(&shared)),
        Err(DynInitError::ExpectedImplTrait)
    );
    assert_eq!(plan_dyn(false, ReturnDecl::ImplTrait, None), Err(DynInitError::MissingReceiver));
}
