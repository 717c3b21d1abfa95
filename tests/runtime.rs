use pin_init::internal::{
    init_from_result, init_value, pin_init_from_closure, AlwaysFail, DropGuard, PinInit, Slot,
    StackInit,
};
use std::cell::Cell;
use pin_init::option::PinnedOption;

#[derive(Debug, PartialEq)]
struct Foo {
    a: usize,
    b: String,
}

#[test]
fn stack_init_reuse() {
    let mut slot: StackInit<Foo> = StackInit::uninit();
    let value = slot.init(init_value(Foo { a: 42, b: "Hello".to_owned() }));
    let value = value.unwrap();
    println!("{value:?}");
    assert_eq!(value.a, 42);
    assert_eq!(value.b, "Hello");
    let value = slot.init(init_value(Foo { a: 24, b: "world!".to_owned() }));
    let value = value.unwrap();
    println!("{value:?}");
    assert_eq!(value.a, 24);
    assert_eq!(value.b, "world!");
}

#[test]
fn stack_init_starts_empty() {
    let slot: StackInit<u32> = StackInit::uninit();
    assert!(!slot.is_init());
}

#[test]
fn stack_init_failure_leaves_nothing() {
    let mut slot: StackInit<u32> = StackInit::uninit();
    assert_eq!(*slot.init(init_value(7u32)).unwrap(), 7);
    assert!(slot.is_init());
    let r = slot.init(init_from_result::<u32, &str>(Err("no")));
    assert_eq!(r, Err("no"));
    assert!(!slot.is_init());
}

#[test]
fn always_fail_fails_and_leaves_slot_empty() {
    let mut slot: Slot<u8> = Slot::empty();
    let r = AlwaysFail::<u8>::new().__pinned_init(&mut slot);
    assert_eq!(r, Err(()));
    assert!(!slot.is_filled());
}

#[test]
fn closure_adapter_commits_on_success_only() {
    let mut slot: Slot<u8> = Slot::empty();
    assert_eq!(init_from_result::<u8, ()>(Err(())).__pinned_init(&mut slot), Err(()));
    assert!(!slot.is_filled());
    assert_eq!(init_from_result::<u8, ()>(Ok(5)).__pinned_init(&mut slot), Ok(()));
    assert_eq!(slot.get(), Some(&5));
    assert_eq!(slot.take(), Some(5));
    assert!(!slot.is_filled());
}

#[test]
fn pinned_option_none() {
    let mut slot: StackInit<PinnedOption<u32>> = StackInit::uninit();
    let o = slot.init(PinnedOption::<u32>::none()).unwrap();
    assert!(o.is_none());
    assert!(!o.is_some());
    assert_eq!(o.as_ref(), None);
}

#[test]
fn pinned_option_some() {
    let mut slot: StackInit<PinnedOption<u32>> = StackInit::uninit();
    let o = slot.init(PinnedOption::some(init_value(9u32))).unwrap();
    assert!(o.is_some());
    assert_eq!(o.as_ref(), Some(&9));
}

#[test]
fn pinned_option_some_fails_with_inner_error() {
    let mut slot: StackInit<PinnedOption<u32>> = StackInit::uninit();
    let r = slot.init(PinnedOption::some(AlwaysFail::<u32>::new()));
    assert!(r.is_err());
    assert!(!slot.is_init());
}

#[test]
fn pinned_option_as_mut_writes_in_place() {
    let mut slot: Slot<PinnedOption<u32>> = Slot::empty();
    PinnedOption::some(init_value(1u32)).__pinned_init(&mut slot).unwrap();
    let mut o = slot.take().unwrap();
    *o.as_mut().unwrap() = 2;
    assert_eq!(o.as_ref(), Some(&2));
}

#[test]
fn drop_guard_gives_value_back() {
    let g = DropGuard::new(String::from("kept"));
    assert_eq!(g.release(), "kept");
}

#[test]
fn closure_runs_when_driven() {
    let state = Cell::new(3usize);
    let init = pin_init_from_closure(|| Ok::<usize, ()>(state.get() + 1));
    state.set(42);
    let mut slot: StackInit<usize> = StackInit::uninit();
    assert_eq!(*slot.init(init).unwrap(), 43);
}

#[test]
fn failing_closure_leaves_slot_untouched() {
    let mut slot: Slot<usize> = Slot::empty();
    let r = pin_init_from_closure(|| Err::<usize, &str>("bad")).__pinned_init(&mut slot);
    assert_eq!(r, Err("bad"));
    assert!(!slot.is_filled());
}
