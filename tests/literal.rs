use pin_init::internal::init_from_result;
use pin_init::literal::{check_fields, run_literal, Event, FieldError, Step};
use std::cell::Cell;

#[derive(Debug, PartialEq, Clone, Copy)]
struct Error;

fn write(f: usize, v: usize) -> Step<usize, Error> {
    Step::Write(f, init_from_result(Ok(v)))
}

fn stmt(r: Result<(), Error>) -> Step<usize, Error> {
    Step::Stmt(r)
}

#[test]
fn delay() {
    let state = &Cell::new(3);
    let init = || {
        let x = state.get();
        let y = x + 1;
        vec![stmt(Ok(())), write(0, x), write(1, y)]
    };
    state.set(42);
    let foo = run_literal(2, init(), None).result.unwrap();
    assert_eq!(foo[0], 42);
    assert_eq!(foo[1], 43);
}

#[test]
fn captured_by_value_at_write_time() {
    let mut x: usize = 3;
    let y = x + 1;
    let steps = vec![stmt(Ok(())), write(0, x), write(1, y)];
    x = 100;
    let foo = run_literal(2, steps, None).result.unwrap();
    assert_eq!(foo, vec![3, 4]);
    assert_eq!(x, 100);
}

#[test]
fn error_user() {
    let foo = run_literal(2, vec![stmt(Err(Error)), write(0, 1), write(1, 2)], None);
    assert!(foo.result.is_err());
    assert_eq!(foo.log, vec![]);
}

#[test]
fn ok_user() {
    let foo = run_literal(2, vec![stmt(Ok(())), write(0, 1), write(1, 2)], None);
    assert_eq!(foo.result.unwrap()[0], 1);
}

#[test]
fn split() {
    let foo = run_literal(2, vec![stmt(Ok(())), write(0, 10), write(1, 20)], None);
    let foo = foo.result.unwrap();
    assert_eq!(foo[0], 10);
    assert_eq!(foo[1], 20);
}

#[test]
fn late_error() {
    let foo = run_literal(
        2,
        vec![stmt(Ok(())), write(0, 0), stmt(Err(Error)), write(1, 0)],
        None,
    );
    assert!(foo.result.is_err());
    assert_eq!(foo.log, vec![Event::Stmt(0), Event::Write(0), Event::Drop(0)]);
}

#[test]
fn failing_second_field_drops_first() {
    let steps = vec![
        write(0, 5),
        Step::Write(1, init_from_result(Err(Error))),
    ];
    let run = run_literal(2, steps, None);
    assert_eq!(run.result, Err(Error));
    assert_eq!(run.log, vec![Event::Write(0), Event::Drop(0)]);
}

#[test]
fn unwinding_drops_in_reverse_order() {
    let steps = vec![write(2, 1), stmt(Ok(())), write(0, 2), write(1, 3), stmt(Err(Error))];
    let run = run_literal(3, steps, None);
    assert_eq!(run.result, Err(Error));
    assert_eq!(
        run.log,
        vec![
            Event::Write(2),
            Event::Stmt(1),
            Event::Write(0),
            Event::Write(1),
            Event::Drop(1),
            Event::Drop(0),
            Event::Drop(2),
        ]
    );
}

#[test]
fn writes_follow_written_order() {
    let run = run_literal(2, vec![write(1, 7), stmt(Ok(())), write(0, 8)], None);
    assert_eq!(run.result.unwrap(), vec![8, 7]);
    assert_eq!(run.log, vec![Event::Write(1), Event::Stmt(1), Event::Write(0)]);
}

#[test]
fn tuple_struct() {
    let foo = run_literal(2, vec![write(0, 42), write(1, 24)], None).result.unwrap();
    assert_eq!(foo[0], 42);
    assert_eq!(foo[1], 24);
}

#[test]
fn test() {
    // `marks` written, the rest from the zero value
    let foo = run_literal(4, vec![write(1, 64)], Some(0)).result.unwrap();
    assert_eq!(foo, vec![0, 64, 0, 0]);
}

#[test]
fn zero_fill_equals_explicit_writes() {
    let patched = run_literal(3, vec![write(2, 9)], Some(0)).result.unwrap();
    let explicit =
        run_literal(3, vec![write(0, 0), write(1, 0), write(2, 9)], None).result.unwrap();
    assert_eq!(patched, explicit);
}

#[test]
fn field_check_accepts_complete_list() {
    assert_eq!(check_fields(2, &vec![1, 0], false), Ok(()));
    assert_eq!(check_fields(0, &vec![], false), Ok(()));
}

#[test]
fn field_check_reports_duplicate() {
    assert_eq!(check_fields(3, &vec![0, 2, 0], false), Err(FieldError::Duplicate(0)));
}

#[test]
fn field_check_reports_missing() {
    assert_eq!(check_fields(3, &vec![0, 2], false), Err(FieldError::Missing(1)));
    assert_eq!(check_fields(3, &vec![0, 2], true), Ok(()));
}

#[test]
fn field_check_reports_unknown() {
    assert_eq!(check_fields(2, &vec![0, 5], false), Err(FieldError::Unknown(5)));
}
