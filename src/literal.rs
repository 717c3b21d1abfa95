//! What an initializer literal does when it runs.
//!
//! A literal is a sequence of steps in the order written: statements run for their effect,
//! and field writes drive a field's initializer into that field's slot. Each written field
//! is guarded; the first step that fails stops the literal, the guarded fields are dropped
//! in reverse order, and the error is returned. When every step succeeds the guards are
//! released and the fields make up the value; fields the literal does not name are taken
//! from the zero value when the literal ends in `..Zeroable::init_zeroed()`.
use crate::internal::{InitClosure, PinInit, Slot};
use crate::token::into_queue;
use vstd::prelude::*;

verus! {

/// One step of a literal: a statement with its outcome, or a write of a field by index.
pub enum Step<V, E> {
    Stmt(Result<(), E>),
    Write(usize, InitClosure<V, E>),
}

/// What a literal did, in order.
#[derive(PartialEq, Eq, Structural, Clone, Copy, Debug)]
pub enum Event {
    /// The statement at this step index ran.
    Stmt(usize),
    /// This field was written.
    Write(usize),
    /// This field was dropped while unwinding.
    Drop(usize),
}

/// The outcome of a literal and the log of what it did.
pub struct LiteralRun<V, E> {
    pub result: Result<Vec<V>, E>,
    pub log: Vec<Event>,
}

/// Why a literal's field list is rejected before anything runs.
#[derive(PartialEq, Eq, Structural, Clone, Copy, Debug)]
pub enum FieldError {
    /// The struct has no field with this index.
    Unknown(usize),
    /// This field is initialized twice.
    Duplicate(usize),
    /// This field is never initialized.
    Missing(usize),
}

/// The step succeeds.
pub open spec fn step_ok<V, E>(s: Step<V, E>) -> bool {
    match s {
        Step::Stmt(r) => r is Ok,
        Step::Write(_, init) => init.outcome is Ok,
    }
}

/// The error a failing step returns.
pub open spec fn step_err<V, E>(s: Step<V, E>) -> E {
    match s {
        Step::Stmt(r) => r->Err_0,
        Step::Write(_, init) => init.outcome->Err_0,
    }
}

/// What the step at index `i` logs when it succeeds.
pub open spec fn event_of<V, E>(s: Step<V, E>, i: int) -> Event {
    match s {
        Step::Stmt(_) => Event::Stmt(i as usize),
        Step::Write(f, _) => Event::Write(f),
    }
}

/// The log of a run of successful steps.
pub open spec fn events<V, E>(p: Seq<Step<V, E>>) -> Seq<Event>
    decreases p.len(),
{
    if p.len() == 0 {
        Seq::empty()
    } else {
        events(p.drop_last()).push(event_of(p.last(), p.len() - 1))
    }
}

/// The fields written by the steps, in order.
pub open spec fn writes<V, E>(p: Seq<Step<V, E>>) -> Seq<usize>
    decreases p.len(),
{
    if p.len() == 0 {
        Seq::empty()
    } else {
        match p.last() {
            Step::Write(f, _) => writes(p.drop_last()).push(f),
            Step::Stmt(_) => writes(p.drop_last()),
        }
    }
}

/// The drops of the given written fields, last written first.
pub open spec fn drops_of(ws: Seq<usize>) -> Seq<Event>
    decreases ws.len(),
{
    if ws.len() == 0 {
        Seq::empty()
    } else {
        seq![Event::Drop(ws.last())] + drops_of(ws.drop_last())
    }
}

/// The value the steps wrote to field `f`, if they wrote one.
pub open spec fn value_in<V, E>(p: Seq<Step<V, E>>, f: usize) -> Option<V>
    decreases p.len(),
{
    if p.len() == 0 {
        None
    } else {
        match p.last() {
            Step::Write(g, init) => if g == f && init.outcome is Ok {
                Some(init.outcome->Ok_0)
            } else {
                value_in(p.drop_last(), f)
            },
            Step::Stmt(_) => value_in(p.drop_last(), f),
        }
    }
}

/// The fields of the finished value: written ones, the rest from `zero`.
pub open spec fn literal_values<V, E>(p: Seq<Step<V, E>>, n: usize, zero: Option<V>) -> Seq<V> {
    Seq::new(
        n as nat,
        |f: int|
            match value_in(p, f as usize) {
                Some(v) => v,
                None => zero->0,
            },
    )
}

/// Each field is written at most once, by index in range, and every field is written
/// unless the rest is zero-filled.
pub open spec fn literal_wf<V, E>(p: Seq<Step<V, E>>, n: usize, zero: Option<V>) -> bool {
    let ws = writes(p);
    &&& ws.no_duplicates()
    &&& forall|j: int| 0 <= j < ws.len() ==> #[trigger] ws[j] < n
    &&& zero is None ==> forall|f: usize| f < n ==> ws.contains(f)
}

/// The run stops at step `k`: every step before it succeeded and it failed.
pub open spec fn fails_at<V, E>(p: Seq<Step<V, E>>, k: int) -> bool {
    &&& 0 <= k < p.len()
    &&& forall|j: int| 0 <= j < k ==> step_ok(#[trigger] p[j])
    &&& !step_ok(p[k])
}

proof fn lemma_writes_push<V, E>(p: Seq<Step<V, E>>, s: Step<V, E>)
    ensures
        writes(p.push(s)) == match s {
            Step::Write(f, _) => writes(p).push(f),
            Step::Stmt(_) => writes(p),
        },
        events(p.push(s)) == events(p).push(event_of(s, p.len() as int)),
        forall|f: usize|
            value_in(p.push(s), f) == match s {
                Step::Write(g, init) => if g == f && init.outcome is Ok {
                    Some(init.outcome->Ok_0)
                } else {
                    value_in(p, f)
                },
                Step::Stmt(_) => value_in(p, f),
            },
{
    assert(p.push(s).drop_last() =~= p);
}

proof fn lemma_writes_prefix<V, E>(p: Seq<Step<V, E>>, k: int)
    requires
        0 <= k <= p.len(),
    ensures
        writes(p.take(k)).len() <= writes(p).len(),
        forall|j: int| 0 <= j < writes(p.take(k)).len() ==> writes(p.take(k))[j] == writes(p)[j],
    decreases p.len() - k,
{
    if k < p.len() {
        lemma_writes_prefix(p, k + 1);
        lemma_writes_push(p.take(k), p[k]);
        assert(p.take(k + 1) =~= p.take(k).push(p[k]));
    } else {
        assert(p.take(k) =~= p);
    }
}

proof fn lemma_value_in_written<V, E>(p: Seq<Step<V, E>>, f: usize)
    requires
        value_in(p, f) is Some,
    ensures
        writes(p).contains(f),
    decreases p.len(),
{
    assert(p.len() > 0);
    match p.last() {
        Step::Write(g, init) => {
            if g == f && init.outcome is Ok {
                assert(writes(p).last() == f);
            } else {
                lemma_value_in_written(p.drop_last(), f);
                let j = choose|j: int| 0 <= j < writes(p.drop_last()).len() && writes(p.drop_last())[j] == f;
                assert(writes(p)[j] == f);
            }
        },
        Step::Stmt(_) => {
            lemma_value_in_written(p.drop_last(), f);
        },
    }
}

proof fn lemma_written_some<V, E>(p: Seq<Step<V, E>>, f: usize)
    requires
        forall|j: int| 0 <= j < p.len() ==> step_ok(#[trigger] p[j]),
        writes(p).contains(f),
    ensures
        value_in(p, f) is Some,
    decreases p.len(),
{
    assert(p.len() > 0);
    let q = p.drop_last();
    assert forall|j: int| 0 <= j < q.len() implies step_ok(#[trigger] q[j]) by {
        assert(q[j] == p[j]);
    }
    assert(step_ok(p[p.len() - 1]));
    match p.last() {
        Step::Write(g, init) => {
            if g != f {
                let j = choose|j: int| 0 <= j < writes(p).len() && writes(p)[j] == f;
                assert(writes(q)[j] == f);
                lemma_written_some(q, f);
            }
        },
        Step::Stmt(_) => {
            lemma_written_some(q, f);
        },
    }
}

proof fn lemma_not_written_none<V, E>(p: Seq<Step<V, E>>, f: usize)
    requires
        !writes(p).contains(f),
    ensures
        value_in(p, f) is None,
{
    if value_in(p, f) is Some {
        lemma_value_in_written(p, f);
    }
}

/// Drops the guarded fields, last written first, logging each drop.
fn unwind<V>(slots: &mut Vec<Slot<V>>, guards: Vec<usize>, log: &mut Vec<Event>)
    requires
        forall|j: int| 0 <= j < guards@.len() ==> #[trigger] guards@[j] < old(slots)@.len(),
    ensures
        final(log)@ == old(log)@ + drops_of(guards@),
        final(slots)@.len() == old(slots)@.len(),
{
    let ghost orig = guards@;
    let ghost log0 = log@;
    let mut guards = guards;
    while guards.len() > 0
        invariant
            slots@.len() == old(slots)@.len(),
            forall|j: int| 0 <= j < guards@.len() ==> #[trigger] guards@[j] < slots@.len(),
            log@ + drops_of(guards@) == log0 + drops_of(orig),
        decreases guards@.len(),
    {
        let ghost before = guards@;
        let f = guards.pop().unwrap();
        assert(guards@ =~= before.drop_last());
        assert(before[before.len() - 1] < slots@.len());
        slots[f].clear();
        log.push(Event::Drop(f));
        assert(log@ + drops_of(guards@) =~= log0 + drops_of(orig));
    }
    assert(log@ + drops_of(guards@) =~= log@);
}

/// Runs a literal over a struct with `n` fields: the steps in order, stopping at the first
/// failure. On failure the fields written so far are dropped, last first, and nothing after
/// the failing step runs; on success the value holds every written field, and `zero`'s value
/// in every other field.
pub fn run_literal<V: Copy, E>(n: usize, steps: Vec<Step<V, E>>, zero: Option<V>) -> (r:
    LiteralRun<V, E>)
    requires
        literal_wf(steps@, n, zero),
    ensures
        r.result is Ok <==> forall|j: int| 0 <= j < steps@.len() ==> step_ok(#[trigger] steps@[j]),
        r.result matches Ok(vals) ==> vals@ == literal_values(steps@, n, zero) && r.log@ == events(
            steps@,
        ),
        r.result matches Err(e) ==> exists|k: int|
            {
                &&& fails_at(steps@, k)
                &&& e == step_err(steps@[k])
                &&& r.log@ == events(steps@.take(k)) + drops_of(writes(steps@.take(k)))
            },
{
    let ghost all = steps@;
    let total = steps.len();
    let mut slots: Vec<Slot<V>> = Vec::new();
    let mut f: usize = 0;
    while f < n
        invariant
            f <= n,
            slots@.len() == f,
            forall|g: int| 0 <= g < f ==> (#[trigger] slots@[g])@ is None,
        decreases n - f,
    {
        slots.push(Slot::empty());
        f = f + 1;
    }
    let mut q = into_queue(steps);
    let mut guards: Vec<usize> = Vec::new();
    let mut log: Vec<Event> = Vec::new();
    let mut i: usize = 0;
    proof {
        assert(all.take(0) =~= Seq::<Step<V, E>>::empty());
        assert(all.skip(0) =~= all);
    }
    while q.len() > 0
        invariant
            all == steps@,
            all.len() == total,
            literal_wf(all, n, zero),
            i <= all.len(),
            q@ == all.skip(i as int),
            slots@.len() == n,
            forall|j: int| 0 <= j < i ==> step_ok(#[trigger] all[j]),
            guards@ == writes(all.take(i as int)),
            log@ == events(all.take(i as int)),
            forall|g: usize| g < n ==> (#[trigger] slots@[g as int])@ == value_in(all.take(i as int), g),
        decreases q@.len(),
    {
        let ghost pre = all.take(i as int);
        let ghost s = all[i as int];
        proof {
            assert(q@[0] == s);
            assert(all.take(i + 1) =~= pre.push(s));
            lemma_writes_push(pre, s);
            lemma_writes_prefix(all, i + 1);
        }
        let step = q.pop_front().unwrap();
        assert(q@ =~= all.skip(i + 1));
        match step {
            Step::Stmt(Ok(())) => {
                log.push(Event::Stmt(i));
            },
            Step::Stmt(Err(e)) => {
                proof {
                    lemma_writes_prefix(all, i as int);
                    assert forall|j: int| 0 <= j < guards@.len() implies #[trigger] guards@[j]
                        < slots@.len() by {
                        assert(writes(all)[j] < n);
                    }
                }
                unwind(&mut slots, guards, &mut log);
                assert(fails_at(all, i as int));
                assert(!step_ok(all[i as int]));
                return LiteralRun { result: Err(e), log };
            },
            Step::Write(fld, init) => {
                proof {
                    assert(writes(pre.push(s)).last() == fld);
                    assert(writes(all.take(i + 1)).len() > 0);
                    assert(writes(all)[writes(pre).len() as int] == fld);
                    assert(fld < n);
                    if writes(pre).contains(fld) {
                        let j = choose|j: int| 0 <= j < writes(pre).len() && writes(pre)[j] == fld;
                        assert(writes(all)[j] == fld);
                    }
                    lemma_not_written_none(pre, fld);
                }
                let mut slot: Slot<V> = Slot::empty();
                match init.__pinned_init(&mut slot) {
                    Ok(_) => {
                        slots[fld] = slot;
                        guards.push(fld);
                        log.push(Event::Write(fld));
                    },
                    Err(e) => {
                        proof {
                            lemma_writes_prefix(all, i as int);
                            assert forall|j: int| 0 <= j < guards@.len() implies #[trigger] guards@[j]
                                < slots@.len() by {
                                assert(writes(all)[j] < n);
                            }
                        }
                        unwind(&mut slots, guards, &mut log);
                        assert(fails_at(all, i as int));
                assert(!step_ok(all[i as int]));
                        return LiteralRun { result: Err(e), log };
                    },
                }
            },
        }
        i = i + 1;
    }
    proof {
        assert(all.take(i as int) =~= all);
    }
    let mut vals: Vec<V> = Vec::new();
    let mut g: usize = 0;
    while g < n
        invariant
            literal_wf(all, n, zero),
            forall|j: int| 0 <= j < all.len() ==> step_ok(#[trigger] all[j]),
            g <= n,
            slots@.len() == n,
            vals@.len() == g,
            forall|h: usize| g <= h < n ==> (#[trigger] slots@[h as int])@ == value_in(all, h),
            forall|h: int| 0 <= h < g ==> #[trigger] vals@[h] == literal_values(all, n, zero)[h],
        decreases n - g,
    {
        let v = match slots[g].take() {
            Some(v) => v,
            None => {
                proof {
                    if zero is None {
                        assert(writes(all).contains(g));
                        lemma_written_some(all, g);
                    }
                }
                zero.unwrap()
            },
        };
        vals.push(v);
        g = g + 1;
    }
    assert(vals@ =~= literal_values(all, n, zero));
    LiteralRun { result: Ok(vals), log }
}


/// The first problem with a literal's field keys, scanning from `i`: a key out of range or
/// a key seen before.
pub open spec fn key_error_from(keys: Seq<usize>, n: usize, i: int) -> Option<FieldError>
    decreases keys.len() - i,
{
    if i < 0 || i >= keys.len() {
        None
    } else if keys[i] >= n {
        Some(FieldError::Unknown(keys[i]))
    } else if keys.take(i).contains(keys[i]) {
        Some(FieldError::Duplicate(keys[i]))
    } else {
        key_error_from(keys, n, i + 1)
    }
}

/// The first field from `f` on that no key names.
pub open spec fn missing_from(keys: Seq<usize>, n: usize, f: int) -> Option<FieldError>
    decreases n - f,
{
    if f < 0 || f >= n {
        None
    } else if !keys.contains(f as usize) {
        Some(FieldError::Missing(f as usize))
    } else {
        missing_from(keys, n, f + 1)
    }
}

/// What the check of a literal's field keys reports.
pub open spec fn field_check(keys: Seq<usize>, n: usize, zero_rest: bool) -> Option<FieldError> {
    match key_error_from(keys, n, 0) {
        Some(e) => Some(e),
        None => if zero_rest {
            None
        } else {
            missing_from(keys, n, 0)
        },
    }
}

/// Checks, before anything runs, the keys a literal initializes (in the order written)
/// against a struct with `n` fields: each must exist and appear once, and every field must
/// appear unless the literal ends in a zero-fill.
pub fn check_fields(n: usize, keys: &Vec<usize>, zero_rest: bool) -> (r: Result<(), FieldError>)
    ensures
        match field_check(keys@, n, zero_rest) {
            Some(e) => r == Err::<(), FieldError>(e),
            None => r is Ok,
        },
{
    let mut seen: Vec<bool> = Vec::new();
    let mut f: usize = 0;
    while f < n
        invariant
            f <= n,
            seen@.len() == f,
            forall|g: int| 0 <= g < f ==> !(#[trigger] seen@[g]),
        decreases n - f,
    {
        seen.push(false);
        f = f + 1;
    }
    let mut i: usize = 0;
    while i < keys.len()
        invariant
            i <= keys@.len(),
            seen@.len() == n,
            forall|g: int| 0 <= g < n ==> (#[trigger] seen@[g] <==> keys@.take(i as int).contains(g as usize)),
            key_error_from(keys@, n, 0) == key_error_from(keys@, n, i as int),
        decreases keys@.len() - i,
    {
        let k = keys[i];
        if k >= n {
            return Err(FieldError::Unknown(k));
        }
        if seen[k] {
            return Err(FieldError::Duplicate(k));
        }
        seen.set(k, true);
        proof {
            let t = keys@.take(i as int);
            assert(keys@.take(i + 1) =~= t.push(k));
            assert forall|g: int| 0 <= g < n implies (#[trigger] seen@[g] <==> keys@.take(
                i + 1,
            ).contains(g as usize)) by {
                if g as usize == k {
                    assert(keys@.take(i + 1)[i as int] == k);
                } else if t.contains(g as usize) {
                    let j = choose|j: int| 0 <= j < t.len() && t[j] == g as usize;
                    assert(keys@.take(i + 1)[j] == g as usize);
                } else if keys@.take(i + 1).contains(g as usize) {
                    let t1 = keys@.take(i + 1);
                    let j = choose|j: int| 0 <= j < t1.len() && t1[j] == g as usize;
                    assert(t[j] == g as usize);
                }
            }
        }
        i = i + 1;
    }
    if zero_rest {
        return Ok(());
    }
    assert(keys@.take(keys@.len() as int) =~= keys@);
    let mut f: usize = 0;
    while f < n
        invariant
            f <= n,
            seen@.len() == n,
            forall|g: int| 0 <= g < n ==> (#[trigger] seen@[g] <==> keys@.contains(g as usize)),
            missing_from(keys@, n, 0) == missing_from(keys@, n, f as int),
            key_error_from(keys@, n, 0) is None,
            !zero_rest,
        decreases n - f,
    {
        if !seen[f] {
            return Err(FieldError::Missing(f));
        }
        f = f + 1;
    }
    Ok(())
}

/// The steps of a literal take effect in the order written: the `i`-th entry of the log of
/// a successful run is what the `i`-th step does, statements and field writes alike.
pub proof fn literal_runs_in_written_order<V, E>(p: Seq<Step<V, E>>)
    ensures
        events(p) == Seq::new(p.len(), |i: int| event_of(p[i], i)),
    decreases p.len(),
{
    if p.len() > 0 {
        literal_runs_in_written_order(p.drop_last());
        assert(events(p) =~= Seq::new(p.len(), |i: int| event_of(p[i], i)));
    } else {
        assert(events(p) =~= Seq::new(p.len(), |i: int| event_of(p[i], i)));
    }
}

proof fn lemma_events_writes<V, E>(p: Seq<Step<V, E>>, f: usize)
    ensures
        events(p).contains(Event::Write(f)) <==> writes(p).contains(f),
        !events(p).contains(Event::Drop(f)),
    decreases p.len(),
{
    if p.len() > 0 {
        let q = p.drop_last();
        lemma_events_writes(q, f);
        let e = event_of(p.last(), p.len() - 1);
        assert(events(p) == events(q).push(e));
        if events(q).contains(Event::Write(f)) {
            let j = choose|j: int| 0 <= j < events(q).len() && events(q)[j] == Event::Write(f);
            assert(events(p)[j] == Event::Write(f));
        }
        if writes(q).contains(f) {
            let j = choose|j: int| 0 <= j < writes(q).len() && writes(q)[j] == f;
            assert(writes(p)[j] == f);
        }
        if events(p).contains(Event::Write(f)) {
            let j = choose|j: int| 0 <= j < events(p).len() && events(p)[j] == Event::Write(f);
            if j < events(q).len() {
                assert(events(q)[j] == Event::Write(f));
            } else {
                assert(writes(p).last() == f);
            }
        }
        if writes(p).contains(f) {
            let j = choose|j: int| 0 <= j < writes(p).len() && writes(p)[j] == f;
            if j < writes(q).len() {
                assert(writes(q)[j] == f);
            } else {
                assert(events(p).last() == Event::Write(f));
            }
        }
        if events(p).contains(Event::Drop(f)) {
            let j = choose|j: int| 0 <= j < events(p).len() && events(p)[j] == Event::Drop(f);
            if j < events(q).len() {
                assert(events(q)[j] == Event::Drop(f));
            }
        }
    }
}

proof fn lemma_drops_of(ws: Seq<usize>, f: usize)
    ensures
        drops_of(ws).contains(Event::Drop(f)) <==> ws.contains(f),
        !drops_of(ws).contains(Event::Write(f)),
        drops_of(ws).len() == ws.len(),
    decreases ws.len(),
{
    if ws.len() > 0 {
        let q = ws.drop_last();
        lemma_drops_of(q, f);
        let d = drops_of(ws);
        assert(d == seq![Event::Drop(ws.last())] + drops_of(q));
        if drops_of(q).contains(Event::Drop(f)) {
            let j = choose|j: int| 0 <= j < drops_of(q).len() && drops_of(q)[j] == Event::Drop(f);
            assert(d[j + 1] == Event::Drop(f));
        }
        if q.contains(f) {
            let j = choose|j: int| 0 <= j < q.len() && q[j] == f;
            assert(ws[j] == f);
        }
        if d.contains(Event::Drop(f)) {
            let j = choose|j: int| 0 <= j < d.len() && d[j] == Event::Drop(f);
            if j > 0 {
                assert(drops_of(q)[j - 1] == Event::Drop(f));
            } else {
                assert(ws[ws.len() - 1] == f);
            }
        }
        if ws.contains(f) {
            let j = choose|j: int| 0 <= j < ws.len() && ws[j] == f;
            if j < q.len() {
                assert(q[j] == f);
            } else {
                assert(d[0] == Event::Drop(f));
            }
        }
        if d.contains(Event::Write(f)) {
            let j = choose|j: int| 0 <= j < d.len() && d[j] == Event::Write(f);
            assert(j > 0);
            assert(drops_of(q)[j - 1] == Event::Write(f));
        }
    }
}

/// When the step at `k` fails, the log of the run (as `run_literal` states it) starts with
/// the steps before `k` in the order written, holds a write of a field exactly when a step
/// before `k` wrote it, and ends with a drop of exactly those fields: nothing from `k` on is
/// written, and nothing written before `k` is left behind.
pub proof fn failure_drops_exactly_earlier_writes<V, E>(p: Seq<Step<V, E>>, k: int)
    requires
        fails_at(p, k),
    ensures
        ({
            let log = events(p.take(k)) + drops_of(writes(p.take(k)));
            &&& log.take(k) == Seq::new(k as nat, |i: int| event_of(p[i], i))
            &&& forall|f: usize|
                #![trigger log.contains(Event::Write(f))]
                log.contains(Event::Write(f)) <==> writes(p.take(k)).contains(f)
            &&& forall|f: usize|
                #![trigger log.contains(Event::Drop(f))]
                log.contains(Event::Drop(f)) <==> writes(p.take(k)).contains(f)
        }),
{
    let pre = p.take(k);
    let log = events(pre) + drops_of(writes(pre));
    literal_runs_in_written_order(pre);
    assert(log.take(k) =~= Seq::new(k as nat, |i: int| event_of(p[i], i)));
    assert forall|f: usize| #![trigger log.contains(Event::Write(f))] log.contains(Event::Write(f))
        <==> writes(pre).contains(f) by {
        lemma_events_writes(pre, f);
        lemma_drops_of(writes(pre), f);
        if log.contains(Event::Write(f)) {
            let j = choose|j: int| 0 <= j < log.len() && log[j] == Event::Write(f);
            if j < events(pre).len() {
                assert(events(pre)[j] == Event::Write(f));
            } else {
                assert(drops_of(writes(pre))[j - events(pre).len()] == Event::Write(f));
            }
        }
        if events(pre).contains(Event::Write(f)) {
            let j = choose|j: int| 0 <= j < events(pre).len() && events(pre)[j] == Event::Write(f);
            assert(log[j] == Event::Write(f));
        }
    }
    assert forall|f: usize| #![trigger log.contains(Event::Drop(f))] log.contains(Event::Drop(f))
        <==> writes(pre).contains(f) by {
        lemma_events_writes(pre, f);
        lemma_drops_of(writes(pre), f);
        let el = events(pre).len();
        if log.contains(Event::Drop(f)) {
            let j = choose|j: int| 0 <= j < log.len() && log[j] == Event::Drop(f);
            if j < el {
                assert(events(pre)[j] == Event::Drop(f));
            } else {
                assert(drops_of(writes(pre))[j - el] == Event::Drop(f));
            }
        }
        if drops_of(writes(pre)).contains(Event::Drop(f)) {
            let j = choose|j: int|
                0 <= j < drops_of(writes(pre)).len() && drops_of(writes(pre))[j] == Event::Drop(f);
            assert(log[el + j] == Event::Drop(f));
        }
    }
}

/// A literal that writes some fields and zero-fills the rest yields the same value as one
/// that writes every field: the written fields with their values and the others with the
/// zero value.
pub proof fn zero_fill_matches_explicit<V, E>(
    n: usize,
    patched: Seq<Step<V, E>>,
    zero: V,
    explicit: Seq<Step<V, E>>,
)
    requires
        forall|f: usize|
            f < n ==> #[trigger] value_in(explicit, f) == Some(
                match value_in(patched, f) {
                    Some(v) => v,
                    None => zero,
                },
            ),
    ensures
        literal_values(patched, n, Some(zero)) == literal_values(explicit, n, None::<V>),
{
    assert forall|f: int| 0 <= f < n implies #[trigger] literal_values(patched, n, Some(zero))[f]
        == literal_values(explicit, n, None::<V>)[f] by {
        assert(value_in(explicit, f as usize) is Some);
    }
    assert(literal_values(patched, n, Some(zero)) =~= literal_values(explicit, n, None::<V>));
}

} // verus!
