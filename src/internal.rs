//! The initializer contract and the small runtime types built on it.
//!
//! A destination is a [`Slot`]: storage that is either empty or holds one value. An
//! initializer is driven with an empty slot and either fills it and reports success, or
//! reports an error and leaves the slot exactly as it was.
use core::convert::Infallible;
use core::marker::PhantomData;
use vstd::prelude::*;

verus! {

/// Caller-owned storage for one value: empty until an initializer commits a value to it.
pub struct Slot<T> {
    value: Option<T>,
}

impl<T> View for Slot<T> {
    type V = Option<T>;

    closed spec fn view(&self) -> Option<T> {
        self.value
    }
}

impl<T> Slot<T> {
    /// An empty slot.
    pub fn empty() -> (r: Slot<T>)
        ensures
            r@ is None,
    {
        Slot { value: None }
    }

    /// Whether a value has been committed.
    pub fn is_filled(&self) -> (r: bool)
        ensures
            r == self@ is Some,
    {
        self.value.is_some()
    }

    /// Moves a value into an empty slot: the one transition from empty to filled.
    pub fn commit(&mut self, v: T)
        requires
            old(self)@ is None,
        ensures
            final(self)@ == Some(v),
    {
        self.value = Some(v);
    }

    /// Drops the held value, if any, and leaves the slot empty.
    pub fn clear(&mut self)
        ensures
            final(self)@ is None,
    {
        self.value = None;
    }

    /// Moves the held value out, leaving the slot empty.
    pub fn take(&mut self) -> (r: Option<T>)
        ensures
            r == old(self)@,
            final(self)@ is None,
    {
        let mut v: Option<T> = None;
        core::mem::swap(&mut v, &mut self.value);
        v
    }

    /// An exclusive reference to the held value; writes through it land in the slot.
    pub fn get_mut(&mut self) -> (r: Option<&mut T>)
        ensures
            match r {
                Some(m) => old(self)@ == Some(*m) && final(self)@ == Some(*final(m)),
                None => old(self)@ is None && final(self)@ is None,
            },
    {
        self.value.as_mut()
    }

    /// A shared reference to the held value.
    pub fn get(&self) -> (r: Option<&T>)
        ensures
            r == match self@ {
                Some(v) => Some(&v),
                None => None::<&T>,
            },
    {
        self.value.as_ref()
    }
}

/// An initializer whose result may stay pinned at the slot's address forever.
///
/// Driving it with an empty slot either commits a value it admits and returns `Ok`, or
/// returns an error it admits and leaves the slot untouched.
pub trait PinInit<T, E>: Sized {
    /// What must hold before the initializer is driven.
    spec fn ready(&self) -> bool;

    /// The outcomes this initializer may have.
    spec fn admits(&self, out: Result<T, E>) -> bool;

    fn __pinned_init(self, slot: &mut Slot<T>) -> (r: Result<(), E>)
        requires
            self.ready(),
            old(slot)@ is None,
        ensures
            match r {
                Ok(_) => final(slot)@ is Some && self.admits(Ok(final(slot)@->0)),
                Err(e) => final(slot)@ == old(slot)@ && self.admits(Err(e)),
            },
    ;
}

/// An initializer that does not rely on the value staying at the slot's address.
pub trait Init<T, E>: PinInit<T, E> {
    fn __init(self, slot: &mut Slot<T>) -> (r: Result<(), E>)
        requires
            self.ready(),
            old(slot)@ is None,
        ensures
            match r {
                Ok(_) => final(slot)@ is Some && self.admits(Ok(final(slot)@->0)),
                Err(e) => final(slot)@ == old(slot)@ && self.admits(Err(e)),
            },
    ;
}

/// Adapter that turns an already computed outcome into an initializer: `Ok` is committed to
/// the slot, `Err` is handed back with the slot untouched.
pub struct InitClosure<T, E> {
    pub outcome: Result<T, E>,
}

impl<T, E> PinInit<T, E> for InitClosure<T, E> {
    open spec fn ready(&self) -> bool {
        true
    }

    open spec fn admits(&self, out: Result<T, E>) -> bool {
        out == self.outcome
    }

    fn __pinned_init(self, slot: &mut Slot<T>) -> (r: Result<(), E>) {
        match self.outcome {
            Ok(v) => {
                slot.commit(v);
                Ok(())
            },
            Err(e) => Err(e),
        }
    }
}

impl<T, E> Init<T, E> for InitClosure<T, E> {
    fn __init(self, slot: &mut Slot<T>) -> (r: Result<(), E>) {
        self.__pinned_init(slot)
    }
}

/// Adapter that turns a single-use procedure into an initializer: it runs when the
/// initializer is driven, and its value is committed to the slot only if it succeeds.
pub struct FnInit<F> {
    f: F,
}

impl<F> FnInit<F> {
    /// The procedure.
    pub closed spec fn procedure(&self) -> F {
        self.f
    }
}

/// An initializer that runs `f` when driven.
pub fn pin_init_from_closure<T, E, F: FnOnce() -> Result<T, E>>(f: F) -> (r: FnInit<F>)
    ensures
        r.procedure() == f,
{
    FnInit { f }
}

impl<T, E, F: FnOnce() -> Result<T, E>> PinInit<T, E> for FnInit<F> {
    open spec fn ready(&self) -> bool {
        self.procedure().requires(())
    }

    open spec fn admits(&self, out: Result<T, E>) -> bool {
        self.procedure().ensures((), out)
    }

    fn __pinned_init(self, slot: &mut Slot<T>) -> (r: Result<(), E>) {
        let f = self.f;
        match f() {
            Ok(v) => {
                slot.commit(v);
                Ok(())
            },
            Err(e) => Err(e),
        }
    }
}

impl<T, E, F: FnOnce() -> Result<T, E>> Init<T, E> for FnInit<F> {
    fn __init(self, slot: &mut Slot<T>) -> (r: Result<(), E>) {
        self.__pinned_init(slot)
    }
}

/// An initializer that always writes the given value.
pub fn init_value<T>(v: T) -> (r: InitClosure<T, Infallible>)
    ensures
        r.outcome == Ok::<T, Infallible>(v),
{
    InitClosure { outcome: Ok(v) }
}

/// An initializer built from a computed outcome.
pub fn init_from_result<T, E>(outcome: Result<T, E>) -> (r: InitClosure<T, E>)
    ensures
        r.outcome == outcome,
{
    InitClosure { outcome }
}

/// Metadata of a type whose fields are initialized through a pin-data descriptor.
pub trait HasPinData {
    type PinData: PinData;

    fn __pin_data() -> Self::PinData;
}

/// The descriptor type of a struct: one initializing function per field.
pub trait PinData: Copy {
    type Datee;

    /// Type inference helper: hands the function back unchanged.
    fn make_closure<F, O, E>(self, f: F) -> (r: F)
        where
            F: FnOnce(&mut Slot<Self::Datee>) -> Result<O, E>,
        ensures
            r == f,
    {
        f
    }
}

/// Metadata that every type has: no per-field knowledge.
pub trait HasInitData {
    type InitData: InitData;

    fn __init_data() -> Self::InitData;
}

/// Same role as [`PinData`], for arbitrary types.
pub trait InitData: Copy {
    type Datee;

    /// Type inference helper: hands the function back unchanged.
    fn make_closure<F, O, E>(self, f: F) -> (r: F)
        where
            F: FnOnce(&mut Slot<Self::Datee>) -> Result<O, E>,
        ensures
            r == f,
    {
        f
    }
}

/// The [`InitData`] of every type.
pub struct AllData<T> {
    _t: PhantomData<T>,
}

impl<T> Clone for AllData<T> {
    fn clone(&self) -> (r: Self) {
        AllData { _t: PhantomData }
    }
}

impl<T> Copy for AllData<T> {
}

impl<T> InitData for AllData<T> {
    type Datee = T;
}

impl<T> HasInitData for T {
    type InitData = AllData<T>;

    fn __init_data() -> Self::InitData {
        AllData { _t: PhantomData }
    }
}

/// Storage for one value on the stack that can be initialized again and again.
pub struct StackInit<T> {
    value: Slot<T>,
    is_init: bool,
}

impl<T> StackInit<T> {
    /// The value held, if one is initialized.
    pub closed spec fn contents(&self) -> Option<T> {
        self.value@
    }

    /// `is_init` tells exactly whether a value is held.
    pub closed spec fn wf(&self) -> bool {
        self.is_init == self.value@ is Some
    }

    /// Storage with nothing in it.
    pub fn uninit() -> (r: Self)
        ensures
            r.wf(),
            r.contents() is None,
    {
        StackInit { value: Slot::empty(), is_init: false }
    }

    /// Whether a value is held.
    pub fn is_init(&self) -> (r: bool)
        requires
            self.wf(),
        ensures
            r == self.contents() is Some,
    {
        self.is_init
    }

    /// Drops a value held from an earlier use, then drives `init` on the empty storage. On
    /// success the new value is held and returned; on failure nothing is held.
    pub fn init<E, I: PinInit<T, E>>(&mut self, init: I) -> (r: Result<&T, E>)
        requires
            old(self).wf(),
            init.ready(),
        ensures
            final(self).wf(),
            match r {
                Ok(v) => final(self).contents() == Some(*v) && init.admits(Ok(*v)),
                Err(e) => final(self).contents() is None && init.admits(Err(e)),
            },
    {
        if self.is_init {
            self.is_init = false;
            self.value.clear();
        }
        match init.__pinned_init(&mut self.value) {
            Ok(_) => {
                self.is_init = true;
                Ok(self.value.get().unwrap())
            },
            Err(e) => Err(e),
        }
    }
}

/// Drops a value when it is dropped itself, unless it is forgotten first.
///
/// The guarded value is owned by the guard; `release` gives it back without dropping it.
pub struct DropGuard<T> {
    value: T,
}

impl<T> DropGuard<T> {
    /// A guard that owns `value`.
    pub fn new(value: T) -> (r: Self)
        ensures
            r.guarded() == value,
    {
        DropGuard { value }
    }

    /// The guarded value.
    pub closed spec fn guarded(&self) -> T {
        self.value
    }

    /// Gives the value back: it is then not dropped by the guard.
    pub fn release(self) -> (r: T)
        ensures
            r == self.guarded(),
    {
        self.value
    }
}

/// Token that only the real destructor creates, so that the pinned destructor is not called
/// by anything else.
pub struct OnlyCallFromDrop {
    _private: (),
}

impl OnlyCallFromDrop {
    /// The token. Only a destructor delegating to its pinned destructor calls this.
    pub fn new() -> (r: Self) {
        OnlyCallFromDrop { _private: () }
    }
}

/// Initializer that always fails, with `()`, and never touches the slot.
pub struct AlwaysFail<T> {
    _t: PhantomData<T>,
}

impl<T> AlwaysFail<T> {
    /// Creates a new initializer that always fails.
    pub fn new() -> (r: Self) {
        AlwaysFail { _t: PhantomData }
    }
}

impl<T> PinInit<T, ()> for AlwaysFail<T> {
    open spec fn ready(&self) -> bool {
        true
    }

    open spec fn admits(&self, out: Result<T, ()>) -> bool {
        out is Err
    }

    fn __pinned_init(self, slot: &mut Slot<T>) -> (r: Result<(), ()>) {
        Err(())
    }
}

} // verus!
