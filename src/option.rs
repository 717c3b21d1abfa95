//! An `Option`-like container whose value is initialized in place and stays pinned.
use crate::internal::{HasPinData, Init, InitClosure, PinData, PinInit, Slot};
use core::convert::Infallible;
use core::marker::PhantomData;
use vstd::prelude::*;

verus! {

/// Holds a value of `T` or nothing; `present` tells which.
pub struct PinnedOption<T> {
    present: bool,
    value: Slot<T>,
}

impl<T> PinnedOption<T> {
    /// `present` agrees with the storage.
    pub closed spec fn wf(&self) -> bool {
        self.present == self.value@ is Some
    }

    /// The value held.
    pub closed spec fn contents(&self) -> Option<T> {
        self.value@
    }

    /// Initializer of an empty container.
    pub fn none() -> (r: InitClosure<Self, Infallible>)
        ensures
            match r.outcome {
                Ok(o) => o.wf() && o.contents() is None,
                Err(_) => false,
            },
    {
        InitClosure { outcome: Ok(PinnedOption { present: false, value: Slot::empty() }) }
    }

    /// Initializer of a container holding what `value` initializes; it fails exactly when
    /// `value` fails, with the same error.
    pub fn some<E, I: PinInit<T, E>>(value: I) -> (r: SomeInit<T, E, I>)
        ensures
            r.inner() == value,
    {
        SomeInit { init: value, _t: PhantomData }
    }

    /// Whether a value is held.
    pub fn is_some(&self) -> (r: bool)
        requires
            self.wf(),
        ensures
            r == self.contents() is Some,
    {
        self.present
    }

    /// Whether nothing is held.
    pub fn is_none(&self) -> (r: bool)
        requires
            self.wf(),
        ensures
            r == self.contents() is None,
    {
        !self.is_some()
    }

    /// A shared reference to the value, if one is held.
    pub fn as_ref(&self) -> (r: Option<&T>)
        requires
            self.wf(),
        ensures
            r == match self.contents() {
                Some(v) => Some(&v),
                None => None::<&T>,
            },
    {
        if self.present {
            self.value.get()
        } else {
            None
        }
    }

    /// An exclusive reference to the value, if one is held; the container stays where it is.
    pub fn as_mut(&mut self) -> (r: Option<&mut T>)
        requires
            old(self).wf(),
        ensures
            final(self).wf(),
            match r {
                Some(m) => old(self).contents() == Some(*m) && final(self).contents() == Some(
                    *final(m),
                ),
                None => old(self).contents() is None && final(self).contents() is None,
            },
    {
        if self.present {
            self.value.get_mut()
        } else {
            None
        }
    }
}

/// Initializer returned by [`PinnedOption::some`].
pub struct SomeInit<T, E, I> {
    init: I,
    _t: PhantomData<(T, E)>,
}

impl<T, E, I> SomeInit<T, E, I> {
    /// The initializer of the contained value.
    pub closed spec fn inner(&self) -> I {
        self.init
    }
}

impl<T, E, I: PinInit<T, E>> PinInit<PinnedOption<T>, E> for SomeInit<T, E, I> {
    open spec fn ready(&self) -> bool {
        self.inner().ready()
    }

    open spec fn admits(&self, out: Result<PinnedOption<T>, E>) -> bool {
        match out {
            Ok(o) => o.wf() && o.contents() is Some && self.inner().admits(Ok(o.contents()->0)),
            Err(e) => self.inner().admits(Err(e)),
        }
    }

    fn __pinned_init(self, slot: &mut Slot<PinnedOption<T>>) -> (r: Result<
        (),
        E,
    >) {
        let pd = PinnedOption::<T>::__pin_data();
        let mut value: Slot<T> = Slot::empty();
        match pd.value(&mut value, self.init) {
            Ok(_) => {
                slot.commit(PinnedOption { present: true, value });
                Ok(())
            },
            Err(e) => Err(e),
        }
    }
}

/// Field descriptor of [`PinnedOption`]: `present` is not structurally pinned, `value` is.
pub struct PinnedOptionPinData<T> {
    _t: PhantomData<T>,
}

impl<T> Clone for PinnedOptionPinData<T> {
    fn clone(&self) -> (r: Self) {
        PinnedOptionPinData { _t: PhantomData }
    }
}

impl<T> Copy for PinnedOptionPinData<T> {
}

impl<T> PinnedOptionPinData<T> {
    /// Initializes the field `present`, which may move: any [`Init`] will do.
    pub fn present<E, I: Init<bool, E>>(self, slot: &mut Slot<bool>, init: I) -> (r: Result<
        (),
        E,
    >)
        requires
            init.ready(),
            old(slot)@ is None,
        ensures
            match r {
                Ok(_) => final(slot)@ is Some && init.admits(Ok(final(slot)@->0)),
                Err(e) => final(slot)@ == old(slot)@ && init.admits(Err(e)),
            },
    {
        init.__init(slot)
    }

    /// Initializes the field `value`, which is pinned: it takes a [`PinInit`].
    pub fn value<E, I: PinInit<T, E>>(self, slot: &mut Slot<T>, init: I) -> (r: Result<(), E>)
        requires
            init.ready(),
            old(slot)@ is None,
        ensures
            match r {
                Ok(_) => final(slot)@ is Some && init.admits(Ok(final(slot)@->0)),
                Err(e) => final(slot)@ == old(slot)@ && init.admits(Err(e)),
            },
    {
        init.__pinned_init(slot)
    }
}

impl<T> PinData for PinnedOptionPinData<T> {
    type Datee = PinnedOption<T>;
}

impl<T> HasPinData for PinnedOption<T> {
    type PinData = PinnedOptionPinData<T>;

    fn __pin_data() -> Self::PinData {
        PinnedOptionPinData { _t: PhantomData }
    }
}

} // verus!
