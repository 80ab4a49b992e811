//! The staged configuration of a creation. The type of a builder tells how
//! far it has come: a key policy must be chosen before the lock settings can
//! be given, and only a key of the caller's can be taken over by force.

use crate::create::{begin, Progress};
use crate::handle::{Cortex, CortexSync};
use core::marker::PhantomData;
use vstd::prelude::*;

verus! {

/// A stage of the builder.
pub trait BuilderState {

}

/// Nothing is known yet.
pub struct Uninitialized {}

/// The payload is known.
pub struct Initialized {}

/// The caller named the key.
pub struct WithKey {}

/// The key will be drawn at random.
pub struct WithRandomKey {}

impl BuilderState for Uninitialized {

}

impl BuilderState for Initialized {

}

impl BuilderState for WithKey {

}

impl BuilderState for WithRandomKey {

}

/// A stage at which the key policy is chosen.
pub trait KeyState {

}

impl KeyState for WithKey {

}

impl KeyState for WithRandomKey {

}

/// The configuration of a creation that is in the stage `S`.
pub struct CortexBuilder<T, S> {
    data: T,
    force_ownership: bool,
    key: Option<i32>,
    state: PhantomData<S>,
}

/// What a [`CortexBuilder`] stands for, whatever its stage.
pub struct CortexBuilderView<T> {
    /// The payload that the segment is to hold.
    pub data: T,
    /// Whether a segment that exists under the key is to be taken over.
    pub force_ownership: bool,
    /// The key of the caller's choice, if there is one.
    pub key: Option<i32>,
}

impl<T, S> View for CortexBuilder<T, S> {
    type V = CortexBuilderView<T>;

    closed spec fn view(&self) -> CortexBuilderView<T> {
        CortexBuilderView { data: self.data, force_ownership: self.force_ownership, key: self.key }
    }
}

impl<T> CortexBuilder<T, Uninitialized> {
    /// A builder for a segment that holds `data`.
    pub fn new(data: T) -> (builder: CortexBuilder<T, Initialized>)
        ensures
            builder@ == (CortexBuilderView { data, force_ownership: false, key: None }),
    {
        CortexBuilder { data, key: None, force_ownership: false, state: PhantomData }
    }
}

impl<T> CortexBuilder<T, Initialized> {
    /// Sets a key of the caller's choice.
    pub fn key(self, key: i32) -> (builder: CortexBuilder<T, WithKey>)
        ensures
            builder@ == (CortexBuilderView { key: Some(key), ..self@ }),
    {
        CortexBuilder {
            data: self.data,
            key: Some(key),
            force_ownership: self.force_ownership,
            state: PhantomData,
        }
    }

    /// Leaves the key to the random source.
    pub fn random_key(self) -> (builder: CortexBuilder<T, WithRandomKey>)
        ensures
            builder@ == (CortexBuilderView { key: None, ..self@ }),
    {
        CortexBuilder {
            data: self.data,
            key: None,
            force_ownership: self.force_ownership,
            state: PhantomData,
        }
    }
}

impl<T> CortexBuilder<T, WithKey> {
    /// Asks for a segment that exists under the key to be attached to and
    /// taken over, where the creation would otherwise fail: the handle will
    /// then be the one that removes the segment and its lock.
    ///
    /// Use this only where a segment that exists under the key is known to
    /// hold a `T`.
    pub fn force_ownership(self) -> (builder: CortexBuilder<T, WithKey>)
        ensures
            builder@ == (CortexBuilderView { force_ownership: true, ..self@ }),
    {
        CortexBuilder { data: self.data, key: self.key, force_ownership: true, state: PhantomData }
    }
}

impl<T, S: KeyState> CortexBuilder<T, S> {
    /// Begins the creation with lock settings, whose meaning is the lock's.
    pub fn with_lock<'a, L: CortexSync>(self, lock_settings: &'a L::Settings) -> (first: Progress<
        'a,
        T,
        L,
    >)
        ensures
            first@ == begin::<T, L>(
                self@.key,
                self@.data,
                self@.force_ownership,
                Some(lock_settings),
                vstd::layout::size_of::<T>() as usize,
            ),
    {
        Cortex::new(self.key, self.data, self.force_ownership, Some(lock_settings))
    }

    /// Begins the creation without lock settings: the lock is created as it
    /// is by default.
    pub fn with_default_lock<'a, L: CortexSync>(self) -> (first: Progress<'a, T, L>)
        ensures
            first@ == begin::<T, L>(
                self@.key,
                self@.data,
                self@.force_ownership,
                None,
                vstd::layout::size_of::<T>() as usize,
            ),
    {
        Cortex::new(self.key, self.data, self.force_ownership, None)
    }
}

} // verus!
