//! Timers of a clock, whose kind and state are tracked in their type.

pub mod param;

use vstd::prelude::*;

use core::marker::PhantomData;

use param::{Disarmed, OneShot, Unset};

verus! {

/// A timer of the clock `C` for durations of type `Dur`; `Type` is its kind (one-shot or
/// periodic) and `State` its state (disarmed, armed or running).
pub struct Timer<Type, State, C, Dur> {
    duration: Option<Dur>,
    clock: PhantomData<C>,
    kind: PhantomData<Type>,
    state: PhantomData<State>,
}

impl<Type, State, C, Dur> Timer<Type, State, C, Dur> {
    /// The duration the timer holds, if one has been set.
    pub closed spec fn held_duration(self) -> Option<Dur> {
        self.duration
    }
}

impl<C, Dur> Timer<Unset, Unset, C, Dur> {
    /// A new one-shot timer, disarmed, with no duration set.
    pub fn new() -> (t: Timer<OneShot, Disarmed, C, Dur>)
        ensures
            t.held_duration() is None,
    {
        Timer { duration: Option::None, clock: PhantomData, kind: PhantomData, state: PhantomData }
    }
}

} // verus!
