//! The type-state parameters of a timer: its kind and its state.

use vstd::prelude::*;

verus! {

/// No kind or state chosen yet.
pub struct Unset;

/// A timer that expires once.
pub struct OneShot;

/// A timer that expires again and again.
pub struct Periodic;

/// A timer whose duration is not set to run.
pub struct Disarmed;

/// A timer whose duration is set but that has not started.
pub struct Armed;

/// A timer that is counting down.
pub struct Running;

} // verus!
