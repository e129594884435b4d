//! Durations of time counted in integer units (hours down to nanoseconds, held in `u32`
//! or `u64`), with exact, overflow-checked conversions between units and integer widths,
//! arithmetic and comparisons across units, conversions to and from the span of a
//! `core::time::Duration`, and clocks that read instants.

pub mod arith;
pub mod clock;
pub mod core_duration;
pub mod duration;
pub mod error;
pub mod laws;
pub mod period;
pub mod time_int;
pub mod timer;
pub mod units;
pub mod unit_laws;

pub use arith::DurationOps;
pub use clock::{Clock, Instant};
pub use core_duration::CoreDuration;
pub use duration::{Duration, TryConvertFrom, TryConvertInto};
pub use error::ConversionError;
pub use period::Period;
pub use time_int::TimeInt;
pub use timer::Timer;
pub use units::{Hours, Microseconds, Milliseconds, Minutes, Nanoseconds, Seconds};
