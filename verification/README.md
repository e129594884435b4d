# embedded_time

Durations of time counted in integer units — hours, minutes, seconds, milliseconds,
microseconds and nanoseconds, each held in a `u32` or a `u64` — with conversions between
units and integer widths that are exact (rounded down) and fail only when the result
does not fit, arithmetic and comparisons across
units, the span of a `core::time::Duration`, and clocks that read instants. The library
is written in Verus: every function in `src/` that the library implements carries a
contract that Verus proves (`Clock::period` and `Clock::now` are left to the clock's
implementer and promise nothing).

- `src/period.rs`: periods as fractions of a second, their comparison and exact quotient.
- `src/time_int.rs`: the integer types of a count (`u32`, `u64`) and their checked scaling.
- `src/duration.rs`: the `Duration` trait, conversions from and into ticks, and
  `TryConvertFrom` / `TryConvertInto`.
- `src/units.rs`: the six unit types, their `+`, `-` and `%` across units, and their
  conversions to and from `CoreDuration`.
- `src/arith.rs`: sums, differences, remainders and comparisons across units.
- `src/core_duration.rs`: the seconds-and-nanoseconds span of `core::time::Duration`.
- `src/clock.rs`: the `Clock` trait and wrapping instants.
- `src/timer.rs`, `src/timer/param.rs`: timers whose kind and state are type parameters.
- `src/laws.rs`: proved properties that span several calls.
- `app/`: the blocking delay loop and the exchange with `core::time::Duration`.
