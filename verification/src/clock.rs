//! Elapsed-time accumulators: one per unit, and one global game clock.
//!
//! Clocks count microseconds, advance once per tick by the frame's delta,
//! and are read-only to scripts.

use vstd::prelude::*;

verus! {

pub const MICROS_PER_SECOND: u64 = 1_000_000;

/// A clock advanced by one frame's delta, saturating at the end of its
/// range rather than wrapping back.
pub open spec fn advanced(c: Clock, delta_micros: u64) -> Clock {
    Clock {
        elapsed_micros: if c.elapsed_micros + delta_micros <= u64::MAX {
            (c.elapsed_micros + delta_micros) as u64
        } else {
            u64::MAX
        },
    }
}

/// A monotonically increasing elapsed-time accumulator.
#[derive(Clone, Copy, PartialEq, Eq, Structural, Debug)]
pub struct Clock {
    pub elapsed_micros: u64,
}

impl Clock {
    pub fn new() -> (c: Clock)
        ensures
            c.elapsed_micros == 0,
    {
        Clock { elapsed_micros: 0 }
    }

    /// Advance by one frame's delta. The accumulator saturates at the end
    /// of its range rather than wrapping back.
    pub fn tick(&mut self, delta_micros: u64)
        ensures
            *final(self) == advanced(*old(self), delta_micros),
            old(self).elapsed_micros <= final(self).elapsed_micros,
    {
        self.elapsed_micros = self.elapsed_micros.saturating_add(delta_micros);
    }

    /// Whole seconds elapsed; the host turns the exact microsecond count
    /// into a fractional reading where one is wanted.
    pub fn elapsed_secs(&self) -> (s: u64)
        ensures
            s == self.elapsed_micros / MICROS_PER_SECOND,
    {
        self.elapsed_micros / MICROS_PER_SECOND
    }
}

} // verus!
