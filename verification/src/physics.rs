//! The clock that paces the physics at a fixed rate, whatever the frame rate.

use vstd::prelude::*;

use crate::constants::NANOS_PER_SECOND;

verus! {

/// The clock of the physics: it turns the time that frames take into a whole
/// number of ticks of fixed length, and carries what is left of a tick over
/// to the next frame.
///
/// Time is counted in units of which one nanosecond holds `rate` and one
/// tick holds [`NANOS_PER_SECOND`], so that a tick lasts one second divided
/// by `rate`, with no rounding.
pub struct Timestep {
    rate: u64,
    max_ticks: u32,
    debt: u64,
}

impl Timestep {
    /// Ticks per second.
    pub closed spec fn rate(&self) -> nat {
        self.rate as nat
    }

    /// The most ticks that one frame may fire.
    pub closed spec fn max_ticks(&self) -> nat {
        self.max_ticks as nat
    }

    /// The time carried over, in units of which a tick holds
    /// [`NANOS_PER_SECOND`].
    pub closed spec fn debt(&self) -> nat {
        self.debt as nat
    }

    /// Less than one tick is carried over.
    pub open spec fn wf(&self) -> bool {
        self.debt() < NANOS_PER_SECOND
    }

    /// The time to account for in a frame that took `elapsed_nanos`: what
    /// was carried over and what the frame adds.
    pub open spec fn due(&self, elapsed_nanos: nat) -> nat {
        self.debt() + elapsed_nanos * self.rate()
    }

    /// A clock of `rate` ticks per second that fires at most `max_ticks` in
    /// one frame, with nothing carried over.
    pub fn new(rate: u64, max_ticks: u32) -> (clock: Self)
        ensures
            clock.wf(),
            clock.rate() == rate,
            clock.max_ticks() == max_ticks,
            clock.debt() == 0,
    {
        Timestep { rate, max_ticks, debt: 0 }
    }

    /// Accounts for a frame that took `elapsed_nanos` and gives the number
    /// of ticks to run now: one for each whole tick that is due, but no more
    /// than the clock's limit, beyond which whole ticks are dropped. What is
    /// left of a tick is carried over.
    pub fn advance(&mut self, elapsed_nanos: u64) -> (ticks: u32)
        requires
            old(self).wf(),
        ensures
            final(self).wf(),
            final(self).rate() == old(self).rate(),
            final(self).max_ticks() == old(self).max_ticks(),
            final(self).debt() == old(self).due(elapsed_nanos as nat) % (NANOS_PER_SECOND as nat),
            ticks == if old(self).due(elapsed_nanos as nat) / (NANOS_PER_SECOND as nat) <= old(
                self,
            ).max_ticks() {
                old(self).due(elapsed_nanos as nat) / (NANOS_PER_SECOND as nat)
            } else {
                old(self).max_ticks()
            },
            ticks < old(self).max_ticks() ==> ticks * NANOS_PER_SECOND + final(self).debt() == old(
                self,
            ).due(elapsed_nanos as nat),
    {
        assert(elapsed_nanos * self.rate <= 0xffff_ffff_ffff_ffff * 0xffff_ffff_ffff_ffff)
            by (nonlinear_arith)
            requires
                0 <= elapsed_nanos <= 0xffff_ffff_ffff_ffff,
                0 <= self.rate <= 0xffff_ffff_ffff_ffff,
        ;
        let due: u128 = self.debt as u128 + elapsed_nanos as u128 * self.rate as u128;
        let owed: u128 = due / NANOS_PER_SECOND as u128;
        self.debt = (due % NANOS_PER_SECOND as u128) as u64;
        if owed <= self.max_ticks as u128 {
            owed as u32
        } else {
            self.max_ticks
        }
    }
}

} // verus!
