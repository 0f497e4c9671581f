use vstd::prelude::*;

verus! {

/// One countdown step: a timer above zero loses one, a timer at zero stays
/// at zero — it is never driven negative.
pub open spec fn spec_tick(t: u8) -> u8 {
    if t > 0 {
        (t - 1) as u8
    } else {
        0u8
    }
}

/// The two independent 8-bit countdown timers, decremented together on an
/// external 60 Hz cadence. A sound timer above zero is the sole signal to the
/// host's audio collaborator that a tone should sound.
pub struct Timers {
    pub delay: u8,
    pub sound: u8,
}

impl Timers {
    /// Fresh timer unit, both counters zero.
    pub fn new() -> (t: Timers)
        ensures
            t.delay == 0,
            t.sound == 0,
    {
        Timers { delay: 0, sound: 0 }
    }

    /// One 60 Hz tick: each counter that is above zero is decremented by one;
    /// a counter at zero is left at zero.
    pub fn tick(&mut self)
        ensures
            final(self).delay == spec_tick(old(self).delay),
            final(self).sound == spec_tick(old(self).sound),
    {
        if self.delay > 0 {
            self.delay = self.delay - 1;
        }
        if self.sound > 0 {
            self.sound = self.sound - 1;
        }
    }
}

} // verus!
