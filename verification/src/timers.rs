use vstd::prelude::*;

verus! {

/// The two 8-bit countdown timers of the machine: the delay timer and the
/// sound timer. A periodic tick, driven at a fixed real-time rate by the
/// caller, decrements each counter toward zero; neither ever wraps below
/// zero. The executor reads and overwrites the counters through register
/// transfers; it never decrements them itself, so ticking is decoupled from
/// how many instruction cycles run between two ticks.
#[derive(Debug, Clone, Copy, PartialEq, Eq, Structural)]
pub struct Timers {
    pub delay: u8,
    pub sound: u8,
}

/// One tick: each counter is decremented by one if it is nonzero, and
/// saturates at zero otherwise.
pub open spec fn spec_tick(t: Timers) -> Timers {
    Timers {
        delay: if t.delay > 0 { (t.delay - 1) as u8 } else { 0 },
        sound: if t.sound > 0 { (t.sound - 1) as u8 } else { 0 },
    }
}

/// The state of the timers after `k` ticks.
pub open spec fn spec_after_ticks(t: Timers, k: nat) -> Timers
    decreases k,
{
    if k == 0 {
        t
    } else {
        spec_after_ticks(spec_tick(t), (k - 1) as nat)
    }
}

impl Timers {
    /// Both counters start at zero.
    pub fn new() -> (t: Timers)
        ensures
            t.delay == 0,
            t.sound == 0,
    {
        Timers { delay: 0, sound: 0 }
    }

    /// Apply one tick: decrement each nonzero counter by one, saturating at
    /// zero. Returns whether a sound should be emitted, which is the case
    /// exactly when the sound counter was nonzero before the tick.
    pub fn tick(&mut self) -> (beep: bool)
        ensures
            *final(self) == spec_tick(*old(self)),
            beep == (old(self).sound > 0),
    {
        let beep = self.sound > 0;
        if self.delay > 0 {
            self.delay = self.delay - 1;
        }
        if self.sound > 0 {
            self.sound = self.sound - 1;
        }
        beep
    }

    /// Overwrite the delay counter; the sound counter is untouched.
    pub fn set_delay(&mut self, value: u8)
        ensures
            final(self).delay == value,
            final(self).sound == old(self).sound,
    {
        self.delay = value;
    }

    /// Overwrite the sound counter; the delay counter is untouched.
    pub fn set_sound(&mut self, value: u8)
        ensures
            final(self).sound == value,
            final(self).delay == old(self).delay,
    {
        self.sound = value;
    }

    /// Read the delay counter.
    pub fn read_delay(&self) -> (v: u8)
        ensures
            v == self.delay,
    {
        self.delay
    }
}

/// Ticks only count down, and saturate: after `k` ticks each counter holds
/// its old value minus `k`, or zero once it has run out. In particular a
/// counter that was just overwritten with zero stays zero no matter how many
/// ticks run before the next read, so a write of zero is observed by every
/// later read regardless of tick interleaving.
pub proof fn lemma_ticks_saturate(t: Timers, k: nat)
    ensures
        spec_after_ticks(t, k).delay == if t.delay >= k {
            t.delay - k
        } else {
            0
        },
        spec_after_ticks(t, k).sound == if t.sound >= k {
            t.sound - k
        } else {
            0
        },
    decreases k,
{
    if k > 0 {
        lemma_ticks_saturate(spec_tick(t), (k - 1) as nat);
    }
}

} // verus!
