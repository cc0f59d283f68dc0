//! A timer register: a byte that counts down to zero, once per frame.

use vstd::prelude::*;

verus! {

/// The value of a timer after one tick.
pub open spec fn ticked(value: u8) -> u8 {
    if value > 0 {
        (value - 1) as u8
    } else {
        0
    }
}

/// The value of a timer after `ticks` ticks.
pub open spec fn ticked_times(value: u8, ticks: nat) -> u8
    decreases ticks,
{
    if ticks == 0 {
        value
    } else {
        ticked_times(ticked(value), (ticks - 1) as nat)
    }
}

pub struct TimerRegister {
    value: u8,
}

impl View for TimerRegister {
    type V = u8;

    closed spec fn view(&self) -> u8 {
        self.value
    }
}

impl Default for TimerRegister {
    fn default() -> (timer: TimerRegister)
        ensures
            timer@ == 0,
    {
        TimerRegister { value: 0 }
    }
}

impl TimerRegister {
    pub fn set(&mut self, value: u8)
        ensures
            final(self)@ == value,
    {
        self.value = value;
    }

    pub fn get(&self) -> (value: u8)
        ensures
            value == self@,
    {
        self.value
    }

    /// Counts down by one; a timer at zero stays there.
    pub fn tick(&mut self)
        ensures
            final(self)@ == ticked(old(self)@),
    {
        self.value = self.value.saturating_sub(1);
    }
}

/// A timer set to `value` reads `value - ticks` after `ticks` ticks, and zero
/// once it has been ticked `value` times or more: it never wraps around.
pub proof fn lemma_ticked_times(value: u8, ticks: nat)
    ensures
        ticked_times(value, ticks) == if ticks <= value {
            value - ticks
        } else {
            0
        },
    decreases ticks,
{
    if ticks > 0 {
        lemma_ticked_times(ticked(value), (ticks - 1) as nat);
    }
}

} // verus!
