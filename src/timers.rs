//! The two countdown counters and the pacing arithmetic of the run loops.
use vstd::prelude::*;

verus! {

/// How often the counters decay, in ticks per second.
pub const TIMER_FREQ: u32 = 60;

/// A counter one step lower, stopping at zero.
pub open spec fn saturating_dec(v: u8) -> u8 {
    if v == 0 { 0 } else { (v - 1) as u8 }
}

/// The delay and buzzer counters, together with the one-shot start gate that
/// the decay task waits on before its first tick.
#[derive(Debug, Clone, Copy, PartialEq, Eq, Structural)]
pub struct Timers {
    pub delay: u8,
    pub buzzer: u8,
    pub started: bool,
}

impl Timers {
    /// Counters at power-on: delay 120, buzzer 0, start gate shut.
    pub fn new() -> (t: Timers)
        ensures
            t.delay == 120,
            t.buzzer == 0,
            !t.started,
    {
        Timers { delay: 120, buzzer: 0, started: false }
    }

    /// One tick: both counters go down by one, never below zero.
    pub fn update(&mut self)
        ensures
            final(self).delay == saturating_dec(old(self).delay),
            final(self).buzzer == saturating_dec(old(self).buzzer),
            final(self).started == old(self).started,
    {
        self.delay = self.delay.saturating_sub(1);
        self.buzzer = self.buzzer.saturating_sub(1);
    }

    /// Opens the start gate; the counters are left as they are.
    pub fn start(&mut self)
        ensures
            final(self).started,
            final(self).delay == old(self).delay,
            final(self).buzzer == old(self).buzzer,
    {
        self.started = true;
    }

    /// Whether the start gate is open.
    pub fn is_started(&self) -> (r: bool)
        ensures
            r == self.started,
    {
        self.started
    }
}

/// Nanoseconds in one period of a clock running at `freq` hertz.
pub fn period_nanos(freq: u32) -> (r: u64)
    requires
        freq > 0,
    ensures
        r == 1_000_000_000int / (freq as int),
{
    1_000_000_000u64 / (freq as u64)
}

/// How long to sleep so that a period that has already run for `elapsed`
/// nanoseconds lasts `period` nanoseconds: the remainder, or nothing when the
/// period is already over (a late cycle is not made up for).
pub fn remaining_nanos(period: u64, elapsed: u64) -> (r: u64)
    ensures
        elapsed >= period ==> r == 0,
        elapsed < period ==> r == period - elapsed,
{
    period.saturating_sub(elapsed)
}

} // verus!
