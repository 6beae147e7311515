//! Time, from the ticks of the platform's timer.
use vstd::prelude::*;
use crate::config::CLOCK_FREQ;

verus! {

/// Number of timer interrupts per second.
pub const TIME_SLICE: u64 = 100;

/// Milliseconds per second.
pub const MSEC_PER_SEC: u64 = 1000;

/// Microseconds per second.
pub const USEC_PER_SEC: u64 = 1_000_000;

/// Nanoseconds per second.
pub const NSEC_PER_SEC: u64 = 1_000_000_000;

/// A time as seconds and microseconds.
#[derive(Clone, Copy, Debug, PartialEq, Eq, Structural)]
pub struct TimeVal {
    pub sec: u64,
    pub usec: u64,
}

/// The time in milliseconds at tick count `ticks`.
pub fn get_time_ms(ticks: u64) -> (r: u64)
    ensures
        r == ticks / 12_500,
{
    ticks / (CLOCK_FREQ / MSEC_PER_SEC)
}

/// The time in nanoseconds at tick count `ticks`, counted in whole microseconds of 12 ticks
/// (the frequency divided by a million, rounded down) and multiplied by 1000.
pub fn get_time_ns(ticks: u64) -> (r: u64)
    requires
        (ticks / 12) * 1000 <= u64::MAX,
    ensures
        r == (ticks / 12) * 1000,
{
    (ticks / (CLOCK_FREQ / USEC_PER_SEC)) * MSEC_PER_SEC
}

/// The time in microseconds at tick count `ticks`, with the frequency divided by a million
/// rounded down to 12.
pub fn get_time_us(ticks: u64) -> (r: u64)
    ensures
        r == ticks / 12,
{
    ticks / (CLOCK_FREQ / USEC_PER_SEC)
}

/// The time in whole seconds at tick count `ticks`.
pub fn get_time_s(ticks: u64) -> (r: u64)
    ensures
        r == ticks / 12_500_000,
{
    ticks / CLOCK_FREQ
}

/// The time at tick count `ticks` as seconds and microseconds.
pub fn get_timeval(ticks: u64) -> (r: TimeVal)
    ensures
        r.sec == ticks / 12_500_000,
        r.usec == (ticks % 12_500_000) * 1_000_000 / 12_500_000,
        r.usec < 1_000_000,
{
    let sec = ticks / CLOCK_FREQ;
    let usec = (ticks % CLOCK_FREQ) * USEC_PER_SEC / CLOCK_FREQ;
    proof {
        let m = ticks % 12_500_000;
        assert(m < 12_500_000);
        assert(m * 1_000_000 / 12_500_000 < 1_000_000) by (nonlinear_arith)
            requires
                m < 12_500_000,
        ;
    }
    TimeVal { sec, usec }
}

/// The tick count at which the next timer interrupt is due: one time slice after `ticks`.
pub fn next_trigger(ticks: u64) -> (r: u64)
    requires
        ticks + 125_000 <= u64::MAX,
    ensures
        r == ticks + 125_000,
{
    ticks + CLOCK_FREQ / TIME_SLICE
}

} // verus!
