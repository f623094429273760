//! The in-world clock: ticks advance the time of day, full days roll over;
//! and event cooldowns counted in ticks.

use vstd::prelude::*;

verus! {

/// Minutes in a day.
pub const MINUTES_PER_DAY: u32 = 1440;

/// The day and minute of day after `tick_minutes` more minutes.
pub fn advance_clock(day: u32, minute_of_day: u32, tick_minutes: u32) -> (r: (u32, u32))
    requires
        minute_of_day + tick_minutes <= u32::MAX,
        day + (minute_of_day + tick_minutes) / 1440 <= u32::MAX,
    ensures
        r.0 == day + (minute_of_day + tick_minutes) / 1440,
        r.1 == (minute_of_day + tick_minutes) % 1440,
        r.1 < 1440,
{
    let total = minute_of_day + tick_minutes;
    let mut d = day;
    let mut m = total;
    while m >= MINUTES_PER_DAY
        invariant
            m <= total,
            d + m / 1440 == day + total / 1440,
            m % 1440 == total % 1440,
            day + total / 1440 <= u32::MAX,
        decreases m,
    {
        assert((m - 1440) / 1440 == m / 1440 - 1) by (nonlinear_arith)
            requires
                m >= 1440,
        ;
        assert((m - 1440) % 1440 == m % 1440) by (nonlinear_arith)
            requires
                m >= 1440,
        ;
        d = d + 1;
        m = m - MINUTES_PER_DAY;
    }
    assert(m / 1440 == 0 && m % 1440 == m) by (nonlinear_arith)
        requires
            m < 1440,
    ;
    (d, m)
}

/// Whether an event last drawn at `last_tick` (never drawn counts as tick
/// 0) has cooled down by `tick`.
pub fn event_ready(tick: u64, last_tick: Option<u64>, cooldown_ticks: u64) -> (b: bool)
    ensures
        b == ({
            let last = match last_tick {
                Some(t) => t,
                None => 0,
            };
            (if tick >= last {
                tick - last
            } else {
                0
            }) >= cooldown_ticks
        }),
{
    let last = match last_tick {
        Some(t) => t,
        None => 0,
    };
    tick.saturating_sub(last) >= cooldown_ticks
}

} // verus!
