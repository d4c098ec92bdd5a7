use vstd::prelude::*;

use crate::timestamp::{Timestamp, NANOS_PER_SEC, SECS_PER_DAY};

verus! {

/// The most entries a feed holds at once.
pub const WINDOW_DAYS: u64 = 100;

pub const NANOS_PER_DAY: i128 = 86400000000000;

/// Whole days from `start` to `now`, rounded down (negative when `now` is
/// before `start`).
pub open spec fn elapsed_days(start: Timestamp, now: Timestamp) -> int {
    (now.instant() - start.instant()) / (NANOS_PER_DAY as int)
}

/// One past the newest day index exposed at `now`.
pub open spec fn window_end(start: Timestamp, now: Timestamp) -> int {
    if elapsed_days(start, now) + 1 > 0 {
        elapsed_days(start, now) + 1
    } else {
        0
    }
}

/// The oldest day index exposed at `now`.
pub open spec fn window_start(start: Timestamp, now: Timestamp) -> int {
    if window_end(start, now) - WINDOW_DAYS > 0 {
        window_end(start, now) - WINDOW_DAYS
    } else {
        0
    }
}

/// `t` moved `days` days later, in the same offset.
pub open spec fn add_days(t: Timestamp, days: int) -> Timestamp {
    Timestamp { unix_secs: (t.unix_secs + days * SECS_PER_DAY) as i64, ..t }
}

/// The subtitle that titles the entry of `day` when `count` subtitles are
/// known: that day's own, or the last one once the days run past them.
pub open spec fn title_index(day: int, count: int) -> int {
    if day < count - 1 {
        day
    } else {
        count - 1
    }
}

/// Whole days from `start` to `now`, rounded down.
pub fn days_between(start: &Timestamp, now: &Timestamp) -> (r: i64)
    requires
        start.wf(),
        now.wf(),
    ensures
        r == elapsed_days(*start, *now),
{
    let secs: i128 = now.unix_secs as i128 - start.unix_secs as i128;
    assert(-700000000000000000000 < secs * 1000000000 < 700000000000000000000) by (nonlinear_arith)
        requires
            -700000000000 < secs < 700000000000,
    ;
    let diff: i128 = secs * (NANOS_PER_SEC as i128) + (now.nanos as i128 - start.nanos as i128);
    assert(diff == now.instant() - start.instant());
    let days: i128 = if diff >= 0 {
        diff / NANOS_PER_DAY
    } else {
        let up = (-diff + (NANOS_PER_DAY - 1)) / NANOS_PER_DAY;
        assert(-up == (diff as int) / (NANOS_PER_DAY as int)) by (nonlinear_arith)
            requires
                diff < 0,
                up == (-diff + (NANOS_PER_DAY - 1)) / (NANOS_PER_DAY as int),
        ;
        -up
    };
    assert(-10000000 <= days <= 10000000) by (nonlinear_arith)
        requires
            days == (diff as int) / (NANOS_PER_DAY as int),
            -700000000000000000000 <= diff <= 700000000000000000000,
    ;
    days as i64
}

/// The day indices `[min, max)` on show at `now`: up to the current day
/// counted from `start`, and at most `WINDOW_DAYS` of them. Empty when `now`
/// is before `start`.
pub fn replay_window(start: &Timestamp, now: &Timestamp) -> (r: (u64, u64))
    requires
        start.wf(),
        now.wf(),
    ensures
        r.0 == window_start(*start, *now),
        r.1 == window_end(*start, *now),
        r.0 <= r.1,
        r.1 - r.0 <= WINDOW_DAYS,
        r.1 <= 10000001,
{
    let days = days_between(start, now);
    let max: u64 = if days + 1 > 0 {
        (days + 1) as u64
    } else {
        0
    };
    let min: u64 = if max > WINDOW_DAYS {
        max - WINDOW_DAYS
    } else {
        0
    };
    (min, max)
}

/// `t` moved `days` days later.
pub fn shift_days(t: &Timestamp, days: u64) -> (r: Timestamp)
    requires
        t.wf(),
        days <= 10000001,
    ensures
        r == add_days(*t, days as int),
{
    Timestamp { unix_secs: t.unix_secs + (days as i64) * SECS_PER_DAY, ..*t }
}

/// Index of the subtitle that titles the entry of `day`, of `count` known.
pub fn subtitle_index(day: u64, count: usize) -> (r: usize)
    requires
        count > 0,
    ensures
        r == title_index(day as int, count as int),
        r < count,
{
    if day < (count - 1) as u64 {
        day as usize
    } else {
        count - 1
    }
}

/// When `now` falls `d` whole days after `start` (at least `d` days and less
/// than `d + 1` later), the window ends after day `d` and holds the last
/// `WINDOW_DAYS` days up to it, none before the start; when `now` is before
/// `start` (`d < 0`) the window is empty.
pub proof fn lemma_window_on_day(start: Timestamp, now: Timestamp, d: int)
    requires
        start.instant() + d * NANOS_PER_DAY <= now.instant() < start.instant() + (d + 1)
            * NANOS_PER_DAY,
    ensures
        elapsed_days(start, now) == d,
        d >= 0 ==> window_end(start, now) == d + 1,
        d >= 0 ==> window_start(start, now) == if d + 1 > WINDOW_DAYS {
            d + 1 - WINDOW_DAYS
        } else {
            0
        },
        d < 0 ==> window_end(start, now) == 0 && window_start(start, now) == 0,
{
    let diff = now.instant() - start.instant();
    assert(diff / (NANOS_PER_DAY as int) == d) by (nonlinear_arith)
        requires
            d * NANOS_PER_DAY <= diff < (d + 1) * NANOS_PER_DAY,
    ;
}

} // verus!
