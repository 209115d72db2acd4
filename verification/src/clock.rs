//! Local instants and hour resolution: a calendar date with a time of day,
//! a total ordering over such instants, and the conversion of an hour-of-day
//! value into a concrete instant on a reference instant's calendar day.

use vstd::prelude::*;

verus! {

/// A point in local time: a proleptic Gregorian calendar date plus a time of
/// day, already expressed in the user's local timezone.
#[derive(Clone, Copy, Debug, PartialEq, Eq, Structural)]
pub struct Instant {
    pub year: i32,
    pub month: u32,
    pub day: u32,
    pub hour: u32,
    pub minute: u32,
    pub second: u32,
}

/// The calendar fields lie in their ordinary ranges.
pub open spec fn instant_wf(i: Instant) -> bool {
    &&& 1 <= i.month <= 12
    &&& 1 <= i.day <= 31
    &&& i.hour < 24
    &&& i.minute < 60
    &&& i.second < 60
}

/// Shift applied to years so that day indices stay non-negative over the
/// whole `i32` year range. A multiple of 400, so it moves the calendar by
/// whole 400-year cycles (146097 days each, a multiple of 7), leaving
/// ordering, differences and weekdays unchanged.
pub const YEAR_SHIFT: u64 = 2_400_000_000;

/// The calendar year shifted by `YEAR_SHIFT`, counting years as starting in
/// March so that a leap day is the last day of its year.
pub open spec fn shifted_year(y: int, m: int) -> int {
    if m <= 2 {
        y + YEAR_SHIFT - 1
    } else {
        y + YEAR_SHIFT
    }
}

/// Months renumbered from March: March is 0, February is 11.
pub open spec fn month_from_march(m: int) -> int {
    if m <= 2 {
        m + 9
    } else {
        m - 3
    }
}

/// The index of a calendar day: days elapsed since March 1st of shifted year
/// zero. Consecutive calendar days have consecutive indices, so differences
/// of indices are exact day counts and the index modulo 7 fixes the weekday.
pub open spec fn spec_day_index(y: int, m: int, d: int) -> int {
    let ys = shifted_year(y, m);
    let era = ys / 400;
    let yoe = ys % 400;
    let doy = (153 * month_from_march(m) + 2) / 5 + d - 1;
    era * 146097 + yoe * 365 + yoe / 4 - yoe / 100 + doy
}

/// The weekday of an instant's calendar date, as an index into the canonical
/// Sunday-first week: 0 is Sunday through 6 is Saturday. Day indices advance
/// by one per calendar day, so the index modulo 7 walks the week; the added
/// 3 anchors the cycle so that index 0 falls on Sunday.
pub open spec fn spec_weekday_index(i: Instant) -> int {
    (spec_day_index(i.year as int, i.month as int, i.day as int) + 3) % 7
}

/// Seconds from the calendar origin to an instant; the instants' total order.
pub open spec fn spec_total_seconds(i: Instant) -> int {
    spec_day_index(i.year as int, i.month as int, i.day as int) * 86400 + i.hour * 3600
        + i.minute * 60 + i.second
}

/// An inclusive bound on day indices of well-formed instants, used to show
/// that second counts fit comfortably in 64 bits.
pub proof fn lemma_day_index_bounds(y: int, m: int, d: int)
    requires
        i32::MIN <= y <= i32::MAX,
        1 <= m <= 12,
        1 <= d <= 31,
    ensures
        0 <= spec_day_index(y, m, d) < 0x200_0000_0000,
{
    let ys = shifted_year(y, m);
    assert(0 < ys <= i32::MAX + YEAR_SHIFT);
    assert(0 <= ys % 400 < 400);
    assert(ys / 400 * 400 + ys % 400 == ys) by (nonlinear_arith);
    assert(0 <= ys / 400 <= 11368710);
    assert(ys / 400 * 146097 <= 11368710 * 146097) by (nonlinear_arith)
        requires 0 <= ys / 400 <= 11368710;
    assert(0 <= month_from_march(m) <= 11);
    assert(0 <= (153 * month_from_march(m) + 2) / 5 <= 337);
}

impl Instant {
    /// Builds an instant from its calendar fields.
    pub fn new(year: i32, month: u32, day: u32, hour: u32, minute: u32, second: u32) -> (r:
        Instant)
        ensures
            r == (Instant { year, month, day, hour, minute, second }),
    {
        Instant { year, month, day, hour, minute, second }
    }

    /// The day index of this instant's calendar date.
    pub fn day_index(&self) -> (r: u64)
        requires
            instant_wf(*self),
        ensures
            r == spec_day_index(self.year as int, self.month as int, self.day as int),
    {
        let ys: u64 = if self.month <= 2 {
            (self.year as i64 + YEAR_SHIFT as i64 - 1) as u64
        } else {
            (self.year as i64 + YEAR_SHIFT as i64) as u64
        };
        let mfm: u64 = if self.month <= 2 {
            (self.month + 9) as u64
        } else {
            (self.month - 3) as u64
        };
        let era: u64 = ys / 400;
        let yoe: u64 = ys % 400;
        proof {
            lemma_day_index_bounds(self.year as int, self.month as int, self.day as int);
            assert(ys == shifted_year(self.year as int, self.month as int));
            assert(era * 400 + yoe == ys) by (nonlinear_arith)
                requires era == ys / 400, yoe == ys % 400;
            assert(era <= 11368710);
            assert(era * 146097 <= 11368710 * 146097) by (nonlinear_arith)
                requires 0 <= era <= 11368710;
        }
        let doy: u64 = (153 * mfm + 2) / 5 + (self.day as u64) - 1;
        era * 146097 + yoe * 365 + yoe / 4 - yoe / 100 + doy
    }

    /// The weekday of this instant's date: 0 is Sunday through 6 is Saturday.
    pub fn weekday_index(&self) -> (r: u64)
        requires
            instant_wf(*self),
        ensures
            r == spec_weekday_index(*self),
            r < 7,
    {
        proof {
            lemma_day_index_bounds(self.year as int, self.month as int, self.day as int);
        }
        (self.day_index() + 3) % 7
    }

    /// Seconds from the calendar origin to this instant.
    pub fn total_seconds(&self) -> (r: u64)
        requires
            instant_wf(*self),
        ensures
            r == spec_total_seconds(*self),
    {
        proof {
            lemma_day_index_bounds(self.year as int, self.month as int, self.day as int);
        }
        self.day_index() * 86400 + (self.hour as u64) * 3600 + (self.minute as u64) * 60 + (
        self.second as u64)
    }
}

} // verus!
