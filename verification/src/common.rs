//! Status derivation and presentation formatting: resolving an hour-of-day
//! value to an instant on the reference day, classifying a venue as open,
//! closed or opening later, and rendering instants and statuses as display
//! strings.

use vstd::prelude::*;

use crate::clock::{instant_wf, spec_total_seconds, spec_weekday_index, Instant};
use crate::data::{canonical_day, canonical_days, Brewery, Hours};
use crate::text::{spec_decimal, spec_two_digits, str_eq, two_digit_string, u64_to_string};

verus! {

/// A venue's state relative to a reference instant. `OpenLater` carries the
/// whole minutes until opening, truncated toward zero. `Error` marks a
/// schedule whose open and close instants are not paired (one resolved, one
/// absent), a data-integrity failure that validation would have rejected.
#[derive(Clone, Copy, Debug, PartialEq, Eq, Structural)]
pub enum OpenStatus {
    Open,
    Closed,
    OpenLater(u64),
    Error,
}

/// The status of a venue whose resolved opening and closing instants are
/// `open` and `close`, seen from the instant `now`. Both boundaries are
/// inclusive: a reference equal to the opening or the closing instant counts
/// as open.
pub open spec fn spec_status(now: Instant, open: Option<Instant>, close: Option<Instant>) -> OpenStatus {
    match (open, close) {
        (Some(o), Some(c)) => if spec_total_seconds(now) < spec_total_seconds(o) {
            OpenStatus::OpenLater(
                (((spec_total_seconds(o) - spec_total_seconds(now)) / 60) as u64),
            )
        } else if spec_total_seconds(now) <= spec_total_seconds(c) {
            OpenStatus::Open
        } else {
            OpenStatus::Closed
        },
        (None, None) => OpenStatus::Closed,
        _ => OpenStatus::Error,
    }
}

/// What any resolution of hour `hour` against the reference `now` must look
/// like: when it yields an instant, the hour was on the clock and the
/// instant is `now`'s calendar day at that hour, on the minute; an hour off
/// the clock (the `-1` sentinel included) never yields an instant. Whether
/// an on-the-clock hour yields one is the timezone's verdict.
pub open spec fn resolution_ok(r: Option<Instant>, hour: int, now: Instant) -> bool {
    &&& (r matches Some(o) ==> 0 <= hour <= 23 && o == (Instant {
        hour: hour as u32,
        minute: 0,
        second: 0,
        ..now
    }) && instant_wf(o))
    &&& (!(0 <= hour <= 23) ==> r is None)
}

/// Converts an hour-of-day value into the instant at that hour on a
/// reference instant's calendar day.
pub trait ToTodayHour {
    /// The hour-of-day value that `self` encodes; `-1` means closed all day.
    spec fn hour_val(&self) -> int;

    /// The instant at `self`'s hour, on the minute, on `now`'s calendar day.
    /// `None` when the hour is out of the clock's range (the `-1` sentinel
    /// included), and also when the machine's timezone has no valid,
    /// unambiguous local time at that hour on that day.
    fn to_today(&self, now: &Instant) -> (r: Option<Instant>)
        requires
            instant_wf(*now),
        ensures
            resolution_ok(r, self.hour_val(), *now),
    ;
}

/// Relies on chrono's `TimeZone::with_ymd_and_hms` on `Local`, narrowed by
/// `MappedLocalTime::single`: the call yields a datetime exactly when the
/// fields form a valid calendar date and time whose local interpretation
/// exists and is unambiguous in the machine's timezone. That verdict depends
/// on the timezone database, so nothing is promised of the result.
#[verifier::external_body]
fn local_time_exists(year: i32, month: u32, day: u32, hour: u32) -> bool {
    chrono::TimeZone::with_ymd_and_hms(&chrono::Local, year, month, day, hour, 0, 0)
        .single()
        .is_some()
}

/// Places `hour` on `now`'s calendar day when possible. `representable` is
/// the timezone's verdict on whether that local time exists unambiguously;
/// the result is `Some` exactly when the hour is in the clock's range and
/// the verdict is positive, and then holds `now`'s date at `hour:00:00`.
pub fn resolve_at(now: &Instant, hour: i32, representable: bool) -> (r: Option<Instant>)
    requires
        instant_wf(*now),
    ensures
        r is Some <==> (0 <= hour <= 23 && representable),
        r is Some ==> r->0 == (Instant { hour: hour as u32, minute: 0, second: 0, ..*now }),
        resolution_ok(r, hour as int, *now),
{
    if 0 <= hour && hour <= 23 && representable {
        Some(
            Instant {
                year: now.year,
                month: now.month,
                day: now.day,
                hour: hour as u32,
                minute: 0,
                second: 0,
            },
        )
    } else {
        None
    }
}

impl ToTodayHour for i32 {
    open spec fn hour_val(&self) -> int {
        *self as int
    }

    fn to_today(&self, now: &Instant) -> (r: Option<Instant>) {
        let representable = if 0 <= *self && *self <= 23 {
            local_time_exists(now.year, now.month, now.day, *self as u32)
        } else {
            false
        };
        resolve_at(now, *self, representable)
    }
}

/// Classifies a venue against the reference instant `now` from its resolved
/// opening and closing instants. Same inputs always yield the same status:
/// the result is a function of the three arguments alone.
pub fn format_upcoming(now: &Instant, open: Option<&Instant>, close: Option<&Instant>) -> (r:
    OpenStatus)
    requires
        instant_wf(*now),
        open matches Some(o) ==> instant_wf(*o),
        close matches Some(c) ==> instant_wf(*c),
    ensures
        r == spec_status(
            *now,
            match open {
                Some(o) => Some(*o),
                None => None,
            },
            match close {
                Some(c) => Some(*c),
                None => None,
            },
        ),
{
    match (open, close) {
        (Some(o), Some(c)) => {
            let tn = now.total_seconds();
            let to = o.total_seconds();
            let tc = c.total_seconds();
            if tn < to {
                OpenStatus::OpenLater((to - tn) / 60)
            } else if tn <= tc {
                OpenStatus::Open
            } else {
                OpenStatus::Closed
            }
        },
        (None, None) => OpenStatus::Closed,
        _ => OpenStatus::Error,
    }
}

impl OpenStatus {
    /// The display label of this status: the literal `OPEN`, `CLOSED` or
    /// `ERR`, or the minutes until opening followed by ` min`.
    pub fn label(&self) -> (r: String)
        ensures
            r@ == spec_status_label(*self),
    {
        match self {
            OpenStatus::Open => String::from_str("OPEN"),
            OpenStatus::Closed => String::from_str("CLOSED"),
            OpenStatus::OpenLater(m) => {
                let r = u64_to_string(*m).concat(" min");
                proof {
                    assert(r@ =~= spec_status_label(*self));
                }
                r
            },
            OpenStatus::Error => String::from_str("ERR"),
        }
    }
}

/// The hour of a 24-hour clock moved to the 12-hour dial: hours 0 and 12
/// show as 12, every other hour as its remainder.
pub open spec fn spec_hour12(h: int) -> int {
    if h % 12 == 0 {
        12
    } else {
        h % 12
    }
}

/// The display text of a clock reading. An absent instant shows as the
/// literal `CLOSED`. On the 12-hour dial the hour runs `01`-`12` with an
/// uppercase ` AM`/` PM` suffix; on the 24-hour dial it runs `00`-`23`.
/// Minutes are always two digits.
pub open spec fn spec_clock_text(date: Option<Instant>, ampm: bool) -> Seq<char> {
    match date {
        None => "CLOSED"@,
        Some(d) => if ampm {
            spec_two_digits(spec_hour12(d.hour as int)) + ":"@ + spec_two_digits(d.minute as int)
                + (if d.hour < 12 {
                " AM"@
            } else {
                " PM"@
            })
        } else {
            spec_two_digits(d.hour as int) + ":"@ + spec_two_digits(d.minute as int)
        },
    }
}

/// Renders one resolved instant for display. Same inputs always yield the
/// same text: the result is a function of the two arguments alone.
pub fn format_time(date: Option<Instant>, ampm: bool) -> (r: String)
    requires
        date matches Some(d) ==> instant_wf(d),
    ensures
        r@ == spec_clock_text(date, ampm),
{
    match date {
        Some(d) => {
            if ampm {
                let h12: u32 = if d.hour % 12 == 0 {
                    12
                } else {
                    d.hour % 12
                };
                let mut s = two_digit_string(h12);
                s.append(":");
                s.append(two_digit_string(d.minute).as_str());
                s.append(
                    if d.hour < 12 {
                        " AM"
                    } else {
                        " PM"
                    },
                );
                proof {
                    assert(s@ =~= spec_clock_text(date, ampm));
                }
                s
            } else {
                let mut s = two_digit_string(d.hour);
                s.append(":");
                s.append(two_digit_string(d.minute).as_str());
                proof {
                    assert(s@ =~= spec_clock_text(date, ampm));
                }
                s
            }
        },
        None => String::from_str("CLOSED"),
    }
}

/// The display text of a schedule's open-close range: both instants present
/// give `<open> - <close>` in clock text, both absent give `CLOSED`, and an
/// unpaired schedule (exactly one present) gives `ERROR` — the same
/// detection condition under which status derivation reports `Error`.
pub open spec fn spec_range_text(open: Option<Instant>, close: Option<Instant>, ampm: bool) -> Seq<
    char,
> {
    match (open, close) {
        (Some(_), Some(_)) => spec_clock_text(open, ampm) + " - "@ + spec_clock_text(close, ampm),
        (None, None) => "CLOSED"@,
        _ => "ERROR"@,
    }
}

/// Renders a schedule's open-close range for display. Same inputs always
/// yield the same text: the result is a function of the three arguments
/// alone.
pub fn format_hours(open: Option<Instant>, close: Option<Instant>, ampm: bool) -> (r: String)
    requires
        open matches Some(o) ==> instant_wf(o),
        close matches Some(c) ==> instant_wf(c),
    ensures
        r@ == spec_range_text(open, close, ampm),
{
    match (&open, &close) {
        (Some(_), Some(_)) => {
            let mut s = format_time(open, ampm);
            s.append(" - ");
            s.append(format_time(close, ampm).as_str());
            proof {
                assert(s@ =~= spec_range_text(open, close, ampm));
            }
            s
        },
        (None, None) => String::from_str("CLOSED"),
        _ => String::from_str("ERROR"),
    }
}

/// The display label of a status.
pub open spec fn spec_status_label(s: OpenStatus) -> Seq<char> {
    match s {
        OpenStatus::Open => "OPEN"@,
        OpenStatus::Closed => "CLOSED"@,
        OpenStatus::OpenLater(m) => spec_decimal(m as nat) + " min"@,
        OpenStatus::Error => "ERR"@,
    }
}

/// The canonical name of an instant's weekday.
pub fn weekday_name(now: &Instant) -> (r: &'static str)
    requires
        instant_wf(*now),
    ensures
        r@ == canonical_days()[spec_weekday_index(*now)],
{
    let w = now.weekday_index();
    canonical_day(w as usize)
}

/// The schedule stored under the first entry keyed by `day`, if any.
pub open spec fn spec_schedule_for(entries: Seq<(String, Hours)>, day: Seq<char>) -> Option<Hours>
    decreases entries.len(),
{
    if entries.len() == 0 {
        None
    } else if entries[0].0@ == day {
        Some(entries[0].1)
    } else {
        spec_schedule_for(entries.drop_first(), day)
    }
}

/// Looking up a key is unchanged by dropping a prefix of entries none of
/// which carries that key.
proof fn lemma_schedule_for_skip(entries: Seq<(String, Hours)>, day: Seq<char>, j: int)
    requires
        0 <= j <= entries.len(),
        forall|j2: int| 0 <= j2 < j ==> (#[trigger] entries[j2].0)@ != day,
    ensures
        spec_schedule_for(entries, day) == spec_schedule_for(entries.skip(j), day),
    decreases j,
{
    if j > 0 {
        assert(entries[0].0@ != day);
        assert forall|j2: int| 0 <= j2 < j - 1 implies (#[trigger] entries.drop_first()[j2].0)@
            != day by {
            assert(entries.drop_first()[j2] == entries[j2 + 1]);
        }
        lemma_schedule_for_skip(entries.drop_first(), day, j - 1);
        assert(entries.drop_first().skip(j - 1) =~= entries.skip(j));
    } else {
        assert(entries.skip(0) =~= entries);
    }
}

/// Finds the schedule of the first entry keyed by `day` in a venue's week.
pub fn day_schedule(b: &Brewery, day: &str) -> (r: Option<Hours>)
    ensures
        r == spec_schedule_for(b.hours@, day@),
{
    let ghost entries = b.hours@;
    let mut j: usize = 0;
    while j < b.hours.len()
        invariant
            j <= b.hours.len(),
            entries == b.hours@,
            forall|j2: int| 0 <= j2 < j ==> (#[trigger] entries[j2].0)@ != day@,
        decreases b.hours.len() - j,
    {
        if str_eq(b.hours[j].0.as_str(), day) {
            proof {
                lemma_schedule_for_skip(entries, day@, j as int);
                assert(entries.skip(j as int)[0] == entries[j as int]);
            }
            return Some(b.hours[j].1);
        }
        j += 1;
    }
    proof {
        lemma_schedule_for_skip(entries, day@, entries.len() as int);
        assert(entries.skip(entries.len() as int) =~= Seq::<(String, Hours)>::empty());
    }
    None
}

/// One venue's row of the today table: its name, the clock texts of its
/// opening and closing instants resolved on the reference day, and its
/// status at the reference instant.
pub fn today_row(brew: &Brewery, now: &Instant, ampm: bool) -> (r: (String, String, String, OpenStatus))
    requires
        instant_wf(*now),
        spec_schedule_for(brew.hours@, canonical_days()[spec_weekday_index(*now)]) is Some,
    ensures
        r.0@ == brew.name@,
        spec_schedule_for(brew.hours@, canonical_days()[spec_weekday_index(*now)]) matches Some(
            sched,
        ) ==> exists|open: Option<Instant>, close: Option<Instant>|
            {
                &&& #[trigger] resolution_ok(open, sched.open as int, *now)
                &&& #[trigger] resolution_ok(close, sched.close as int, *now)
                &&& r.1@ == spec_clock_text(open, ampm)
                &&& r.2@ == spec_clock_text(close, ampm)
                &&& r.3 == spec_status(*now, open, close)
            },
{
    let today = weekday_name(now);
    let sched = day_schedule(brew, today).unwrap();
    let open = sched.open.to_today(now);
    let close = sched.close.to_today(now);
    let status = format_upcoming(
        now,
        match &open {
            Some(o) => Some(o),
            None => None,
        },
        match &close {
            Some(c) => Some(c),
            None => None,
        },
    );
    (brew.name.clone(), format_time(open, ampm), format_time(close, ampm), status)
}

/// One venue's cell of the weekly table: the open-close range of its entry
/// under `day`, resolved on the reference day and rendered for display.
pub fn schedule_cell(brew: &Brewery, day: &str, now: &Instant, ampm: bool) -> (r: String)
    requires
        instant_wf(*now),
        spec_schedule_for(brew.hours@, day@) is Some,
    ensures
        spec_schedule_for(brew.hours@, day@) matches Some(sched) ==> exists|
            open: Option<Instant>,
            close: Option<Instant>,
        |
            {
                &&& #[trigger] resolution_ok(open, sched.open as int, *now)
                &&& #[trigger] resolution_ok(close, sched.close as int, *now)
                &&& r@ == spec_range_text(open, close, ampm)
            },
{
    let sched = day_schedule(brew, day).unwrap();
    let open = sched.open.to_today(now);
    let close = sched.close.to_today(now);
    format_hours(open, close, ampm)
}

/// The formatting literals: an absent instant always shows as `CLOSED`, a
/// fully absent range as `CLOSED`, and a half-present range as `ERROR`,
/// whichever instant is present and whichever dial is chosen.
pub proof fn lemma_formatting_literals(x: Instant, ampm: bool)
    ensures
        spec_clock_text(None, ampm) == "CLOSED"@,
        spec_range_text(None, None, ampm) == "CLOSED"@,
        spec_range_text(Some(x), None, ampm) == "ERROR"@,
        spec_range_text(None, Some(x), ampm) == "ERROR"@,
{
}

/// Boundary inclusivity of status derivation: when the opening instant does
/// not follow the closing instant, a reference equal to the opening instant
/// or to the closing instant reports `Open`, and any reference past the
/// closing instant reports `Closed`.
pub proof fn lemma_boundary_inclusivity(o: Instant, c: Instant, r: Instant)
    requires
        spec_total_seconds(o) <= spec_total_seconds(c),
    ensures
        spec_status(o, Some(o), Some(c)) == OpenStatus::Open,
        spec_status(c, Some(o), Some(c)) == OpenStatus::Open,
        spec_total_seconds(r) > spec_total_seconds(c) ==> spec_status(r, Some(o), Some(c))
            == OpenStatus::Closed,
{
}

} // verus!
