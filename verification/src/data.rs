//! The schedule data model: venues with per-weekday opening and closing
//! hours, and the consistency checks that gate a freshly loaded catalog.

use vstd::prelude::*;

use crate::text::{i32_to_string, quoted_list, quoted_list_string, spec_signed_decimal, str_eq};

verus! {

/// One weekday's schedule: an opening and a closing hour on a 24-hour clock.
/// The sentinel value `-1` in both fields means "closed all day"; a `-1` in
/// exactly one field is malformed data that validation rejects.
#[derive(Clone, Copy, Debug, PartialEq, Eq, Structural)]
pub struct Hours {
    pub open: i32,
    pub close: i32,
}

/// One venue: a display name and the week's schedule, one entry per weekday
/// name. A valid venue holds exactly the seven canonical weekday names.
#[derive(Clone, Debug)]
pub struct Brewery {
    pub name: String,
    pub hours: Vec<(String, Hours)>,
}

/// A loaded catalog: the venues and opaque provenance strings, carried
/// through unmodified.
#[derive(Clone, Debug)]
pub struct BreweryData {
    pub breweries: Vec<Brewery>,
    pub crawl: Vec<String>,
}

/// The first consistency violation found in a catalog. Each variant carries
/// the offending venue's name and, where one day is at fault, the day's name
/// and the bad values.
#[derive(Clone, Debug)]
pub enum BreweryError {
    OpenCloseMismatch(String, String),
    OpenBeforeClose(String, String, i32, i32),
    BadHourOpen(String, String, i32),
    BadHourClose(String, String, i32),
    MissingDays(String, String),
    ExtraKeys(String, String),
}

/// Exactly one of the two fields holds the sentinel: malformed.
pub open spec fn sentinel_mismatch(h: Hours) -> bool {
    (h.open == -1) != (h.close == -1)
}

/// Both fields are set, yet the opening hour does not precede the closing
/// hour. Closing at hour `0` (midnight) is exempt from the ordering
/// requirement: midnight closing is encoded as hour `0`, numerically below
/// any opening hour, and no venue in the supported domain closes after
/// midnight.
pub open spec fn ordering_violation(h: Hours) -> bool {
    h.open != -1 && h.close != -1 && h.close != 0 && !(h.open < h.close)
}

/// Both fields are set, yet one of them names no hour of the 24-hour clock.
pub open spec fn range_violation(h: Hours) -> bool {
    h.open != -1 && h.close != -1 && (!(0 <= h.open < 24) || !(0 <= h.close < 24))
}

pub open spec fn sentinel_mismatch_fn() -> spec_fn(Hours) -> bool {
    |h: Hours| sentinel_mismatch(h)
}

pub open spec fn ordering_violation_fn() -> spec_fn(Hours) -> bool {
    |h: Hours| ordering_violation(h)
}

pub open spec fn range_violation_fn() -> spec_fn(Hours) -> bool {
    |h: Hours| range_violation(h)
}

/// The schedule of venue `i`'s `j`-th day entry.
pub open spec fn hours_at(bs: Seq<Brewery>, i: int, j: int) -> Hours {
    bs[i].hours@[j].1
}

/// The day name of venue `i`'s `j`-th day entry.
pub open spec fn day_at(bs: Seq<Brewery>, i: int, j: int) -> Seq<char> {
    bs[i].hours@[j].0@
}

/// Whether `(i, j)` names a day entry of the catalog.
pub open spec fn valid_pos(bs: Seq<Brewery>, i: int, j: int) -> bool {
    0 <= i < bs.len() && 0 <= j < bs[i].hours@.len()
}

/// No day entry strictly before position `(i, j)` — in venue order, then in
/// entry order within a venue — satisfies `bad`.
pub open spec fn clean_before(bs: Seq<Brewery>, bad: spec_fn(Hours) -> bool, i: int, j: int) -> bool {
    forall|i2: int, j2: int|
        valid_pos(bs, i2, j2) && (i2 < i || (i2 == i && j2 < j)) ==> !bad(
            #[trigger] hours_at(bs, i2, j2),
        )
}

/// No day entry of the catalog satisfies `bad`.
pub open spec fn no_schedule_violation(bs: Seq<Brewery>, bad: spec_fn(Hours) -> bool) -> bool {
    clean_before(bs, bad, bs.len() as int, 0)
}

/// `(i, j)` is the first day entry — in venue order, then in entry order —
/// that satisfies `bad`.
pub open spec fn first_violation(bs: Seq<Brewery>, bad: spec_fn(Hours) -> bool, i: int, j: int) -> bool {
    &&& valid_pos(bs, i, j)
    &&& bad(hours_at(bs, i, j))
    &&& clean_before(bs, bad, i, j)
}

/// `e` reports the first sentinel-pairing violation of the catalog: its
/// venue's name and its day's name.
pub open spec fn is_first_pairing_error(bs: Seq<Brewery>, e: BreweryError) -> bool {
    exists|i: int, j: int|
        {
            &&& #[trigger] first_violation(bs, sentinel_mismatch_fn(), i, j)
            &&& e matches BreweryError::OpenCloseMismatch(n, d)
            &&& n@ == bs[i].name@
            &&& d@ == day_at(bs, i, j)
        }
}

/// `e` reports the first ordering violation of the catalog: its venue's
/// name, its day's name, and the offending pair of hours.
pub open spec fn is_first_ordering_error(bs: Seq<Brewery>, e: BreweryError) -> bool {
    exists|i: int, j: int|
        {
            &&& #[trigger] first_violation(bs, ordering_violation_fn(), i, j)
            &&& e matches BreweryError::OpenBeforeClose(n, d, o, c)
            &&& n@ == bs[i].name@
            &&& d@ == day_at(bs, i, j)
            &&& o == hours_at(bs, i, j).open
            &&& c == hours_at(bs, i, j).close
        }
}

/// `e` reports the first out-of-range hour of the catalog: the opening hour
/// where that one is bad, the closing hour otherwise.
pub open spec fn is_first_range_error(bs: Seq<Brewery>, e: BreweryError) -> bool {
    exists|i: int, j: int|
        {
            &&& #[trigger] first_violation(bs, range_violation_fn(), i, j)
            &&& if !(0 <= hours_at(bs, i, j).open < 24) {
                &&& e matches BreweryError::BadHourOpen(n, d, v)
                &&& n@ == bs[i].name@
                &&& d@ == day_at(bs, i, j)
                &&& v == hours_at(bs, i, j).open
            } else {
                &&& e matches BreweryError::BadHourClose(n, d, v)
                &&& n@ == bs[i].name@
                &&& d@ == day_at(bs, i, j)
                &&& v == hours_at(bs, i, j).close
            }
        }
}

/// The canonical week: the seven English weekday names, Sunday first, the
/// exact key set every venue's schedule must carry.
pub open spec fn canonical_days() -> Seq<Seq<char>> {
    seq!["Sunday"@, "Monday"@, "Tuesday"@, "Wednesday"@, "Thursday"@, "Friday"@, "Saturday"@]
}

/// The day names under which a venue's schedule entries are keyed.
pub open spec fn key_views(b: Brewery) -> Seq<Seq<char>> {
    b.hours@.map_values(|p: (String, Hours)| p.0@)
}

/// The venue's key set equals the canonical seven weekday names exactly:
/// every canonical day appears among its keys, and every key is canonical.
pub open spec fn days_complete(b: Brewery) -> bool {
    &&& forall|k: int| 0 <= k < 7 ==> key_views(b).contains(#[trigger] canonical_days()[k])
    &&& forall|j: int|
        0 <= j < key_views(b).len() ==> canonical_days().contains(#[trigger] key_views(b)[j])
}

/// The canonical days among the first `k` that are absent from the venue's
/// keys, in canonical order.
pub open spec fn missing_upto(b: Brewery, k: int) -> Seq<Seq<char>>
    decreases k,
{
    if k <= 0 {
        Seq::empty()
    } else if key_views(b).contains(canonical_days()[k - 1]) {
        missing_upto(b, k - 1)
    } else {
        missing_upto(b, k - 1) + seq![canonical_days()[k - 1]]
    }
}

/// The canonical days absent from the venue's keys, in canonical order.
pub open spec fn missing_of(b: Brewery) -> Seq<Seq<char>> {
    missing_upto(b, 7)
}

/// The non-canonical names among the venue's first `j` keys, in order of
/// first appearance, each listed once.
pub open spec fn extra_upto(b: Brewery, j: int) -> Seq<Seq<char>>
    decreases j,
{
    if j <= 0 {
        Seq::empty()
    } else {
        let prior = extra_upto(b, j - 1);
        let key = key_views(b)[j - 1];
        if canonical_days().contains(key) || prior.contains(key) {
            prior
        } else {
            prior + seq![key]
        }
    }
}

/// The non-canonical names among the venue's keys, in order of first
/// appearance, each listed once.
pub open spec fn extra_of(b: Brewery) -> Seq<Seq<char>> {
    extra_upto(b, key_views(b).len() as int)
}

/// No canonical day among the first `k` is missing exactly when each of the
/// first `k` appears among the venue's keys.
proof fn lemma_missing_upto_empty(b: Brewery, k: int)
    requires
        0 <= k <= 7,
    ensures
        (missing_upto(b, k).len() == 0) <==> (forall|k2: int|
            0 <= k2 < k ==> key_views(b).contains(#[trigger] canonical_days()[k2])),
    decreases k,
{
    if k > 0 {
        lemma_missing_upto_empty(b, k - 1);
    }
}

/// No extra name is collected among the first `j` keys exactly when each of
/// the first `j` keys is canonical.
proof fn lemma_extra_upto_empty(b: Brewery, j: int)
    requires
        0 <= j <= key_views(b).len(),
    ensures
        (extra_upto(b, j).len() == 0) <==> (forall|j2: int|
            0 <= j2 < j ==> canonical_days().contains(#[trigger] key_views(b)[j2])),
    decreases j,
{
    if j > 0 {
        lemma_extra_upto_empty(b, j - 1);
    }
}

/// `e` reports the first venue whose key set is not exactly the canonical
/// week: its missing days when any are missing, its extra keys otherwise.
pub open spec fn is_first_days_error(bs: Seq<Brewery>, e: BreweryError) -> bool {
    exists|i: int|
        {
            &&& 0 <= i < bs.len()
            &&& !days_complete(#[trigger] bs[i])
            &&& forall|i2: int| 0 <= i2 < i ==> days_complete(#[trigger] bs[i2])
            &&& if missing_of(bs[i]).len() > 0 {
                &&& e matches BreweryError::MissingDays(n, s)
                &&& n@ == bs[i].name@
                &&& s@ == quoted_list(missing_of(bs[i]))
            } else {
                &&& e matches BreweryError::ExtraKeys(n, s)
                &&& n@ == bs[i].name@
                &&& s@ == quoted_list(extra_of(bs[i]))
            }
        }
}

/// The canonical weekday name at an index of the Sunday-first week.
pub fn canonical_day(k: usize) -> (r: &'static str)
    requires
        k < 7,
    ensures
        r@ == canonical_days()[k as int],
{
    let s = match k {
        0 => "Sunday",
        1 => "Monday",
        2 => "Tuesday",
        3 => "Wednesday",
        4 => "Thursday",
        5 => "Friday",
        _ => "Saturday",
    };
    proof {
        assert(s@ =~= canonical_days()[k as int]);
    }
    s
}

/// Whether `name` is one of the seven canonical weekday names.
fn is_canonical_day(name: &str) -> (r: bool)
    ensures
        r == canonical_days().contains(name@),
{
    let mut k: usize = 0;
    while k < 7
        invariant
            k <= 7,
            forall|k2: int| 0 <= k2 < k ==> canonical_days()[k2] != name@,
        decreases 7 - k,
    {
        if str_eq(name, canonical_day(k)) {
            return true;
        }
        k += 1;
    }
    false
}

/// Whether the venue's schedule has an entry keyed by `day`.
fn brew_has_day(b: &Brewery, day: &str) -> (r: bool)
    ensures
        r == key_views(*b).contains(day@),
{
    let mut j: usize = 0;
    while j < b.hours.len()
        invariant
            j <= b.hours.len(),
            forall|j2: int| 0 <= j2 < j ==> key_views(*b)[j2] != day@,
        decreases b.hours.len() - j,
    {
        if str_eq(b.hours[j].0.as_str(), day) {
            assert(key_views(*b)[j as int] == day@);
            return true;
        }
        j += 1;
    }
    false
}

/// Whether one of the collected names equals `name`.
fn names_contain(names: &Vec<String>, name: &str) -> (r: bool)
    ensures
        r == names@.map_values(|s: String| s@).contains(name@),
{
    let ghost vs = names@.map_values(|s: String| s@);
    let mut j: usize = 0;
    while j < names.len()
        invariant
            j <= names.len(),
            vs == names@.map_values(|s: String| s@),
            forall|j2: int| 0 <= j2 < j ==> vs[j2] != name@,
        decreases names.len() - j,
    {
        if str_eq(names[j].as_str(), name) {
            assert(vs[j as int] == name@);
            return true;
        }
        j += 1;
    }
    false
}

/// Closing exactly at midnight never counts as an ordering violation,
/// whatever the opening hour: the ordering check is exempt at close hour 0.
pub proof fn lemma_midnight_exemption(h: Hours)
    requires
        h.close == 0,
    ensures
        !ordering_violation(h),
{
}

/// A catalog passes every consistency check: schedule ordering, sentinel
/// pairing, hour ranges, and day-key completeness.
pub open spec fn catalog_consistent(bs: Seq<Brewery>) -> bool {
    &&& no_schedule_violation(bs, ordering_violation_fn())
    &&& no_schedule_violation(bs, sentinel_mismatch_fn())
    &&& no_schedule_violation(bs, range_violation_fn())
    &&& forall|i: int| 0 <= i < bs.len() ==> days_complete(#[trigger] bs[i])
}

/// The human-readable description of a validation error, naming the
/// offending venue and day and the bad values.
pub open spec fn spec_message(e: BreweryError) -> Seq<char> {
    match e {
        BreweryError::OpenCloseMismatch(n, d) => "Error in '"@ + n@ + "', day "@ + d@
            + ": Only one of open or close is set to -1"@,
        BreweryError::OpenBeforeClose(n, d, o, c) => "Error in '"@ + n@ + "' on "@ + d@
            + ": Open is after Close: "@ + spec_signed_decimal(o as int) + " < "@
            + spec_signed_decimal(c as int),
        BreweryError::BadHourOpen(n, d, v) => "Error in '"@ + n@ + "' on "@ + d@
            + ": Open uses an invalid hour (0-23): "@ + spec_signed_decimal(v as int),
        BreweryError::BadHourClose(n, d, v) => "Error in '"@ + n@ + "' on "@ + d@
            + ": Open uses an invalid hour (0-23): "@ + spec_signed_decimal(v as int),
        BreweryError::MissingDays(n, m) => "Error in '"@ + n@
            + "': Missing the following day(s): "@ + m@,
        BreweryError::ExtraKeys(n, x) => "Error in '"@ + n@ + "': Extra key(s): "@ + x@,
    }
}

impl BreweryError {
    /// Renders this error for display, naming the offending venue and day
    /// and the bad values.
    pub fn message(&self) -> (r: String)
        ensures
            r@ == spec_message(*self),
    {
        match self {
            BreweryError::OpenCloseMismatch(n, d) => {
                let mut s = String::from_str("Error in '");
                s.append(n.as_str());
                s.append("', day ");
                s.append(d.as_str());
                s.append(": Only one of open or close is set to -1");
                proof {
                    assert(s@ =~= spec_message(*self));
                }
                s
            },
            BreweryError::OpenBeforeClose(n, d, o, c) => {
                let mut s = String::from_str("Error in '");
                s.append(n.as_str());
                s.append("' on ");
                s.append(d.as_str());
                s.append(": Open is after Close: ");
                s.append(i32_to_string(*o).as_str());
                s.append(" < ");
                s.append(i32_to_string(*c).as_str());
                proof {
                    assert(s@ =~= spec_message(*self));
                }
                s
            },
            BreweryError::BadHourOpen(n, d, v) => {
                let mut s = String::from_str("Error in '");
                s.append(n.as_str());
                s.append("' on ");
                s.append(d.as_str());
                s.append(": Open uses an invalid hour (0-23): ");
                s.append(i32_to_string(*v).as_str());
                proof {
                    assert(s@ =~= spec_message(*self));
                }
                s
            },
            BreweryError::BadHourClose(n, d, v) => {
                let mut s = String::from_str("Error in '");
                s.append(n.as_str());
                s.append("' on ");
                s.append(d.as_str());
                s.append(": Open uses an invalid hour (0-23): ");
                s.append(i32_to_string(*v).as_str());
                proof {
                    assert(s@ =~= spec_message(*self));
                }
                s
            },
            BreweryError::MissingDays(n, m) => {
                let mut s = String::from_str("Error in '");
                s.append(n.as_str());
                s.append("': Missing the following day(s): ");
                s.append(m.as_str());
                proof {
                    assert(s@ =~= spec_message(*self));
                }
                s
            },
            BreweryError::ExtraKeys(n, x) => {
                let mut s = String::from_str("Error in '");
                s.append(n.as_str());
                s.append("': Extra key(s): ");
                s.append(x.as_str());
                proof {
                    assert(s@ =~= spec_message(*self));
                }
                s
            },
        }
    }
}

impl BreweryData {
    /// Runs every consistency check over the catalog, in a fixed order:
    /// schedule ordering first, then sentinel pairing, then hour ranges,
    /// then day-key completeness. `Ok` exactly when the catalog is
    /// consistent; otherwise the error is the first check's report of its
    /// first violation.
    pub fn validate(&self) -> (r: Result<(), BreweryError>)
        ensures
            r is Ok <==> catalog_consistent(self.breweries@),
            !no_schedule_violation(self.breweries@, ordering_violation_fn()) ==> (r matches Err(e)
                && is_first_ordering_error(self.breweries@, e)),
            no_schedule_violation(self.breweries@, ordering_violation_fn())
                && !no_schedule_violation(self.breweries@, sentinel_mismatch_fn()) ==> (
            r matches Err(e) && is_first_pairing_error(self.breweries@, e)),
            no_schedule_violation(self.breweries@, ordering_violation_fn())
                && no_schedule_violation(self.breweries@, sentinel_mismatch_fn())
                && !no_schedule_violation(self.breweries@, range_violation_fn()) ==> (
            r matches Err(e) && is_first_range_error(self.breweries@, e)),
            no_schedule_violation(self.breweries@, ordering_violation_fn())
                && no_schedule_violation(self.breweries@, sentinel_mismatch_fn())
                && no_schedule_violation(self.breweries@, range_violation_fn()) && !(forall|i: int|
                0 <= i < self.breweries@.len() ==> days_complete(#[trigger] self.breweries@[i]))
                ==> (r matches Err(e) && is_first_days_error(self.breweries@, e)),
    {
        self.check_open_before_close()?;
        self.check_open_close_match()?;
        self.check_24_hour()?;
        self.check_days()?;
        Ok(())
    }

    /// Rejects any schedule where exactly one of the open and close fields
    /// holds the `-1` sentinel. `Ok` exactly when no day entry of any venue
    /// has mismatched sentinels; otherwise the error names the first
    /// offending venue and day.
    pub fn check_open_close_match(&self) -> (r: Result<(), BreweryError>)
        ensures
            r is Ok <==> no_schedule_violation(self.breweries@, sentinel_mismatch_fn()),
            r matches Err(e) ==> is_first_pairing_error(self.breweries@, e),
    {
        let ghost bs = self.breweries@;
        let mut i: usize = 0;
        while i < self.breweries.len()
            invariant
                i <= self.breweries.len(),
                bs == self.breweries@,
                clean_before(bs, sentinel_mismatch_fn(), i as int, 0),
            decreases self.breweries.len() - i,
        {
            let brew = &self.breweries[i];
            let mut j: usize = 0;
            while j < brew.hours.len()
                invariant
                    i < self.breweries.len(),
                    j <= brew.hours.len(),
                    bs == self.breweries@,
                    *brew == bs[i as int],
                    clean_before(bs, sentinel_mismatch_fn(), i as int, j as int),
                decreases brew.hours.len() - j,
            {
                let h = brew.hours[j].1;
                if (h.open == -1) != (h.close == -1) {
                    let e = BreweryError::OpenCloseMismatch(
                        brew.name.clone(),
                        brew.hours[j].0.clone(),
                    );
                    proof {
                        assert(first_violation(bs, sentinel_mismatch_fn(), i as int, j as int));
                    }
                    return Err(e);
                }
                j += 1;
            }
            proof {
                assert(clean_before(bs, sentinel_mismatch_fn(), i + 1 as int, 0));
            }
            i += 1;
        }
        Ok(())
    }

    /// Requires every schedule that is neither closed all day nor closing at
    /// midnight to open strictly before it closes. `Ok` exactly when no day
    /// entry violates that ordering; otherwise the error names the first
    /// offending venue and day and carries the offending hours.
    pub fn check_open_before_close(&self) -> (r: Result<(), BreweryError>)
        ensures
            r is Ok <==> no_schedule_violation(self.breweries@, ordering_violation_fn()),
            r matches Err(e) ==> is_first_ordering_error(self.breweries@, e),
    {
        let ghost bs = self.breweries@;
        let mut i: usize = 0;
        while i < self.breweries.len()
            invariant
                i <= self.breweries.len(),
                bs == self.breweries@,
                clean_before(bs, ordering_violation_fn(), i as int, 0),
            decreases self.breweries.len() - i,
        {
            let brew = &self.breweries[i];
            let mut j: usize = 0;
            while j < brew.hours.len()
                invariant
                    i < self.breweries.len(),
                    j <= brew.hours.len(),
                    bs == self.breweries@,
                    *brew == bs[i as int],
                    clean_before(bs, ordering_violation_fn(), i as int, j as int),
                decreases brew.hours.len() - j,
            {
                let h = brew.hours[j].1;
                if h.open != -1 && h.close != -1 && h.close != 0 && !(h.open < h.close) {
                    let e = BreweryError::OpenBeforeClose(
                        brew.name.clone(),
                        brew.hours[j].0.clone(),
                        h.open,
                        h.close,
                    );
                    proof {
                        assert(first_violation(bs, ordering_violation_fn(), i as int, j as int));
                    }
                    return Err(e);
                }
                j += 1;
            }
            proof {
                assert(clean_before(bs, ordering_violation_fn(), i + 1 as int, 0));
            }
            i += 1;
        }
        Ok(())
    }

    /// Requires both hours of every schedule that is not closed all day to
    /// name an hour of the 24-hour clock, `0` through `23`. `Ok` exactly
    /// when they all do; otherwise the error names the first offending venue
    /// and day and carries the bad value, the opening hour taking precedence
    /// when both are bad.
    pub fn check_24_hour(&self) -> (r: Result<(), BreweryError>)
        ensures
            r is Ok <==> no_schedule_violation(self.breweries@, range_violation_fn()),
            r matches Err(e) ==> is_first_range_error(self.breweries@, e),
    {
        let ghost bs = self.breweries@;
        let mut i: usize = 0;
        while i < self.breweries.len()
            invariant
                i <= self.breweries.len(),
                bs == self.breweries@,
                clean_before(bs, range_violation_fn(), i as int, 0),
            decreases self.breweries.len() - i,
        {
            let brew = &self.breweries[i];
            let mut j: usize = 0;
            while j < brew.hours.len()
                invariant
                    i < self.breweries.len(),
                    j <= brew.hours.len(),
                    bs == self.breweries@,
                    *brew == bs[i as int],
                    clean_before(bs, range_violation_fn(), i as int, j as int),
                decreases brew.hours.len() - j,
            {
                let h = brew.hours[j].1;
                if h.open != -1 && h.close != -1 {
                    if !(h.open >= 0 && h.open < 24) {
                        let e = BreweryError::BadHourOpen(
                            brew.name.clone(),
                            brew.hours[j].0.clone(),
                            h.open,
                        );
                        proof {
                            assert(first_violation(bs, range_violation_fn(), i as int, j as int));
                        }
                        return Err(e);
                    }
                    if !(h.close >= 0 && h.close < 24) {
                        let e = BreweryError::BadHourClose(
                            brew.name.clone(),
                            brew.hours[j].0.clone(),
                            h.close,
                        );
                        proof {
                            assert(first_violation(bs, range_violation_fn(), i as int, j as int));
                        }
                        return Err(e);
                    }
                }
                j += 1;
            }
            proof {
                assert(clean_before(bs, range_violation_fn(), i + 1 as int, 0));
            }
            i += 1;
        }
        Ok(())
    }

    /// Requires every venue's key set to be exactly the seven canonical
    /// weekday names. `Ok` exactly when every venue's week is complete with
    /// no stray keys; otherwise the error names the first offending venue,
    /// listing its missing days when any are missing and its unexpected keys
    /// otherwise.
    pub fn check_days(&self) -> (r: Result<(), BreweryError>)
        ensures
            r is Ok <==> (forall|i: int|
                0 <= i < self.breweries@.len() ==> days_complete(#[trigger] self.breweries@[i])),
            r matches Err(e) ==> is_first_days_error(self.breweries@, e),
    {
        let ghost bs = self.breweries@;
        let mut i: usize = 0;
        while i < self.breweries.len()
            invariant
                i <= self.breweries.len(),
                bs == self.breweries@,
                forall|i2: int| 0 <= i2 < i ==> days_complete(#[trigger] bs[i2]),
            decreases self.breweries.len() - i,
        {
            let brew = &self.breweries[i];
            let mut missing: Vec<String> = Vec::new();
            let mut k: usize = 0;
            while k < 7
                invariant
                    k <= 7,
                    *brew == bs[i as int],
                    missing@.map_values(|s: String| s@) == missing_upto(*brew, k as int),
                decreases 7 - k,
            {
                let day = canonical_day(k);
                if !brew_has_day(brew, day) {
                    missing.push(String::from_str(day));
                    proof {
                        assert(missing@.map_values(|s: String| s@) =~= missing_upto(
                            *brew,
                            k + 1 as int,
                        ));
                    }
                }
                k += 1;
            }
            if missing.len() > 0 {
                let text = quoted_list_string(&missing);
                let e = BreweryError::MissingDays(brew.name.clone(), text);
                proof {
                    lemma_missing_upto_empty(*brew, 7);
                    assert(!days_complete(bs[i as int]));
                    assert(is_first_days_error(bs, e));
                }
                return Err(e);
            }
            let mut extra: Vec<String> = Vec::new();
            let mut j: usize = 0;
            while j < brew.hours.len()
                invariant
                    j <= brew.hours.len(),
                    *brew == bs[i as int],
                    extra@.map_values(|s: String| s@) == extra_upto(*brew, j as int),
                decreases brew.hours.len() - j,
            {
                let key = &brew.hours[j].0;
                assert(key@ == key_views(*brew)[j as int]);
                if !is_canonical_day(key.as_str()) && !names_contain(&extra, key.as_str()) {
                    extra.push(key.clone());
                    proof {
                        assert(extra@.map_values(|s: String| s@) =~= extra_upto(
                            *brew,
                            j + 1 as int,
                        ));
                    }
                }
                j += 1;
            }
            if extra.len() > 0 {
                let text = quoted_list_string(&extra);
                let e = BreweryError::ExtraKeys(brew.name.clone(), text);
                proof {
                    lemma_missing_upto_empty(*brew, 7);
                    lemma_extra_upto_empty(*brew, key_views(*brew).len() as int);
                    assert(!days_complete(bs[i as int]));
                    assert(missing_of(bs[i as int]).len() == 0);
                    assert(is_first_days_error(bs, e));
                }
                return Err(e);
            }
            proof {
                lemma_missing_upto_empty(*brew, 7);
                lemma_extra_upto_empty(*brew, key_views(*brew).len() as int);
                assert(days_complete(bs[i as int]));
            }
            i += 1;
        }
        Ok(())
    }
}

} // verus!
