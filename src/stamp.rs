//! Calendar timestamps with second precision, their order, and the rules
//! that pick the one date representing a file.

use std::fmt::Write;
use crate::SortError;
use vstd::prelude::*;

verus! {

/// A civil date and time of day, in a single reference time zone.
#[derive(Clone, Copy, Debug, PartialEq, Eq, Structural)]
pub struct Stamp {
    pub year: i32,
    pub month: u32,
    pub day: u32,
    pub hour: u32,
    pub minute: u32,
    pub second: u32,
}

pub open spec fn is_leap_year(y: int) -> bool {
    (y % 4 == 0 && y % 100 != 0) || y % 400 == 0
}

pub open spec fn days_in_month(y: int, m: int) -> int {
    if m == 2 {
        if is_leap_year(y) { 29 } else { 28 }
    } else if m == 4 || m == 6 || m == 9 || m == 11 {
        30
    } else {
        31
    }
}

/// Years that chrono's calendar dates can hold.
pub open spec fn year_in_range(y: int) -> bool {
    -262143 <= y <= 262142
}

/// The proleptic Gregorian calendar has this day.
pub open spec fn date_exists(y: int, m: int, d: int) -> bool {
    year_in_range(y) && 1 <= m <= 12 && 1 <= d <= days_in_month(y, m)
}

/// A time of day without leap seconds.
pub open spec fn time_exists(h: int, m: int, s: int) -> bool {
    0 <= h < 24 && 0 <= m < 60 && 0 <= s < 60
}

impl Stamp {
    /// The stamp names an existing calendar moment.
    pub open spec fn wf(self) -> bool {
        date_exists(self.year as int, self.month as int, self.day as int)
            && time_exists(self.hour as int, self.minute as int, self.second as int)
    }
}

/// `a` is strictly earlier than `b`: fields compared from the year down.
pub open spec fn precedes(a: Stamp, b: Stamp) -> bool {
    if a.year != b.year {
        a.year < b.year
    } else if a.month != b.month {
        a.month < b.month
    } else if a.day != b.day {
        a.day < b.day
    } else if a.hour != b.hour {
        a.hour < b.hour
    } else if a.minute != b.minute {
        a.minute < b.minute
    } else {
        a.second < b.second
    }
}

/// The date that represents a file: the embedded one, else the creation
/// time, else the modification time.
pub open spec fn resolved(
    embedded: Option<Stamp>,
    created: Option<Stamp>,
    modified: Option<Stamp>,
) -> Option<Stamp> {
    if embedded is Some {
        embedded
    } else if created is Some {
        created
    } else {
        modified
    }
}

/// The earliest of a list of stamps.
pub open spec fn is_earliest(s: Seq<Stamp>, m: Stamp) -> bool {
    s.contains(m) && forall|i: int| 0 <= i < s.len() ==> !precedes(#[trigger] s[i], m)
}

/// Two stamps of which neither precedes the other are the same.
pub proof fn lemma_order_total(a: Stamp, b: Stamp)
    ensures
        a == b || precedes(a, b) || precedes(b, a),
        !(precedes(a, b) && precedes(b, a)),
{
}

/// There is at most one earliest stamp of a list.
pub proof fn lemma_earliest_unique(s: Seq<Stamp>, m1: Stamp, m2: Stamp)
    requires
        is_earliest(s, m1),
        is_earliest(s, m2),
    ensures
        m1 == m2,
{
    let i1 = choose|i: int| 0 <= i < s.len() && s[i] == m1;
    let i2 = choose|i: int| 0 <= i < s.len() && s[i] == m2;
    assert(!precedes(s[i1], m2));
    assert(!precedes(s[i2], m1));
    lemma_order_total(m1, m2);
}

impl Stamp {
    /// `self` is strictly earlier than `other`.
    pub fn is_before(&self, other: &Stamp) -> (r: bool)
        ensures
            r == precedes(*self, *other),
    {
        if self.year != other.year {
            self.year < other.year
        } else if self.month != other.month {
            self.month < other.month
        } else if self.day != other.day {
            self.day < other.day
        } else if self.hour != other.hour {
            self.hour < other.hour
        } else if self.minute != other.minute {
            self.minute < other.minute
        } else {
            self.second < other.second
        }
    }
}

/// The earliest stamp of the list, or `None` when it is empty.
pub fn earliest(dates: &Vec<Stamp>) -> (r: Option<Stamp>)
    ensures
        r is None <==> dates@.len() == 0,
        r matches Some(m) ==> is_earliest(dates@, m),
{
    if dates.len() == 0 {
        return None;
    }
    let mut best: Stamp = dates[0];
    let mut i: usize = 1;
    assert(dates@.subrange(0, 1)[0] == best);
    while i < dates.len()
        invariant
            1 <= i <= dates@.len(),
            dates@.subrange(0, i as int).contains(best),
            forall|j: int| 0 <= j < i ==> !precedes(#[trigger] dates@[j], best),
        decreases dates@.len() - i,
    {
        let d = dates[i];
        if d.is_before(&best) {
            proof {
                assert forall|j: int| 0 <= j < i + 1 implies !precedes(#[trigger] dates@[j], d) by {
                    if j < i {
                        lemma_order_total(dates@[j], best);
                    }
                }
            }
            best = d;
            assert(dates@.subrange(0, i + 1)[i as int] == d);
        } else {
            let ghost k = choose|k: int| 0 <= k < i && dates@.subrange(0, i as int)[k] == best;
            assert(dates@.subrange(0, i + 1)[k] == best);
        }
        i = i + 1;
    }
    assert(dates@.subrange(0, dates@.len() as int) =~= dates@);
    Some(best)
}

/// Picks the date of a file from what its metadata and the file system
/// report, in that order of preference.
pub fn resolve_date(embedded: Option<Stamp>, created: Option<Stamp>, modified: Option<Stamp>) -> (r:
    Result<Stamp, SortError>)
    ensures
        resolved(embedded, created, modified) matches Some(d) ==> r == Ok::<Stamp, SortError>(d),
        resolved(embedded, created, modified) is None ==> r == Err::<Stamp, SortError>(
            SortError::NoTimestamp,
        ),
{
    match embedded {
        Some(d) => Ok(d),
        None => match created {
            Some(d) => Ok(d),
            None => match modified {
                Some(d) => Ok(d),
                None => Err(SortError::NoTimestamp),
            },
        },
    }
}

/// The text chrono renders for a moment under a strftime pattern, or `None`
/// where chrono reports the pattern as malformed.
pub uninterp spec fn strftime_render(
    year: int,
    month: int,
    day: int,
    hour: int,
    minute: int,
    second: int,
    pattern: Seq<char>,
) -> Option<Seq<char>>;

/// Relies on chrono::NaiveDate::from_ymd_opt, which gives `Some` exactly for a
/// day of the proleptic Gregorian calendar within chrono's range of years.
#[verifier::external_body]
fn chrono_date_exists(year: i32, month: u32, day: u32) -> (r: bool)
    ensures
        r == date_exists(year as int, month as int, day as int),
{
    chrono::NaiveDate::from_ymd_opt(year, month, day).is_some()
}

/// Relies on chrono::NaiveTime::from_hms_opt, which gives `Some` exactly for
/// an hour below 24, a minute below 60 and a second below 60.
#[verifier::external_body]
fn chrono_time_exists(hour: u32, minute: u32, second: u32) -> (r: bool)
    ensures
        r == time_exists(hour as int, minute as int, second as int),
{
    chrono::NaiveTime::from_hms_opt(hour, minute, second).is_some()
}

/// Relies on chrono's `DateTime<Utc>::format` written out with `write!`: the
/// rendered text, or the formatting error that a malformed pattern raises.
/// The moment is built with `NaiveDate::from_ymd_opt`, `and_hms_opt` and
/// `and_utc`, which succeed on a well-formed stamp.
#[verifier::external_body]
fn chrono_render(s: &Stamp, pattern: &str) -> (r: Option<String>)
    requires
        s.wf(),
    ensures
        r is None <==> strftime_render(
            s.year as int,
            s.month as int,
            s.day as int,
            s.hour as int,
            s.minute as int,
            s.second as int,
            pattern@,
        ) is None,
        r matches Some(t) ==> strftime_render(
            s.year as int,
            s.month as int,
            s.day as int,
            s.hour as int,
            s.minute as int,
            s.second as int,
            pattern@,
        ) == Some(t@),
{
    let date = chrono::NaiveDate::from_ymd_opt(s.year, s.month, s.day)?;
    let moment = date.and_hms_opt(s.hour, s.minute, s.second)?.and_utc();
    let mut out = String::new();
    write!(out, "{}", moment.format(pattern)).ok()?;
    Some(out)
}

impl Stamp {
    /// The rendering of this stamp under a strftime pattern.
    pub open spec fn render_spec(self, pattern: Seq<char>) -> Option<Seq<char>> {
        strftime_render(
            self.year as int,
            self.month as int,
            self.day as int,
            self.hour as int,
            self.minute as int,
            self.second as int,
            pattern,
        )
    }

    /// The stamp names a calendar moment that exists.
    pub fn is_valid(&self) -> (r: bool)
        ensures
            r == self.wf(),
    {
        chrono_date_exists(self.year, self.month, self.day) && chrono_time_exists(
            self.hour,
            self.minute,
            self.second,
        )
    }

    /// Renders the stamp under a strftime pattern (`%Y-%m-%d`, `%Y/%m`).
    pub fn render(&self, pattern: &str) -> (r: Result<String, SortError>)
        requires
            self.wf(),
        ensures
            self.render_spec(pattern@) is None ==> r == Err::<String, SortError>(
                SortError::BadPattern,
            ),
            self.render_spec(pattern@) matches Some(t) ==> (r matches Ok(u) && u@ == t),
    {
        match chrono_render(self, pattern) {
            Some(t) => Ok(t),
            None => Err(SortError::BadPattern),
        }
    }
}

} // verus!
