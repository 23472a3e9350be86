//! Moments and calendar dates, as the `chrono` crate reads and writes them.

use vstd::prelude::*;

use crate::text;

verus! {

// ---------------------------------------------------------------------------
// Moments
// ---------------------------------------------------------------------------

/// A moment in universal time: whole seconds since 1970, and nanoseconds into the second. A leap
/// second counts as the last second of its minute with more than a second's nanoseconds.
#[derive(Debug, Clone, Copy, PartialEq, Eq, Structural)]
pub struct Timestamp {
    pub seconds: i64,
    pub nanos: u32,
}

/// The first second that `chrono` can hold.
pub const FIRST_SECOND: i64 = -8334601228800;

/// The last second that `chrono` can hold.
pub const LAST_SECOND: i64 = 8210266876799;

impl Timestamp {
    /// Whether `chrono::DateTime::from_timestamp` makes a moment of it: in the years that `chrono`
    /// holds, and with a leap second at the end of a minute only.
    pub open spec fn valid(self) -> bool {
        &&& FIRST_SECOND <= self.seconds <= LAST_SECOND
        &&& self.nanos < 2_000_000_000
        &&& self.nanos >= 1_000_000_000 ==> self.seconds % 60 == 59
    }
}

/// The moment of whole seconds and nanoseconds. A second that is counted as a leap second, but not
/// at the end of a minute, is the one after it.
pub open spec fn moment_of(seconds: i64, nanos: u32) -> Option<Timestamp> {
    let given = Timestamp { seconds, nanos };
    let next = Timestamp { seconds: (seconds + 1) as i64, nanos: (nanos - 1_000_000_000) as u32 };
    if given.valid() {
        Some(given)
    } else if nanos >= 1_000_000_000 && FIRST_SECOND <= seconds < i64::MAX && next.valid() {
        Some(next)
    } else {
        None
    }
}

/// What `chrono` reads from a text as a moment with its offset, in universal time.
pub uninterp spec fn parsed_moment(string: Seq<char>) -> Option<Timestamp>;

/// The moment as `chrono` writes it, with `Z` at the end and as few digits behind the second as
/// the nanoseconds need, in groups of three.
pub uninterp spec fn moment_text(seconds: int, nanos: int) -> Seq<char>;

/// The moment as `DateTime::to_rfc3339` writes it, with `+00:00` at the end.
pub uninterp spec fn rfc3339_text(seconds: int, nanos: int) -> Seq<char>;

/// Calls `chrono::Utc::now`. Which moment it is depends on the machine's clock; it is one that
/// `chrono::DateTime::from_timestamp` made. Of a clock that is set before 1970 `chrono` gives no moment: the call panics.
#[verifier::external_body]
fn utc_now() -> (now: Timestamp)
    ensures
        now.valid(),
{
    let now = chrono::Utc::now();
    Timestamp { seconds: now.timestamp(), nanos: now.timestamp_subsec_nanos() }
}

/// Reads a text with `str::parse` for a `chrono::DateTime<chrono::Utc>`. What comes out depends
/// on the text alone; a leap second in it stands at the end of a minute.
#[verifier::external_body]
fn moment_from_str(raw: &str) -> (moment: Option<Timestamp>)
    ensures
        moment == parsed_moment(raw@),
        moment matches Some(m) ==> m.valid(),
{
    match raw.parse::<chrono::DateTime<chrono::Utc>>() {
        Ok(at) => Some(
            Timestamp { seconds: at.timestamp(), nanos: at.timestamp_subsec_nanos() },
        ),
        Err(_) => None,
    }
}

/// Writes a moment with `chrono::DateTime::to_rfc3339_opts`, with `SecondsFormat::AutoSi` and `Z`.
/// The text depends on the moment alone and reads back as it: years outside 0 to 9999 are written
/// with a sign, and read with it.
#[verifier::external_body]
fn moment_to_text(moment: Timestamp) -> (string: String)
    requires
        moment.valid(),
    ensures
        string@ == moment_text(moment.seconds as int, moment.nanos as int),
        parsed_moment(string@) == Some(moment),
{
    chrono::DateTime::from_timestamp(moment.seconds, moment.nanos).unwrap().to_rfc3339_opts(
        chrono::SecondsFormat::AutoSi,
        true,
    )
}

/// Writes a moment with `chrono::DateTime::to_rfc3339`. The text depends on the moment alone.
#[verifier::external_body]
fn moment_to_rfc3339(moment: Timestamp) -> (string: String)
    requires
        moment.valid(),
    ensures
        string@ == rfc3339_text(moment.seconds as int, moment.nanos as int),
{
    chrono::DateTime::from_timestamp(moment.seconds, moment.nanos).unwrap().to_rfc3339()
}

impl Timestamp {
    /// What the machine's clock says.
    pub fn now() -> (now: Timestamp)
        ensures
            now.valid(),
    {
        utc_now()
    }

    /// The moment of whole seconds and nanoseconds. A second that is counted as a leap second, but
    /// not at the end of a minute, is the one after it; `None` where there is no such moment.
    pub fn of_parts(seconds: i64, nanos: u32) -> (moment: Option<Timestamp>)
        ensures
            moment == moment_of(seconds, nanos),
            moment matches Some(m) ==> m.valid(),
    {
        let given = Timestamp { seconds, nanos };
        if given.is_valid() {
            return Some(given);
        }
        if nanos < 1_000_000_000 || seconds == i64::MAX {
            return None;
        }
        let next = Timestamp { seconds: seconds + 1, nanos: nanos - 1_000_000_000 };
        if seconds >= FIRST_SECOND && next.is_valid() {
            Some(next)
        } else {
            None
        }
    }

    /// Whether the moment is one that can be written.
    pub fn is_valid(&self) -> (valid: bool)
        ensures
            valid == self.valid(),
    {
        if self.seconds < FIRST_SECOND || LAST_SECOND < self.seconds || self.nanos >= 2_000_000_000 {
            return false;
        }
        let second: i64 = (self.seconds - FIRST_SECOND) % 60;
        proof {
            assert((self.seconds - FIRST_SECOND) % 60 == self.seconds % 60) by (nonlinear_arith)
                requires
                    FIRST_SECOND == -138910020480 * 60,
            ;
        }
        self.nanos < 1_000_000_000 || second == 59
    }

    /// Reads a moment.
    pub fn parse(raw: &str) -> (moment: Option<Timestamp>)
        ensures
            moment == parsed_moment(raw@),
            moment matches Some(m) ==> m.valid(),
    {
        moment_from_str(raw)
    }

    /// The text by which a moment is stored.
    pub fn to_text(&self) -> (string: String)
        requires
            self.valid(),
        ensures
            string@ == moment_text(self.seconds as int, self.nanos as int),
            parsed_moment(string@) == Some(*self),
    {
        moment_to_text(*self)
    }

    /// The text by which a moment is told to a client.
    pub fn to_rfc3339(&self) -> (string: String)
        requires
            self.valid(),
        ensures
            string@ == rfc3339_text(self.seconds as int, self.nanos as int),
    {
        moment_to_rfc3339(*self)
    }
}

// ---------------------------------------------------------------------------
// Dates
// ---------------------------------------------------------------------------

/// A day of the calendar.
#[derive(Debug, Clone, Copy, PartialEq, Eq, Structural)]
pub struct CalendarDate {
    pub year: i32,
    pub month: u32,
    pub day: u32,
}

/// Whether a year has a 29th of February.
pub open spec fn leap_year(year: int) -> bool {
    year % 4 == 0 && (year % 100 != 0 || year % 400 == 0)
}

/// How many days a month has.
pub open spec fn days_in_month(year: int, month: int) -> int {
    if month == 2 {
        if leap_year(year) {
            29
        } else {
            28
        }
    } else if month == 4 || month == 6 || month == 9 || month == 11 {
        30
    } else {
        31
    }
}

/// Whether a day stands in the calendar, in a year that `chrono` can hold.
pub open spec fn real_date(year: int, month: int, day: int) -> bool {
    &&& -262143 <= year <= 262142
    &&& 1 <= month <= 12
    &&& 1 <= day <= days_in_month(year, month)
}

/// The last `width` digits of a number, with zeros in front where it has fewer.
pub open spec fn padded(number: int, width: nat) -> Seq<char>
    decreases width,
{
    if width == 0 {
        Seq::empty()
    } else {
        padded(number / 10, (width - 1) as nat).push(text::digit_char((number % 10) as nat))
    }
}

/// A year as `chrono` writes it: four digits from 0 to 9999, otherwise a sign and at least four.
pub open spec fn year_text(year: int) -> Seq<char> {
    if 0 <= year <= 9999 {
        padded(year, 4)
    } else {
        let size = if year < 0 {
            -year
        } else {
            year
        };
        let sign = if year < 0 {
            '-'
        } else {
            '+'
        };
        let width: nat = if size <= 9999 {
            4
        } else if size <= 99999 {
            5
        } else {
            6
        };
        seq![sign] + padded(size, width)
    }
}

/// A date as year, month and day with hyphens between them.
pub open spec fn date_text(year: int, month: int, day: int) -> Seq<char> {
    year_text(year) + seq!['-'] + padded(month, 2) + seq!['-'] + padded(day, 2)
}

/// What `chrono` reads from a text as a date, by the format `%Y-%m-%d`.
pub uninterp spec fn parsed_date(string: Seq<char>) -> Option<CalendarDate>;

/// Reads a text with `chrono::NaiveDate::parse_from_str` by the format `%Y-%m-%d`. What comes out
/// depends on the text alone and stands in the calendar. From a year of four digits, a month and a
/// day of two digits each with hyphens between them it reads that date, if it stands in the
/// calendar, and nothing otherwise.
#[verifier::external_body]
fn date_from_str(raw: &str) -> (date: Option<CalendarDate>)
    ensures
        date == parsed_date(raw@),
        date matches Some(d) ==> real_date(d.year as int, d.month as int, d.day as int),
        forall|year: i32, month: u32, day: u32|
            0 <= year <= 9999 && month <= 99 && day <= 99 && raw@ == #[trigger] date_text(
                year as int,
                month as int,
                day as int,
            ) ==> date == date_if_real(year, month, day),
{
    match chrono::NaiveDate::parse_from_str(raw, "%Y-%m-%d") {
        Ok(d) => Some(
            CalendarDate {
                year: chrono::Datelike::year(&d),
                month: chrono::Datelike::month(&d),
                day: chrono::Datelike::day(&d),
            },
        ),
        Err(_) => None,
    }
}

/// The date, where it stands in the calendar.
pub open spec fn date_if_real(year: i32, month: u32, day: u32) -> Option<CalendarDate> {
    if real_date(year as int, month as int, day as int) {
        Some(CalendarDate { year, month, day })
    } else {
        None
    }
}

/// Writes a date with `chrono::NaiveDate::format` by the format `%Y-%m-%d`; the text reads back as
/// the date.
#[verifier::external_body]
fn date_to_text(date: CalendarDate) -> (string: String)
    requires
        real_date(date.year as int, date.month as int, date.day as int),
    ensures
        string@ == date_text(date.year as int, date.month as int, date.day as int),
        parsed_date(string@) == Some(date),
{
    let day = chrono::NaiveDate::from_ymd_opt(date.year, date.month, date.day).unwrap();
    day.format("%Y-%m-%d").to_string()
}

impl CalendarDate {
    /// Reads a date.
    pub fn parse(raw: &str) -> (date: Option<CalendarDate>)
        ensures
            date == parsed_date(raw@),
            date matches Some(d) ==> real_date(d.year as int, d.month as int, d.day as int),
            forall|year: i32, month: u32, day: u32|
                0 <= year <= 9999 && month <= 99 && day <= 99 && raw@ == #[trigger] date_text(
                    year as int,
                    month as int,
                    day as int,
                ) ==> date == date_if_real(year, month, day),
    {
        date_from_str(raw)
    }

    /// The text of the date.
    pub fn to_text(&self) -> (string: String)
        requires
            real_date(self.year as int, self.month as int, self.day as int),
        ensures
            string@ == date_text(self.year as int, self.month as int, self.day as int),
            parsed_date(string@) == Some(*self),
    {
        date_to_text(*self)
    }
}

}
