//! Timestamp formats and the instant that a line carries.
//!
//! A [`TimeFormat`] is a label, a compiled pattern with named capture groups,
//! and the offset of local time that lines without a zone are read in.
//!
//! A line is parsed in three steps. The matcher gives the text of each group
//! ([`Captured`]); [`read_fields`] turns the texts into the numbers of a
//! [`WallClock`]; the calendar gives the instant of the date and time as UTC,
//! and [`instant`] adds the milliseconds and the shift of the zone. What
//! `get_time_stamp` returns is stated by [`parsed`], over the names that stand
//! for the matcher's and the calendar's answers.

use crate::calendar::{system_utc_offset_seconds, utc_instant_millis, utc_millis};
use crate::number::{decimal_i32, decimal_i64, decimal_u32, parse_decimal};
use crate::pattern::{group_text, matches_anywhere, pattern_compiles, Pattern};
use vstd::prelude::*;

verus! {

/// The capture groups that a pattern may define.
#[derive(Clone, Copy, Debug, PartialEq, Eq, Structural)]
pub enum Field {
    Year,
    Month,
    Day,
    Hour,
    Minute,
    Second,
    Millisecond,
    Timezone,
    Utc,
    Offset,
    TimezoneHour,
    TimezoneMinute,
}

impl Field {
    /// The name of the capture group.
    pub open spec fn group_name(self) -> Seq<char> {
        match self {
            Field::Year => "YEAR"@,
            Field::Month => "MONTH"@,
            Field::Day => "DAY"@,
            Field::Hour => "HOUR"@,
            Field::Minute => "MINUTE"@,
            Field::Second => "SECOND"@,
            Field::Millisecond => "MILLISECOND"@,
            Field::Timezone => "TIMEZONE"@,
            Field::Utc => "UTC"@,
            Field::Offset => "OFFSET"@,
            Field::TimezoneHour => "TIMEZONE_HOUR"@,
            Field::TimezoneMinute => "TIMEZONE_MINUTE"@,
        }
    }

    /// The name of the capture group.
    pub fn name(self) -> (s: &'static str)
        ensures
            s@ == self.group_name(),
    {
        match self {
            Field::Year => "YEAR",
            Field::Month => "MONTH",
            Field::Day => "DAY",
            Field::Hour => "HOUR",
            Field::Minute => "MINUTE",
            Field::Second => "SECOND",
            Field::Millisecond => "MILLISECOND",
            Field::Timezone => "TIMEZONE",
            Field::Utc => "UTC",
            Field::Offset => "OFFSET",
            Field::TimezoneHour => "TIMEZONE_HOUR",
            Field::TimezoneMinute => "TIMEZONE_MINUTE",
        }
    }
}

/// Why a line yields no instant.
#[derive(Clone, Copy, Debug, PartialEq, Eq, Structural)]
pub enum ParseError {
    /// The pattern matches nowhere in the line.
    NoMatch,
    /// A group that is needed took no part in the match.
    FieldMissing(Field),
    /// A group does not hold a number of its type, the sign of the zone
    /// offset is neither `+` nor `-`, or the instant lies outside the range of
    /// a signed 64-bit count of milliseconds.
    InvalidNumber,
    /// The fields name no real date and time.
    InvalidCalendarDate,
}

/// An instant in milliseconds since 1970-01-01T00:00:00Z.
#[derive(Clone, Copy, Debug, PartialEq, Eq, Structural)]
pub struct ParsedTimestamp {
    pub millis: i64,
}

/// What a [`TimeFormat`] is to a contract.
pub struct TimeFormatView {
    /// The label.
    pub description: Seq<char>,
    /// The source of the pattern.
    pub pattern: Seq<char>,
    /// Seconds that local time is ahead of UTC, for lines that name no zone.
    pub local_offset: int,
}

/// The text of each group in a match; `None` for a group that the pattern
/// does not have or that took no part in the match.
#[derive(Clone, Debug, Default, PartialEq, Eq)]
pub struct Captured {
    pub year: Option<String>,
    pub month: Option<String>,
    pub day: Option<String>,
    pub hour: Option<String>,
    pub minute: Option<String>,
    pub second: Option<String>,
    pub millisecond: Option<String>,
    pub timezone: Option<String>,
    pub utc: Option<String>,
    pub offset: Option<String>,
    pub timezone_hour: Option<String>,
    pub timezone_minute: Option<String>,
}

/// What a [`Captured`] is to a contract.
pub struct CapturedView {
    pub year: Option<Seq<char>>,
    pub month: Option<Seq<char>>,
    pub day: Option<Seq<char>>,
    pub hour: Option<Seq<char>>,
    pub minute: Option<Seq<char>>,
    pub second: Option<Seq<char>>,
    pub millisecond: Option<Seq<char>>,
    pub timezone: Option<Seq<char>>,
    pub utc: Option<Seq<char>>,
    pub offset: Option<Seq<char>>,
    pub timezone_hour: Option<Seq<char>>,
    pub timezone_minute: Option<Seq<char>>,
}

/// A text that may be missing, as characters.
pub open spec fn text_view(text: Option<String>) -> Option<Seq<char>> {
    match text {
        Some(s) => Some(s@),
        None => None,
    }
}

impl View for Captured {
    type V = CapturedView;

    open spec fn view(&self) -> CapturedView {
        CapturedView {
            year: text_view(self.year),
            month: text_view(self.month),
            day: text_view(self.day),
            hour: text_view(self.hour),
            minute: text_view(self.minute),
            second: text_view(self.second),
            millisecond: text_view(self.millisecond),
            timezone: text_view(self.timezone),
            utc: text_view(self.utc),
            offset: text_view(self.offset),
            timezone_hour: text_view(self.timezone_hour),
            timezone_minute: text_view(self.timezone_minute),
        }
    }
}

impl CapturedView {
    /// The text of the group `field`.
    pub open spec fn get(self, field: Field) -> Option<Seq<char>> {
        match field {
            Field::Year => self.year,
            Field::Month => self.month,
            Field::Day => self.day,
            Field::Hour => self.hour,
            Field::Minute => self.minute,
            Field::Second => self.second,
            Field::Millisecond => self.millisecond,
            Field::Timezone => self.timezone,
            Field::Utc => self.utc,
            Field::Offset => self.offset,
            Field::TimezoneHour => self.timezone_hour,
            Field::TimezoneMinute => self.timezone_minute,
        }
    }
}

impl Captured {
    /// The text of the group `field`.
    pub fn get(&self, field: Field) -> (text: &Option<String>)
        ensures
            text_view(*text) == self@.get(field),
    {
        match field {
            Field::Year => &self.year,
            Field::Month => &self.month,
            Field::Day => &self.day,
            Field::Hour => &self.hour,
            Field::Minute => &self.minute,
            Field::Second => &self.second,
            Field::Millisecond => &self.millisecond,
            Field::Timezone => &self.timezone,
            Field::Utc => &self.utc,
            Field::Offset => &self.offset,
            Field::TimezoneHour => &self.timezone_hour,
            Field::TimezoneMinute => &self.timezone_minute,
        }
    }
}

/// The fields of a timestamp as numbers: a date and a time of day as the
/// line gives them, the milliseconds, and the seconds to add to reach UTC.
#[derive(Clone, Copy, Debug, PartialEq, Eq, Structural)]
pub struct WallClock {
    pub year: i32,
    pub month: u32,
    pub day: u32,
    pub hour: u32,
    pub minute: u32,
    pub second: u32,
    pub millis: i64,
    pub shift_seconds: i64,
}

/// What the groups of the leftmost match of `pattern` in `line` hold.
pub open spec fn captured(pattern: Seq<char>, line: Seq<char>) -> CapturedView {
    CapturedView {
        year: group_text(pattern, line, Field::Year.group_name()),
        month: group_text(pattern, line, Field::Month.group_name()),
        day: group_text(pattern, line, Field::Day.group_name()),
        hour: group_text(pattern, line, Field::Hour.group_name()),
        minute: group_text(pattern, line, Field::Minute.group_name()),
        second: group_text(pattern, line, Field::Second.group_name()),
        millisecond: group_text(pattern, line, Field::Millisecond.group_name()),
        timezone: group_text(pattern, line, Field::Timezone.group_name()),
        utc: group_text(pattern, line, Field::Utc.group_name()),
        offset: group_text(pattern, line, Field::Offset.group_name()),
        timezone_hour: group_text(pattern, line, Field::TimezoneHour.group_name()),
        timezone_minute: group_text(pattern, line, Field::TimezoneMinute.group_name()),
    }
}

/// The number in a group that must be there: a signed or an unsigned number
/// of 32 bits.
pub open spec fn required_number(groups: CapturedView, field: Field, signed: bool) -> Result<
    int,
    ParseError,
> {
    match groups.get(field) {
        None => Err(ParseError::FieldMissing(field)),
        Some(text) => match (if signed {
            decimal_i32(text)
        } else {
            decimal_u32(text)
        }) {
            Some(v) => Ok(v),
            None => Err(ParseError::InvalidNumber),
        },
    }
}

/// Seconds to add to the wall-clock fields of a line to reach UTC.
///
/// Without a `TIMEZONE` group the line is in local time, which is
/// `local_offset` seconds ahead of UTC. With a `UTC` marker nothing is added.
/// Otherwise the line gives a sign, hours and minutes: a clock at `+08:00` is
/// eight hours ahead, so eight hours are taken off.
pub open spec fn zone_shift(groups: CapturedView, local_offset: int) -> Result<int, ParseError> {
    if groups.timezone is None {
        Ok(-local_offset)
    } else if groups.utc is Some {
        Ok(0)
    } else {
        match groups.offset {
            None => Err(ParseError::FieldMissing(Field::Offset)),
            Some(sign) => match required_number(groups, Field::TimezoneHour, true) {
                Err(e) => Err(e),
                Ok(hours) => match required_number(groups, Field::TimezoneMinute, true) {
                    Err(e) => Err(e),
                    Ok(minutes) => {
                        let magnitude = hours * 3600 + minutes * 60;
                        if sign == "+"@ {
                            Ok(-magnitude)
                        } else if sign == "-"@ {
                            Ok(magnitude)
                        } else {
                            Err(ParseError::InvalidNumber)
                        }
                    },
                },
            },
        }
    }
}

/// The milliseconds of a line: those of the `MILLISECOND` group where it
/// holds a number of 64 bits, else none.
pub open spec fn millisecond_part(groups: CapturedView) -> int {
    match groups.millisecond {
        None => 0,
        Some(text) => match decimal_i64(text) {
            Some(v) => v,
            None => 0,
        },
    }
}

/// The fields of a line as numbers. The zone is read first, then the fields
/// from the year to the second; the first that is missing or is no number
/// gives the error.
pub open spec fn wall_clock(groups: CapturedView, local_offset: int) -> Result<
    WallClock,
    ParseError,
> {
    match zone_shift(groups, local_offset) {
        Err(e) => Err(e),
        Ok(shift) => match required_number(groups, Field::Year, true) {
            Err(e) => Err(e),
            Ok(year) => match required_number(groups, Field::Month, false) {
                Err(e) => Err(e),
                Ok(month) => match required_number(groups, Field::Day, false) {
                    Err(e) => Err(e),
                    Ok(day) => match required_number(groups, Field::Hour, false) {
                        Err(e) => Err(e),
                        Ok(hour) => match required_number(groups, Field::Minute, false) {
                            Err(e) => Err(e),
                            Ok(minute) => match required_number(groups, Field::Second, false) {
                                Err(e) => Err(e),
                                Ok(second) => Ok(
                                    WallClock {
                                        year: year as i32,
                                        month: month as u32,
                                        day: day as u32,
                                        hour: hour as u32,
                                        minute: minute as u32,
                                        second: second as u32,
                                        millis: millisecond_part(groups) as i64,
                                        shift_seconds: shift as i64,
                                    },
                                ),
                            },
                        },
                    },
                },
            },
        }
    }
}

/// The instant of a wall clock whose date and time, read as UTC, lie `base`
/// milliseconds from the epoch: `base`, plus the milliseconds, plus the shift
/// to UTC. Without a `base` the fields name no real date and time.
pub open spec fn instant_of(clock: WallClock, base: Option<int>) -> Result<
    ParsedTimestamp,
    ParseError,
> {
    match base {
        None => Err(ParseError::InvalidCalendarDate),
        Some(base) => {
            let total = base + clock.millis + clock.shift_seconds * 1000;
            if i64::MIN <= total <= i64::MAX {
                Ok(ParsedTimestamp { millis: total as i64 })
            } else {
                Err(ParseError::InvalidNumber)
            }
        },
    }
}

/// The calendar's count of milliseconds for the date and time of `clock`.
pub open spec fn calendar_base(clock: WallClock) -> Option<int> {
    utc_instant_millis(
        clock.year as int,
        clock.month as int,
        clock.day as int,
        clock.hour as int,
        clock.minute as int,
        clock.second as int,
    )
}

/// The instant that `line` carries under `format`: `NoMatch` where the
/// pattern does not match, else the instant of the fields that the groups of
/// the match give, or the first error on the way to it.
pub open spec fn parsed(format: TimeFormatView, line: Seq<char>) -> Result<
    ParsedTimestamp,
    ParseError,
> {
    if !matches_anywhere(format.pattern, line) {
        Err(ParseError::NoMatch)
    } else {
        match wall_clock(captured(format.pattern, line), format.local_offset) {
            Err(e) => Err(e),
            Ok(clock) => instant_of(clock, calendar_base(clock)),
        }
    }
}

/// The number in a group that must be there.
fn number_of(groups: &Captured, field: Field, signed: bool) -> (r: Result<i64, ParseError>)
    ensures
        match r {
            Ok(v) => required_number(groups@, field, signed) == Ok::<int, ParseError>(v as int),
            Err(e) => required_number(groups@, field, signed) == Err::<int, ParseError>(e),
        },
        r matches Ok(v) ==> (if signed {
            i32::MIN <= v <= i32::MAX
        } else {
            0 <= v <= u32::MAX
        }),
{
    match groups.get(field) {
        None => Err(ParseError::FieldMissing(field)),
        Some(text) => {
            let value = if signed {
                parse_decimal(text.as_str(), true, -2_147_483_648, 2_147_483_647)
            } else {
                parse_decimal(text.as_str(), false, 0, 4_294_967_295)
            };
            match value {
                Some(v) => Ok(v),
                None => Err(ParseError::InvalidNumber),
            }
        },
    }
}

/// Seconds to add to the wall-clock fields of a line to reach UTC.
fn shift_to_utc(groups: &Captured, local_offset: i32) -> (r: Result<i64, ParseError>)
    ensures
        match r {
            Ok(v) => zone_shift(groups@, local_offset as int) == Ok::<int, ParseError>(v as int),
            Err(e) => zone_shift(groups@, local_offset as int) == Err::<int, ParseError>(e),
        },
{
    if groups.timezone.is_none() {
        return Ok(-(local_offset as i64));
    }
    if groups.utc.is_some() {
        return Ok(0);
    }
    match &groups.offset {
        None => Err(ParseError::FieldMissing(Field::Offset)),
        Some(sign) => {
            let hours = number_of(groups, Field::TimezoneHour, true)?;
            let minutes = number_of(groups, Field::TimezoneMinute, true)?;
            let magnitude: i64 = hours * 3600 + minutes * 60;
            if *sign == "+".to_owned() {
                Ok(-magnitude)
            } else if *sign == "-".to_owned() {
                Ok(magnitude)
            } else {
                Err(ParseError::InvalidNumber)
            }
        },
    }
}

/// The milliseconds of a line.
fn milliseconds_of(groups: &Captured) -> (ms: i64)
    ensures
        ms == millisecond_part(groups@),
{
    match &groups.millisecond {
        None => 0,
        Some(text) => match parse_decimal(
            text.as_str(),
            true,
            -9_223_372_036_854_775_808,
            9_223_372_036_854_775_807,
        ) {
            Some(v) => v,
            None => 0,
        },
    }
}

/// Reads the fields of a line as numbers, for a local time that is
/// `local_offset` seconds ahead of UTC.
pub fn read_fields(groups: &Captured, local_offset: i32) -> (r: Result<WallClock, ParseError>)
    ensures
        r == wall_clock(groups@, local_offset as int),
{
    let shift = shift_to_utc(groups, local_offset)?;
    let year = number_of(groups, Field::Year, true)?;
    let month = number_of(groups, Field::Month, false)?;
    let day = number_of(groups, Field::Day, false)?;
    let hour = number_of(groups, Field::Hour, false)?;
    let minute = number_of(groups, Field::Minute, false)?;
    let second = number_of(groups, Field::Second, false)?;
    let millis = milliseconds_of(groups);
    Ok(
        WallClock {
            year: year as i32,
            month: month as u32,
            day: day as u32,
            hour: hour as u32,
            minute: minute as u32,
            second: second as u32,
            millis,
            shift_seconds: shift,
        },
    )
}

/// The instant of a wall clock, given the calendar's count of milliseconds
/// for its date and time read as UTC, or `None` where the calendar has no
/// such date and time.
pub fn instant(clock: &WallClock, base: Option<i64>) -> (r: Result<ParsedTimestamp, ParseError>)
    ensures
        r == instant_of(
            *clock,
            match base {
                Some(b) => Some(b as int),
                None => None,
            },
        ),
{
    match base {
        None => Err(ParseError::InvalidCalendarDate),
        Some(base) => {
            let total: i128 = base as i128 + clock.millis as i128 + clock.shift_seconds as i128
                * 1000;
            if total < -9_223_372_036_854_775_808 || total > 9_223_372_036_854_775_807 {
                Err(ParseError::InvalidNumber)
            } else {
                Ok(ParsedTimestamp { millis: total as i64 })
            }
        },
    }
}

/// A timestamp format: a label and a pattern whose named groups give the
/// fields of a timestamp.
#[derive(Debug)]
pub struct TimeFormat {
    description: String,
    pattern: Pattern,
    local_offset: i32,
}

impl View for TimeFormat {
    type V = TimeFormatView;

    closed spec fn view(&self) -> TimeFormatView {
        TimeFormatView {
            description: self.description@,
            pattern: self.pattern@,
            local_offset: self.local_offset as int,
        }
    }
}

impl TimeFormat {
    /// Puts a format together from a compiled pattern, if there is one.
    pub(crate) fn assemble(description: &str, compiled: Option<Pattern>, local_offset: i32) -> (r:
        Option<TimeFormat>)
        ensures
            match compiled {
                None => r is None,
                Some(p) => r is Some && r->0@ == (TimeFormatView {
                    description: description@,
                    pattern: p@,
                    local_offset: local_offset as int,
                }),
            },
    {
        match compiled {
            None => None,
            Some(pattern) => Some(
                TimeFormat { description: description.to_owned(), pattern, local_offset },
            ),
        }
    }

    /// A format whose zoneless lines are read with local time
    /// `local_offset` seconds ahead of UTC. It is there exactly where the
    /// pattern compiles.
    pub fn with_local_offset(description: &str, pattern: &str, local_offset: i32) -> (r: Option<
        TimeFormat,
    >)
        ensures
            r is Some <==> pattern_compiles(pattern@),
            r matches Some(f) ==> f@ == (TimeFormatView {
                description: description@,
                pattern: pattern@,
                local_offset: local_offset as int,
            }),
    {
        Self::assemble(description, Pattern::compile(pattern), local_offset)
    }

    /// A format whose zoneless lines are read in the system's local time, as it
    /// is when the format is made. It is there exactly where the pattern compiles.
    pub fn new(description: &str, pattern: &str) -> (r: Option<TimeFormat>)
        ensures
            r is Some <==> pattern_compiles(pattern@),
            r matches Some(f) ==> {
                &&& f@.description == description@
                &&& f@.pattern == pattern@
                &&& -86_400 < f@.local_offset < 86_400
            },
    {
        Self::with_local_offset(description, pattern, system_utc_offset_seconds())
    }

    /// The label.
    pub fn description(&self) -> (s: &str)
        ensures
            s@ == self@.description,
    {
        self.description.as_str()
    }

    /// The source of the pattern.
    pub fn pattern(&self) -> (s: &str)
        ensures
            s@ == self@.pattern,
    {
        self.pattern.source()
    }

    /// Seconds that local time is ahead of UTC for this format.
    pub fn local_offset(&self) -> (seconds: i32)
        ensures
            seconds == self@.local_offset,
    {
        self.local_offset
    }

    /// Whether the pattern matches anywhere in `line`.
    pub fn is_match(&self, line: &str) -> (b: bool)
        ensures
            b == matches_anywhere(self@.pattern, line@),
    {
        self.pattern.is_match(line)
    }

    /// The text of each group in the leftmost match of the pattern in
    /// `line`.
    pub fn capture(&self, line: &str) -> (groups: Captured)
        ensures
            groups@ == captured(self@.pattern, line@),
    {
        Captured {
            year: self.pattern.group(line, Field::Year.name()),
            month: self.pattern.group(line, Field::Month.name()),
            day: self.pattern.group(line, Field::Day.name()),
            hour: self.pattern.group(line, Field::Hour.name()),
            minute: self.pattern.group(line, Field::Minute.name()),
            second: self.pattern.group(line, Field::Second.name()),
            millisecond: self.pattern.group(line, Field::Millisecond.name()),
            timezone: self.pattern.group(line, Field::Timezone.name()),
            utc: self.pattern.group(line, Field::Utc.name()),
            offset: self.pattern.group(line, Field::Offset.name()),
            timezone_hour: self.pattern.group(line, Field::TimezoneHour.name()),
            timezone_minute: self.pattern.group(line, Field::TimezoneMinute.name()),
        }
    }

    /// The instant that `line` carries.
    ///
    /// The result is a function of the format and the line alone: the same
    /// line gives the same instant, or the same error, every time.
    pub fn get_time_stamp(&self, line: &str) -> (r: Result<ParsedTimestamp, ParseError>)
        ensures
            r == parsed(self@, line@),
    {
        if !self.pattern.is_match(line) {
            return Err(ParseError::NoMatch);
        }
        let groups = self.capture(line);
        let clock = read_fields(&groups, self.local_offset)?;
        let base = utc_millis(
            clock.year,
            clock.month,
            clock.day,
            clock.hour,
            clock.minute,
            clock.second,
        );
        instant(&clock, base)
    }
}

} // verus!
