//! The catalog of known timestamp formats.
//!
//! The order of the catalog is part of its meaning: of the formats that match
//! a line, the first one wins.

use crate::calendar::system_utc_offset_seconds;
use crate::format::{TimeFormat, TimeFormatView};
use crate::pattern::{matches_anywhere, pattern_compiles};
use vstd::prelude::*;

verus! {

/// The label of the built-in format.
pub const RFC3339_LABEL: &'static str = "RFC3339";

/// The built-in pattern: `YYYY?MM?DD?HH?MM?SS`, where `?` is any one
/// character that is no digit, then optional milliseconds after a dot, then an
/// optional zone, `Z` or a signed `HH:MM`.
pub const RFC3339_PATTERN: &'static str =
    r"(?P<YEAR>\d{4})\D(?P<MONTH>\d{2})\D(?P<DAY>\d{2})\D(?P<HOUR>\d{2})\D(?P<MINUTE>\d{2})\D(?P<SECOND>\d{2})(\.(?P<MILLISECOND>\d{3})){0,1}(?P<TIMEZONE>((?<OFFSET>[\+\-])(?P<TIMEZONE_HOUR>\d{2}):(?P<TIMEZONE_MINUTE>\d{2})|(?P<UTC>Z))){0,1}";

/// Why no format was found.
#[derive(Clone, Copy, Debug, PartialEq, Eq, Structural)]
pub enum DetectError {
    /// None of the lines that were looked at matches a format of the catalog.
    NoFormatMatched,
    /// A line on the way is not valid UTF-8.
    Utf8DecodeFailure,
}

/// The index of the first format from `from` on whose pattern matches in
/// `line`.
pub open spec fn first_matching(formats: Seq<TimeFormat>, line: Seq<char>, from: int) -> Option<int>
    decreases formats.len() - from,
{
    if from < 0 || from >= formats.len() {
        None
    } else if matches_anywhere(formats[from]@.pattern, line) {
        Some(from)
    } else {
        first_matching(formats, line, from + 1)
    }
}

/// The built-in format, for a given offset of local time.
pub open spec fn rfc3339(local_offset: int) -> TimeFormatView {
    TimeFormatView {
        description: RFC3339_LABEL@,
        pattern: RFC3339_PATTERN@,
        local_offset,
    }
}

/// `first_matching` names a format that matches, before which none does; it
/// names none only where none matches.
pub proof fn lemma_first_matching(formats: Seq<TimeFormat>, line: Seq<char>, from: int)
    requires
        0 <= from,
    ensures
        match first_matching(formats, line, from) {
            Some(i) => {
                &&& from <= i < formats.len()
                &&& matches_anywhere(formats[i]@.pattern, line)
                &&& forall|j: int| from <= j < i ==> !matches_anywhere(formats[j]@.pattern, line)
            },
            None => forall|j: int|
                from <= j < formats.len() ==> !matches_anywhere(formats[j]@.pattern, line),
        },
    decreases formats.len() - from,
{
    if from < formats.len() && !matches_anywhere(formats[from]@.pattern, line) {
        lemma_first_matching(formats, line, from + 1);
    }
}

/// An ordered catalog of timestamp formats.
#[derive(Debug)]
pub struct Registry {
    formats: Vec<TimeFormat>,
}

impl Registry {
    /// The formats of the catalog, in order of priority.
    pub closed spec fn entries(&self) -> Seq<TimeFormat> {
        self.formats@
    }

    /// A catalog without formats.
    pub fn new() -> (r: Registry)
        ensures
            r.entries() == Seq::<TimeFormat>::empty(),
    {
        Registry { formats: Vec::new() }
    }

    /// Adds `format` behind the formats that are there: it matches only
    /// lines that none of them matches.
    pub fn register(&mut self, format: TimeFormat)
        ensures
            final(self).entries() == old(self).entries().push(format),
    {
        self.formats.push(format);
    }

    /// Adds a format that may be missing, and says whether it was there.
    pub fn register_compiled(&mut self, format: Option<TimeFormat>) -> (added: bool)
        ensures
            added == format is Some,
            final(self).entries() == match format {
                Some(f) => old(self).entries().push(f),
                None => old(self).entries(),
            },
    {
        match format {
            Some(f) => {
                self.register(f);
                true
            },
            None => false,
        }
    }

    /// The built-in catalog, for zoneless lines in a local time
    /// `local_offset` seconds ahead of UTC. It holds the one built-in format,
    /// and nothing only where the pattern of that format does not compile.
    pub fn builtin_with_local_offset(local_offset: i32) -> (r: Registry)
        ensures
            r.entries().len() == (if pattern_compiles(RFC3339_PATTERN@) { 1nat } else { 0nat }),
            forall|i: int|
                0 <= i < r.entries().len() ==> (#[trigger] r.entries()[i])@ == rfc3339(
                    local_offset as int,
                ),
    {
        let mut registry = Registry::new();
        let format = TimeFormat::with_local_offset(RFC3339_LABEL, RFC3339_PATTERN, local_offset);
        registry.register_compiled(format);
        registry
    }

    /// The built-in catalog, for zoneless lines in the system's local time as
    /// it is now: the one built-in format, where its pattern compiles.
    pub fn builtin() -> (r: Registry)
        ensures
            r.entries().len() == (if pattern_compiles(RFC3339_PATTERN@) { 1nat } else { 0nat }),
            forall|i: int|
                0 <= i < r.entries().len() ==> {
                    &&& (#[trigger] r.entries()[i])@.description == RFC3339_LABEL@
                    &&& r.entries()[i]@.pattern == RFC3339_PATTERN@
                    &&& -86_400 < r.entries()[i]@.local_offset < 86_400
                },
    {
        Registry::builtin_with_local_offset(system_utc_offset_seconds())
    }

    /// The number of formats.
    pub fn len(&self) -> (n: usize)
        ensures
            n == self.entries().len(),
    {
        self.formats.len()
    }

    /// The format at `index`.
    pub fn get(&self, index: usize) -> (r: Option<&TimeFormat>)
        ensures
            r == if index < self.entries().len() {
                Some(&self.entries()[index as int])
            } else {
                None
            },
    {
        if index < self.formats.len() {
            Some(&self.formats[index])
        } else {
            None
        }
    }

    /// The index of the first format whose pattern matches anywhere in
    /// `line`.
    pub fn position(&self, line: &str) -> (r: Option<usize>)
        ensures
            match r {
                Some(i) => first_matching(self.entries(), line@, 0) == Some(i as int),
                None => first_matching(self.entries(), line@, 0) is None,
            },
    {
        let mut i: usize = 0;
        while i < self.formats.len()
            invariant
                i <= self.formats@.len(),
                first_matching(self.entries(), line@, 0) == first_matching(
                    self.entries(),
                    line@,
                    i as int,
                ),
            decreases self.formats@.len() - i,
        {
            if self.formats[i].is_match(line) {
                return Some(i);
            }
            i = i + 1;
        }
        None
    }

    /// The first format whose pattern matches anywhere in `line`.
    pub fn match_line(&self, line: &str) -> (r: Option<&TimeFormat>)
        ensures
            r == match first_matching(self.entries(), line@, 0) {
                Some(i) => Some(&self.entries()[i]),
                None => None,
            },
    {
        match self.position(line) {
            Some(i) => {
                proof {
                    lemma_first_matching(self.entries(), line@, 0);
                }
                Some(&self.formats[i])
            },
            None => None,
        }
    }
}

/// The format of a timestamp given as text: the first format of the catalog
/// that matches in it.
pub fn detect_datetime_format<'a>(registry: &'a Registry, time_str: &str) -> (r: Result<
    &'a TimeFormat,
    DetectError,
>)
    ensures
        r == match first_matching(registry.entries(), time_str@, 0) {
            Some(i) => Ok::<&TimeFormat, DetectError>(&registry.entries()[i]),
            None => Err::<&TimeFormat, DetectError>(DetectError::NoFormatMatched),
        },
{
    match registry.match_line(time_str) {
        Some(format) => Ok(format),
        None => Err(DetectError::NoFormatMatched),
    }
}

} // verus!
