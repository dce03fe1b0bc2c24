//! Lines of a log, as bytes.
//!
//! A log is a sequence of bytes cut into lines by single newline bytes. A
//! line is *decisive* for a format when a scan has to stop at it: either it
//! does not decode as UTF-8, or the format's pattern matches in it. This
//! module says which line a scan of a block of bytes stops at, from the left
//! and from the right, and finds that line.

use crate::format::{parsed, ParseError, ParsedTimestamp, TimeFormat, TimeFormatView};
use crate::pattern::matches_anywhere;
use vstd::prelude::*;
use vstd::slice::*;
use vstd::string::*;
use vstd::utf8::*;

verus! {

/// The byte that ends a line.
pub const NEWLINE: u8 = 10;

/// A line that carries a timestamp: where it starts, and the instant.
#[derive(Clone, Copy, Debug, PartialEq, Eq, Structural)]
pub struct LineMatch {
    /// Offset of the first byte of the line.
    pub byte_offset: u64,
    /// The instant that the line carries.
    pub timestamp: ParsedTimestamp,
}

/// Why a scan yields no line.
#[derive(Clone, Copy, Debug, PartialEq, Eq, Structural)]
pub enum RangeError {
    /// The scan from the start reached the end without a matching line.
    NoStartFound,
    /// The scan from the end reached the start without a matching line, or
    /// stopped at a line before the one that the scan from the start found.
    NoEndFound,
    /// A line on the way is not valid UTF-8.
    Utf8DecodeFailure,
    /// The first matching line on the way does not parse.
    Parse(ParseError),
}

/// What a line is to a scan.
pub enum LineKind {
    /// Valid UTF-8 in which the pattern does not match: the scan goes on.
    Plain,
    /// Valid UTF-8 in which the pattern matches.
    Stamped,
    /// Not valid UTF-8.
    Undecodable,
}

/// The kind of the line made of `bytes`.
pub open spec fn line_kind(format: TimeFormatView, bytes: Seq<u8>) -> LineKind {
    if !valid_utf8(bytes) {
        LineKind::Undecodable
    } else if matches_anywhere(format.pattern, decode_utf8(bytes)) {
        LineKind::Stamped
    } else {
        LineKind::Plain
    }
}

/// A scan stops at this line.
pub open spec fn decisive(format: TimeFormatView, bytes: Seq<u8>) -> bool {
    !(line_kind(format, bytes) is Plain)
}

/// What a scan returns when it stops at the line `bytes` found at `offset`.
pub open spec fn line_outcome(format: TimeFormatView, offset: int, bytes: Seq<u8>) -> Result<
    LineMatch,
    RangeError,
> {
    if !valid_utf8(bytes) {
        Err(RangeError::Utf8DecodeFailure)
    } else {
        match parsed(format, decode_utf8(bytes)) {
            Ok(timestamp) => Ok(LineMatch { byte_offset: offset as u64, timestamp }),
            Err(e) => Err(RangeError::Parse(e)),
        }
    }
}

/// No newline stands in `data` from `from` up to, not including, `to`.
pub open spec fn newline_free(data: Seq<u8>, from: int, to: int) -> bool {
    forall|k: int| from <= k < to && 0 <= k < data.len() ==> #[trigger] data[k] != NEWLINE
}

/// The first decisive line of `data` that ends in a newline, as its start and
/// the index of that newline, reading on from index `i` inside a line that
/// began at `start`. The bytes after the last newline are no line yet.
pub open spec fn first_decisive(format: TimeFormatView, data: Seq<u8>, start: int, i: int) -> Option<
    (int, int),
>
    decreases data.len() - i,
{
    if i < 0 || i >= data.len() {
        None
    } else if data[i] == NEWLINE {
        if decisive(format, data.subrange(start, i)) {
            Some((start, i))
        } else {
            first_decisive(format, data, i + 1, i + 1)
        }
    } else {
        first_decisive(format, data, start, i + 1)
    }
}

/// Where the unfinished last line of `data` starts, reading on from `i`
/// inside a line that began at `start`.
pub open spec fn tail_start(data: Seq<u8>, start: int, i: int) -> int
    decreases data.len() - i,
{
    if i < 0 || i >= data.len() {
        start
    } else if data[i] == NEWLINE {
        tail_start(data, i + 1, i + 1)
    } else {
        tail_start(data, start, i + 1)
    }
}

/// The last decisive line of `data`, as its start and its end, reading back
/// from index `i` inside a line whose end is `end`. Every stretch between
/// two newlines is a line, and so is what follows the last newline. What
/// precedes the first newline is a line unless `open_left` says that `data`
/// begins in the middle of one.
pub open spec fn last_decisive(
    format: TimeFormatView,
    data: Seq<u8>,
    i: int,
    end: int,
    open_left: bool,
) -> Option<(int, int)>
    decreases i,
{
    if i <= 0 || i > data.len() {
        if !open_left && decisive(format, data.subrange(0, end)) {
            Some((0, end))
        } else {
            None
        }
    } else if data[i - 1] == NEWLINE {
        if decisive(format, data.subrange(i, end)) {
            Some((i, end))
        } else {
            last_decisive(format, data, i - 1, i - 1, open_left)
        }
    } else {
        last_decisive(format, data, i - 1, end, open_left)
    }
}

/// Where the first line of `data` ends, reading back from `i` inside a line
/// whose end is `end`: the index of the first newline, or `end` where there
/// is none before `i`.
pub open spec fn head_end(data: Seq<u8>, i: int, end: int) -> int
    decreases i,
{
    if i <= 0 || i > data.len() {
        end
    } else if data[i - 1] == NEWLINE {
        head_end(data, i - 1, i - 1)
    } else {
        head_end(data, i - 1, end)
    }
}

/// The unfinished last line starts inside the bytes that were read.
pub proof fn lemma_tail_start_bounds(data: Seq<u8>, start: int, i: int)
    requires
        0 <= start <= i <= data.len(),
    ensures
        start <= tail_start(data, start, i) <= data.len(),
    decreases data.len() - i,
{
    if i < data.len() {
        if data[i] == NEWLINE {
            lemma_tail_start_bounds(data, i + 1, i + 1);
        } else {
            lemma_tail_start_bounds(data, start, i + 1);
        }
    }
}

/// The first line ends inside the bytes that were read.
pub proof fn lemma_head_end_bounds(data: Seq<u8>, i: int, end: int)
    requires
        0 <= i <= end <= data.len(),
    ensures
        0 <= head_end(data, i, end) <= end,
    decreases i,
{
    if i > 0 {
        if data[i - 1] == NEWLINE {
            lemma_head_end_bounds(data, i - 1, i - 1);
        } else {
            lemma_head_end_bounds(data, i - 1, end);
        }
    }
}

/// `core::str::from_utf8`: the bytes as a string slice where they are valid
/// UTF-8, `None` where they are not.
#[verifier::external_body]
pub(crate) fn decode<'a>(bytes: &'a [u8]) -> (r: Option<&'a str>)
    ensures
        r is Some <==> valid_utf8(bytes@),
        r matches Some(s) ==> s.spec_bytes() == bytes@,
{
    core::str::from_utf8(bytes).ok()
}

/// Looks at one line: `None` where the scan goes on, else what the scan
/// returns.
pub fn examine(format: &TimeFormat, line: &[u8], offset: u64) -> (r: Option<
    Result<LineMatch, RangeError>,
>)
    ensures
        r == if decisive(format@, line@) {
            Some(line_outcome(format@, offset as int, line@))
        } else {
            None
        },
{
    match decode(line) {
        None => Some(Err(RangeError::Utf8DecodeFailure)),
        Some(text) => {
            proof {
                encode_utf8_decode_utf8(text@);
            }
            if format.is_match(text) {
                match format.get_time_stamp(text) {
                    Ok(timestamp) => Some(Ok(LineMatch { byte_offset: offset, timestamp })),
                    Err(e) => Some(Err(RangeError::Parse(e))),
                }
            } else {
                None
            }
        },
    }
}

/// Scans `window` from the left. Returns what the scan returns at the first
/// decisive line, with offsets counted from `base`; or, where no line is
/// decisive, the index at which the unfinished last line starts.
pub fn scan_left_to_right(format: &TimeFormat, window: &[u8], base: u64) -> (r: (
    Option<Result<LineMatch, RangeError>>,
    usize,
))
    requires
        base + window@.len() <= u64::MAX,
    ensures
        match first_decisive(format@, window@, 0, 0) {
            Some((s, e)) => r.0 == Some(
                line_outcome(format@, base + s, window@.subrange(s, e)),
            ),
            None => r.0 is None && r.1 == tail_start(window@, 0, 0),
        },
        r.1 <= window@.len(),
{
    let n = window.len();
    let mut start: usize = 0;
    let mut i: usize = 0;
    while i < n
        invariant
            start <= i <= n,
            n == window@.len(),
            base + n <= u64::MAX,
            first_decisive(format@, window@, 0, 0) == first_decisive(
                format@,
                window@,
                start as int,
                i as int,
            ),
            tail_start(window@, 0, 0) == tail_start(window@, start as int, i as int),
        decreases n - i,
    {
        if window[i] == NEWLINE {
            let line = slice_subrange(window, start, i);
            match examine(format, line, base + start as u64) {
                Some(outcome) => {
                    return (Some(outcome), start);
                },
                None => {},
            }
            start = i + 1;
        }
        i = i + 1;
    }
    (None, start)
}

/// Scans `window` from the right. Returns what the scan returns at the last
/// decisive line, with offsets counted from `base`; or, where no line is
/// decisive, the index at which the first line ends. With `open_left` the
/// window begins in the middle of a line, and that piece is not looked at.
pub fn scan_right_to_left(format: &TimeFormat, window: &[u8], base: u64, open_left: bool) -> (r: (
    Option<Result<LineMatch, RangeError>>,
    usize,
))
    requires
        base + window@.len() <= u64::MAX,
    ensures
        match last_decisive(format@, window@, window@.len() as int, window@.len() as int, open_left) {
            Some((s, e)) => r.0 == Some(
                line_outcome(format@, base + s, window@.subrange(s, e)),
            ),
            None => r.0 is None && r.1 == head_end(
                window@,
                window@.len() as int,
                window@.len() as int,
            ),
        },
        r.1 <= window@.len(),
{
    let n = window.len();
    let mut end: usize = n;
    let mut i: usize = n;
    while i > 0
        invariant
            i <= end <= n,
            n == window@.len(),
            base + n <= u64::MAX,
            last_decisive(format@, window@, n as int, n as int, open_left) == last_decisive(
                format@,
                window@,
                i as int,
                end as int,
                open_left,
            ),
            head_end(window@, n as int, n as int) == head_end(window@, i as int, end as int),
        decreases i,
    {
        if window[i - 1] == NEWLINE {
            let line = slice_subrange(window, i, end);
            match examine(format, line, base + i as u64) {
                Some(outcome) => {
                    return (Some(outcome), end);
                },
                None => {},
            }
            end = i - 1;
        }
        i = i - 1;
    }
    if !open_left {
        let line = slice_subrange(window, 0, end);
        match examine(format, line, base) {
            Some(outcome) => {
                return (Some(outcome), end);
            },
            None => {},
        }
    }
    (None, end)
}

} // verus!
