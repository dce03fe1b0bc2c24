//! Finding the format of a log by sampling its first lines.
//!
//! The lines of a log are tried in order against the catalog, each line
//! together with the newline that ends it. The first line in which a format
//! matches decides. No more than [`MAX_SAMPLING_LINES`] lines are looked at;
//! behind the end of the log the lines are empty.

use crate::format::TimeFormat;
use crate::lines::{decode, NEWLINE};
use crate::registry::{first_matching, lemma_first_matching, DetectError, Registry};
use vstd::prelude::*;
use vstd::slice::*;
use vstd::utf8::*;

verus! {

/// The number of lines that are looked at before detection gives up.
pub const MAX_SAMPLING_LINES: usize = 1000;

/// What a sampled line brought.
#[derive(Clone, Copy, Debug, PartialEq, Eq, Structural)]
pub enum Sampled {
    /// The format at this index of the catalog matches in the line.
    Found(usize),
    /// No format matches in the line; another line may be offered.
    Continue,
    /// No format matched in any line, and no further line is looked at.
    Exhausted,
}

/// What offering `line` brings after `seen` lines, and the number of lines
/// seen after it.
pub open spec fn sample(formats: Seq<TimeFormat>, seen: nat, line: Seq<char>) -> (nat, Sampled) {
    if seen >= MAX_SAMPLING_LINES {
        (seen, Sampled::Exhausted)
    } else {
        match first_matching(formats, line, 0) {
            Some(i) => (seen + 1, Sampled::Found(i as usize)),
            None => if seen + 1 >= MAX_SAMPLING_LINES {
                (seen + 1, Sampled::Exhausted)
            } else {
                (seen + 1, Sampled::Continue)
            },
        }
    }
}

/// Counts the lines that were tried, and stops the sampling at the limit.
#[derive(Debug)]
pub struct LineSampler {
    seen: usize,
}

impl LineSampler {
    /// The number of lines that were looked at.
    pub closed spec fn seen_lines(&self) -> nat {
        self.seen as nat
    }

    /// A sampler that has seen no line.
    pub fn new() -> (sampler: LineSampler)
        ensures
            sampler.seen_lines() == 0,
    {
        LineSampler { seen: 0 }
    }

    /// The number of lines that were looked at.
    pub fn seen(&self) -> (n: usize)
        ensures
            n == self.seen_lines(),
    {
        self.seen
    }

    /// Tries `line` against the catalog, unless the limit is reached. The
    /// sampler is exhausted exactly when the last line that the limit allows
    /// has been looked at without a match.
    pub fn offer(&mut self, registry: &Registry, line: &str) -> (r: Sampled)
        ensures
            (final(self).seen_lines(), r) == sample(
                registry.entries(),
                old(self).seen_lines(),
                line@,
            ),
            r matches Sampled::Found(i) ==> i < registry.entries().len() && first_matching(
                registry.entries(),
                line@,
                0,
            ) == Some(i as int),
            r is Exhausted ==> final(self).seen_lines() >= MAX_SAMPLING_LINES,
            old(self).seen_lines() <= MAX_SAMPLING_LINES ==> final(self).seen_lines()
                <= MAX_SAMPLING_LINES,
    {
        if self.seen >= MAX_SAMPLING_LINES {
            return Sampled::Exhausted;
        }
        self.seen = self.seen + 1;
        proof {
            lemma_first_matching(registry.entries(), line@, 0);
        }
        match registry.position(line) {
            Some(i) => Sampled::Found(i),
            None => if self.seen >= MAX_SAMPLING_LINES {
                Sampled::Exhausted
            } else {
                Sampled::Continue
            },
        }
    }
}

/// The index behind the line that starts at `from`: behind its newline, or
/// the end of `data` where no newline follows.
pub open spec fn line_stop(data: Seq<u8>, from: int) -> int
    decreases data.len() - from,
{
    if from < 0 || from >= data.len() {
        data.len() as int
    } else if data[from] == NEWLINE {
        from + 1
    } else {
        line_stop(data, from + 1)
    }
}

/// What sampling `data` brings, going on at the line that starts at `from`
/// after `seen` lines: the index in the catalog of the format that it finds,
/// and the number of lines that have been looked at when it ends.
pub open spec fn sampling(formats: Seq<TimeFormat>, data: Seq<u8>, from: int, seen: nat) -> (
    Result<int, DetectError>,
    nat,
)
    decreases MAX_SAMPLING_LINES - seen,
{
    if seen >= MAX_SAMPLING_LINES {
        (Err(DetectError::NoFormatMatched), seen)
    } else {
        let stop = line_stop(data, from);
        let line = data.subrange(from, stop);
        if !valid_utf8(line) {
            (Err(DetectError::Utf8DecodeFailure), seen + 1)
        } else {
            match first_matching(formats, decode_utf8(line), 0) {
                Some(i) => (Ok(i), seen + 1),
                None => sampling(formats, data, stop, seen + 1),
            }
        }
    }
}

/// Where line `k` of `data` starts, counting from 0; behind the last line it
/// is the end of `data`.
pub open spec fn nth_line_start(data: Seq<u8>, k: nat) -> int
    decreases k,
{
    if k == 0 {
        0
    } else {
        line_stop(data, nth_line_start(data, (k - 1) as nat))
    }
}

/// Line `k` of `data` with its newline; empty behind the last line.
pub open spec fn nth_line(data: Seq<u8>, k: nat) -> Seq<u8> {
    data.subrange(nth_line_start(data, k), line_stop(data, nth_line_start(data, k)))
}

/// The line is valid UTF-8 in which no format of the catalog matches.
pub open spec fn unmatched(formats: Seq<TimeFormat>, line: Seq<u8>) -> bool {
    valid_utf8(line) && first_matching(formats, decode_utf8(line), 0) is None
}

/// Sampling that goes on at line `k` gives up at the limit where no line from
/// there to the limit matches.
pub proof fn lemma_sampling_gives_up_from(formats: Seq<TimeFormat>, data: Seq<u8>, k: nat)
    requires
        k <= MAX_SAMPLING_LINES,
        forall|j: nat| k <= j < MAX_SAMPLING_LINES ==> unmatched(formats, #[trigger] nth_line(data, j)),
    ensures
        sampling(formats, data, nth_line_start(data, k), k) == (
            Err::<int, DetectError>(DetectError::NoFormatMatched),
            MAX_SAMPLING_LINES as nat,
        ),
    decreases MAX_SAMPLING_LINES - k,
{
    if k < MAX_SAMPLING_LINES {
        assert(unmatched(formats, nth_line(data, k)));
        assert(nth_line_start(data, k + 1) == line_stop(data, nth_line_start(data, k)));
        lemma_sampling_gives_up_from(formats, data, k + 1);
    }
}

/// A log whose first 1000 lines match no format of the catalog has no
/// format, and exactly 1000 lines are looked at to find that out.
pub proof fn lemma_detection_gives_up(formats: Seq<TimeFormat>, data: Seq<u8>)
    requires
        forall|j: nat| j < MAX_SAMPLING_LINES ==> unmatched(formats, #[trigger] nth_line(data, j)),
    ensures
        sampling(formats, data, 0, 0) == (
            Err::<int, DetectError>(DetectError::NoFormatMatched),
            MAX_SAMPLING_LINES as nat,
        ),
{
    lemma_sampling_gives_up_from(formats, data, 0);
}

/// The index behind the line of `data` that starts at `from`.
pub fn find_line_stop(data: &[u8], from: usize) -> (stop: usize)
    requires
        from <= data@.len(),
    ensures
        stop == line_stop(data@, from as int),
        from <= stop <= data@.len(),
{
    let n = data.len();
    let mut i: usize = from;
    while i < n
        invariant
            from <= i <= n,
            n == data@.len(),
            line_stop(data@, from as int) == line_stop(data@, i as int),
        decreases n - i,
    {
        if data[i] == NEWLINE {
            return i + 1;
        }
        i = i + 1;
    }
    n
}

/// Samples the lines of `data`. Returns the index in the catalog of the
/// format that was found, and the number of lines that were looked at.
pub fn sample_lines(registry: &Registry, data: &[u8]) -> (r: (Result<usize, DetectError>, usize))
    ensures
        r.1 == sampling(registry.entries(), data@, 0, 0).1,
        match r.0 {
            Ok(i) => i < registry.entries().len() && sampling(registry.entries(), data@, 0, 0).0
                == Ok::<int, DetectError>(i as int),
            Err(e) => sampling(registry.entries(), data@, 0, 0).0 == Err::<int, DetectError>(e),
        },
{
    let mut sampler = LineSampler::new();
    let mut from: usize = 0;
    loop
        invariant
            from <= data@.len(),
            sampler.seen_lines() < MAX_SAMPLING_LINES,
            sampling(registry.entries(), data@, 0, 0) == sampling(
                registry.entries(),
                data@,
                from as int,
                sampler.seen_lines(),
            ),
        decreases MAX_SAMPLING_LINES - sampler.seen_lines(),
    {
        let stop = find_line_stop(data, from);
        let line = slice_subrange(data, from, stop);
        match decode(line) {
            None => {
                return (Err(DetectError::Utf8DecodeFailure), sampler.seen() + 1);
            },
            Some(text) => {
                proof {
                    encode_utf8_decode_utf8(text@);
                }
                match sampler.offer(registry, text) {
                    Sampled::Found(i) => {
                        return (Ok(i), sampler.seen());
                    },
                    Sampled::Exhausted => {
                        assert(sampling(
                            registry.entries(),
                            data@,
                            stop as int,
                            sampler.seen_lines(),
                        ).0 is Err);
                        return (Err(DetectError::NoFormatMatched), sampler.seen());
                    },
                    Sampled::Continue => {
                        from = stop;
                    },
                }
            },
        }
    }
}

/// The format of the log `data`: the first format of the catalog that
/// matches in the first line in which any format matches, among the first
/// 1000 lines.
pub fn detect_file_time_format<'a>(registry: &'a Registry, data: &[u8]) -> (r: Result<
    &'a TimeFormat,
    DetectError,
>)
    ensures
        r == match sampling(registry.entries(), data@, 0, 0).0 {
            Ok(i) => Ok::<&TimeFormat, DetectError>(&registry.entries()[i]),
            Err(e) => Err::<&TimeFormat, DetectError>(e),
        },
{
    match sample_lines(registry, data).0 {
        Ok(i) => match registry.get(i) {
            Some(format) => Ok(format),
            None => Err(DetectError::NoFormatMatched),
        },
        Err(e) => Err(e),
    }
}

} // verus!
