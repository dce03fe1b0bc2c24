//! What the boundary scan finds, said without chunks.
//!
//! [`first_line`] and [`last_line`] name the lines of a whole log that the two
//! scans are after. The chunked scans of [`crate::scan`] return exactly these
//! for every buffer size into which the lines of the log fit; that is proved
//! here, and with it that the buffer size does not show in the result.

use crate::format::TimeFormatView;
use crate::lines::{
    decisive, first_decisive, head_end, last_decisive, lemma_head_end_bounds,
    lemma_tail_start_bounds, line_outcome, newline_free, tail_start, LineMatch, RangeError,
    NEWLINE,
};
use crate::scan::{
    backward_block, backward_run, backward_step, forward_block, forward_run, forward_step,
    lemma_backward_run_unfolds, lemma_backward_step_moves, lemma_forward_run_unfolds,
    lemma_forward_step_moves, paired, range_run, FileTimeRange, ScanView,
};
use vstd::prelude::*;

verus! {

/// The first timestamped line of `data`: what a scan from the start returns
/// at the first decisive line that ends in a newline. That line is a whole
/// line, and no decisive line that ends in a newline starts before it
/// ([`lemma_first_line_is_first`]).
pub open spec fn first_line(format: TimeFormatView, data: Seq<u8>) -> Result<LineMatch, RangeError> {
    match first_decisive(format, data, 0, 0) {
        Some((s, e)) => line_outcome(format, s, data.subrange(s, e)),
        None => Err(RangeError::NoStartFound),
    }
}

/// The last timestamped line of `data`: what a scan from the end returns at
/// the last decisive line. That line is a whole line, and no decisive line
/// starts behind it ([`lemma_last_line_is_last`]).
pub open spec fn last_line(format: TimeFormatView, data: Seq<u8>) -> Result<LineMatch, RangeError> {
    let n = data.len() as int;
    match last_decisive(format, data, n, n, false) {
        Some((s, e)) => line_outcome(format, s, data.subrange(s, e)),
        None => Err(RangeError::NoEndFound),
    }
}

/// The first and the last timestamped line of `data`, or the error of the
/// first scan that fails.
pub open spec fn bracket(format: TimeFormatView, data: Seq<u8>) -> Result<
    FileTimeRange,
    RangeError,
> {
    match first_line(format, data) {
        Err(e) => Err(e),
        Ok(start) => paired(start, last_line(format, data)),
    }
}

/// The `capacity` bytes of `data` from `from` on hold no newline.
pub open spec fn chunk_free(data: Seq<u8>, from: int, capacity: nat) -> bool {
    newline_free(data, from, from + capacity)
}

/// The lines of `data` fit into a buffer of `capacity` bytes: the buffer has
/// a size, and no `capacity` bytes in a row are without a newline.
pub open spec fn lines_fit(data: Seq<u8>, capacity: nat) -> bool {
    &&& capacity > 0
    &&& forall|from: int|
        0 <= from && from + capacity <= data.len() ==> !#[trigger] chunk_free(data, from, capacity)
}

/// Reading on inside a line finds what reading on from further inside it
/// finds.
proof fn lemma_first_decisive_skips(
    format: TimeFormatView,
    data: Seq<u8>,
    start: int,
    i: int,
    j: int,
)
    requires
        0 <= i <= j <= data.len(),
        newline_free(data, i, j),
    ensures
        first_decisive(format, data, start, i) == first_decisive(format, data, start, j),
    decreases j - i,
{
    if i < j {
        lemma_first_decisive_skips(format, data, start, i + 1, j);
    }
}

/// A scan of a block from the left finds what a scan of the whole finds from
/// where the block starts, or leaves the whole scan at the unfinished last
/// line of the block.
proof fn lemma_first_decisive_in_block(
    format: TimeFormatView,
    data: Seq<u8>,
    p: int,
    q: int,
    start: int,
    i: int,
)
    requires
        0 <= p <= q <= data.len(),
        0 <= start <= i <= q - p,
        newline_free(data, p + start, p + i),
    ensures
        ({
            let block = data.subrange(p, q);
            let t = tail_start(block, start, i);
            match first_decisive(format, block, start, i) {
                Some((s, e)) => {
                    &&& start <= s <= e < block.len()
                    &&& first_decisive(format, data, p + start, p + i) == Some((p + s, p + e))
                    &&& block.subrange(s, e) == data.subrange(p + s, p + e)
                },
                None => {
                    &&& start <= t <= block.len()
                    &&& first_decisive(format, data, p + start, p + i) == first_decisive(
                        format,
                        data,
                        p + t,
                        q,
                    )
                    &&& newline_free(data, p + t, q)
                },
            }
        }),
    decreases q - p - i,
{
    let block = data.subrange(p, q);
    if i < q - p {
        assert(block[i] == data[p + i]);
        if block[i] == NEWLINE {
            assert(block.subrange(start, i) =~= data.subrange(p + start, p + i));
            if !decisive(format, block.subrange(start, i)) {
                lemma_first_decisive_in_block(format, data, p, q, i + 1, i + 1);
            }
        } else {
            lemma_first_decisive_in_block(format, data, p, q, start, i + 1);
        }
    }
}

/// What a scan from the start finds from a line start on.
spec fn first_line_from(format: TimeFormatView, data: Seq<u8>, from: int) -> Result<
    LineMatch,
    RangeError,
> {
    match first_decisive(format, data, from, from) {
        Some((s, e)) => line_outcome(format, s, data.subrange(s, e)),
        None => Err(RangeError::NoStartFound),
    }
}

/// A scan from the start that holds the bytes of an unfinished line of
/// `data`.
spec fn forward_holds(data: Seq<u8>, state: ScanView) -> bool {
    &&& state.forward_wf()
    &&& state.file_len == data.len()
    &&& state.leftover == data.subrange(state.edge as int, state.forward_offset())
    &&& newline_free(data, state.edge as int, state.forward_offset())
}

/// Where the lines fit, a scan from the start that holds an unfinished line
/// returns the first timestamped line from the start of that line on.
proof fn lemma_forward_run_from(format: TimeFormatView, data: Seq<u8>, state: ScanView)
    requires
        lines_fit(data, state.capacity),
        forward_holds(data, state),
    ensures
        forward_run(format, data, state) == first_line_from(format, data, state.edge as int),
    decreases state.file_len - state.forward_offset(),
{
    let p = state.edge as int;
    let fresh = forward_block(data, state);
    let q = state.forward_offset() + state.forward_wanted();
    let block = data.subrange(p, q);
    let (next, done) = forward_step(format, state, fresh);
    lemma_forward_run_unfolds(format, data, state);
    lemma_forward_step_moves(format, state, fresh);
    assert(state.leftover + fresh =~= block);
    lemma_first_decisive_skips(format, data, p, p, state.forward_offset());
    if fresh.len() == 0 {
        lemma_first_decisive_skips(format, data, p, state.forward_offset(), data.len() as int);
    } else {
        lemma_first_decisive_in_block(format, data, p, q, 0, 0);
        match first_decisive(format, block, 0, 0) {
            Some((s, e)) => {},
            None => {
                let t = tail_start(block, 0, 0);
                if block.len() - t >= state.capacity {
                    assert(chunk_free(data, p, state.capacity));
                } else {
                    assert(next.leftover =~= data.subrange(p + t, q));
                    lemma_first_decisive_skips(format, data, p + t, p + t, q);
                    lemma_forward_run_from(format, data, next);
                }
            },
        }
    }
}

/// Where the lines of `data` fit into the buffer, the scan from the start
/// returns the first timestamped line of `data`.
pub proof fn lemma_forward_run_is_first_line(format: TimeFormatView, data: Seq<u8>, capacity: nat)
    requires
        lines_fit(data, capacity),
    ensures
        forward_run(format, data, ScanView::at_start(data.len(), capacity)) == first_line(
            format,
            data,
        ),
{
    let state = ScanView::at_start(data.len(), capacity);
    assert(state.leftover =~= data.subrange(0, 0));
    lemma_forward_run_from(format, data, state);
}

/// Reading back inside a line finds what reading back from further inside it
/// finds.
proof fn lemma_last_decisive_skips(
    format: TimeFormatView,
    data: Seq<u8>,
    j: int,
    i: int,
    end: int,
    open_left: bool,
)
    requires
        0 <= j <= i <= data.len(),
        newline_free(data, j, i),
    ensures
        last_decisive(format, data, i, end, open_left) == last_decisive(
            format,
            data,
            j,
            end,
            open_left,
        ),
    decreases i - j,
{
    if j < i {
        assert(data[i - 1] != NEWLINE);
        lemma_last_decisive_skips(format, data, j, i - 1, end, open_left);
    }
}

/// A scan of a block from the right finds what a scan of the whole finds from
/// where the block ends, or leaves the whole scan at the first line of the
/// block; a block that starts the whole leaves nothing.
proof fn lemma_last_decisive_in_block(
    format: TimeFormatView,
    data: Seq<u8>,
    p: int,
    q: int,
    i: int,
    end: int,
)
    requires
        0 <= p <= q <= data.len(),
        0 <= i <= end <= q - p,
        newline_free(data, p + i, p + end),
    ensures
        ({
            let block = data.subrange(p, q);
            let h = head_end(block, i, end);
            match last_decisive(format, block, i, end, p > 0) {
                Some((s, e)) => {
                    &&& 0 <= s <= e <= end
                    &&& last_decisive(format, data, p + i, p + end, false) == Some((p + s, p + e))
                    &&& block.subrange(s, e) == data.subrange(p + s, p + e)
                },
                None => {
                    &&& 0 <= h <= end
                    &&& newline_free(data, p, p + h)
                    &&& last_decisive(format, data, p + i, p + end, false) == last_decisive(
                        format,
                        data,
                        p,
                        p + h,
                        false,
                    )
                    &&& p == 0 ==> last_decisive(format, data, p + i, p + end, false) is None
                },
            }
        }),
    decreases i,
{
    let block = data.subrange(p, q);
    if i > 0 {
        assert(block[i - 1] == data[p + i - 1]);
        if block[i - 1] == NEWLINE {
            assert(block.subrange(i, end) =~= data.subrange(p + i, p + end));
            if !decisive(format, block.subrange(i, end)) {
                lemma_last_decisive_in_block(format, data, p, q, i - 1, i - 1);
            }
        } else {
            lemma_last_decisive_in_block(format, data, p, q, i - 1, end);
        }
    } else {
        assert(block.subrange(0, end) =~= data.subrange(p, p + end));
    }
}

/// What a scan from the end finds from a line end on.
spec fn last_line_upto(format: TimeFormatView, data: Seq<u8>, upto: int) -> Result<
    LineMatch,
    RangeError,
> {
    match last_decisive(format, data, upto, upto, false) {
        Some((s, e)) => line_outcome(format, s, data.subrange(s, e)),
        None => Err(RangeError::NoEndFound),
    }
}

/// A scan from the end that holds the first bytes of a line of `data`.
spec fn backward_holds(data: Seq<u8>, state: ScanView) -> bool {
    &&& state.backward_wf()
    &&& state.file_len == data.len()
    &&& state.leftover == data.subrange(state.edge - state.leftover.len(), state.edge as int)
    &&& newline_free(data, state.edge - state.leftover.len(), state.edge as int)
}

/// Where the lines fit, a scan from the end that holds the first bytes of a
/// line returns the last timestamped line up to the end of that line.
proof fn lemma_backward_run_upto(format: TimeFormatView, data: Seq<u8>, state: ScanView)
    requires
        lines_fit(data, state.capacity),
        backward_holds(data, state),
    ensures
        backward_run(format, data, state) == last_line_upto(format, data, state.edge as int),
    decreases state.edge - state.leftover.len(),
{
    let q = state.edge as int;
    let fresh = backward_block(data, state);
    let p = state.backward_offset();
    let block = data.subrange(p, q);
    let n = block.len() as int;
    let (next, done) = backward_step(format, state, fresh);
    lemma_backward_run_unfolds(format, data, state);
    lemma_backward_step_moves(format, state, fresh);
    assert(fresh + state.leftover =~= block);
    lemma_last_decisive_in_block(format, data, p, q, n, n);
    match last_decisive(format, block, n, n, p > 0) {
        Some((s, e)) => {},
        None => {
            let h = head_end(block, n, n);
            if p <= 0 || fresh.len() == 0 {
            } else if h >= state.capacity {
                assert(chunk_free(data, p, state.capacity));
            } else {
                assert(next.leftover =~= data.subrange(p, p + h));
                lemma_last_decisive_skips(format, data, p, p + h, p + h, false);
                lemma_backward_run_upto(format, data, next);
            }
        },
    }
}

/// Where the lines of `data` fit into the buffer, the scan from the end
/// returns the last timestamped line of `data`.
pub proof fn lemma_backward_run_is_last_line(format: TimeFormatView, data: Seq<u8>, capacity: nat)
    requires
        lines_fit(data, capacity),
    ensures
        backward_run(format, data, ScanView::at_end(data.len(), capacity)) == last_line(
            format,
            data,
        ),
{
    let state = ScanView::at_end(data.len(), capacity);
    assert(state.leftover =~= data.subrange(data.len() as int, data.len() as int));
    lemma_backward_run_upto(format, data, state);
}

/// Where the lines of `data` fit into the buffer, the two scans return the
/// first and the last timestamped line of `data`.
pub proof fn lemma_range_run_is_bracket(format: TimeFormatView, data: Seq<u8>, capacity: nat)
    requires
        lines_fit(data, capacity),
    ensures
        range_run(format, data, capacity) == bracket(format, data),
{
    lemma_forward_run_is_first_line(format, data, capacity);
    lemma_backward_run_is_last_line(format, data, capacity);
}

/// The size of the buffer does not show in the result: two buffers into which
/// the lines of `data` fit give the same range, or the same error.
pub proof fn lemma_chunk_size_invariance(
    format: TimeFormatView,
    data: Seq<u8>,
    capacity: nat,
    other: nat,
)
    requires
        lines_fit(data, capacity),
        lines_fit(data, other),
    ensures
        range_run(format, data, capacity) == range_run(format, data, other),
{
    lemma_range_run_is_bracket(format, data, capacity);
    lemma_range_run_is_bracket(format, data, other);
}

/// The piece of `data` from `s` up to `e` is one whole line: it starts the
/// data or follows a newline, holds no newline, and ends the data or is
/// followed by a newline.
pub open spec fn is_line(data: Seq<u8>, s: int, e: int) -> bool {
    &&& 0 <= s <= e <= data.len()
    &&& s == 0 || data[s - 1] == NEWLINE
    &&& newline_free(data, s, e)
    &&& e == data.len() || data[e] == NEWLINE
}

/// What a scan from the left finds is a decisive piece that ends in a
/// newline; it is a whole line where the scan set out inside one.
proof fn lemma_first_decisive_found(format: TimeFormatView, data: Seq<u8>, start: int, i: int)
    requires
        0 <= start <= i <= data.len(),
    ensures
        first_decisive(format, data, start, i) matches Some((s, e)) ==> {
            &&& start <= s <= e < data.len()
            &&& data[e] == NEWLINE
            &&& decisive(format, data.subrange(s, e))
            &&& (start == 0 || data[start - 1] == NEWLINE) && newline_free(data, start, i)
                ==> is_line(data, s, e)
        },
    decreases data.len() - i,
{
    if i < data.len() {
        if data[i] == NEWLINE {
            if !decisive(format, data.subrange(start, i)) {
                lemma_first_decisive_found(format, data, i + 1, i + 1);
            }
        } else {
            lemma_first_decisive_found(format, data, start, i + 1);
        }
    }
}

/// What a scan from the right finds is a decisive piece; it is a whole line
/// where the scan of a whole log set out inside one.
proof fn lemma_last_decisive_found(
    format: TimeFormatView,
    data: Seq<u8>,
    i: int,
    end: int,
    open_left: bool,
)
    requires
        0 <= i <= end <= data.len(),
    ensures
        last_decisive(format, data, i, end, open_left) matches Some((s, e)) ==> {
            &&& 0 <= s <= e <= end
            &&& decisive(format, data.subrange(s, e))
            &&& (end == data.len() || data[end] == NEWLINE) && newline_free(data, i, end)
                ==> is_line(data, s, e)
        },
    decreases i,
{
    if i > 0 {
        if data[i - 1] == NEWLINE {
            if !decisive(format, data.subrange(i, end)) {
                lemma_last_decisive_found(format, data, i - 1, i - 1, open_left);
            }
        } else {
            lemma_last_decisive_found(format, data, i - 1, end, open_left);
        }
    }
}

/// A scan of the whole from the left stops at a decisive line that ends in a
/// newline, or before it: it does not pass one.
proof fn lemma_first_decisive_not_behind(
    format: TimeFormatView,
    data: Seq<u8>,
    start: int,
    i: int,
    s: int,
    e: int,
)
    requires
        0 <= start <= i <= data.len(),
        newline_free(data, start, i),
        is_line(data, s, e),
        e < data.len(),
        decisive(format, data.subrange(s, e)),
        (s == start && i <= e) || i < s,
    ensures
        first_decisive(format, data, start, i) matches Some((found, _)) && found <= s,
    decreases data.len() - i,
{
    if i < data.len() {
        if data[i] == NEWLINE {
            if s == start {
                assert(i == e) by {
                    if i < e {
                        assert(data[i] != NEWLINE);
                    }
                }
            } else if !decisive(format, data.subrange(start, i)) {
                lemma_first_decisive_not_behind(format, data, i + 1, i + 1, s, e);
            }
        } else {
            lemma_first_decisive_not_behind(format, data, start, i + 1, s, e);
        }
    }
}

/// The first timestamped line is the first: no decisive line that ends in a
/// newline starts before the one that the scan from the start stops at.
pub proof fn lemma_first_line_is_first(format: TimeFormatView, data: Seq<u8>, s: int, e: int)
    requires
        is_line(data, s, e),
        e < data.len(),
        decisive(format, data.subrange(s, e)),
    ensures
        first_decisive(format, data, 0, 0) matches Some((found, end)) && found <= s && is_line(
            data,
            found,
            end,
        ),
{
    lemma_first_decisive_not_behind(format, data, 0, 0, s, e);
    lemma_first_decisive_found(format, data, 0, 0);
}

/// The last timestamped line is the last: no decisive line starts behind the
/// one that the scan from the end stops at.
pub proof fn lemma_last_line_is_last(format: TimeFormatView, data: Seq<u8>, s: int, e: int)
    requires
        is_line(data, s, e),
        decisive(format, data.subrange(s, e)),
    ensures
        last_decisive(format, data, data.len() as int, data.len() as int, false) matches Some(
            (found, end),
        ) && s <= found && is_line(data, found, end),
{
    let n = data.len() as int;
    lemma_last_decisive_not_before(format, data, n, n, s, e);
    lemma_last_decisive_found(format, data, n, n, false);
}

/// A scan of the whole from the right stops at a decisive line or behind it:
/// it does not pass one.
proof fn lemma_last_decisive_not_before(
    format: TimeFormatView,
    data: Seq<u8>,
    i: int,
    end: int,
    s: int,
    e: int,
)
    requires
        0 <= i <= end <= data.len(),
        newline_free(data, i, end),
        is_line(data, s, e),
        decisive(format, data.subrange(s, e)),
        (e == end && s <= i) || e < i,
    ensures
        last_decisive(format, data, i, end, false) matches Some((found, _)) && s <= found,
    decreases i,
{
    if i > 0 {
        if data[i - 1] == NEWLINE {
            if e == end {
                assert(s == i) by {
                    if s < i {
                        assert(data[i - 1] != NEWLINE);
                    }
                }
            } else if !decisive(format, data.subrange(i, end)) {
                lemma_last_decisive_not_before(format, data, i - 1, i - 1, s, e);
            }
        } else {
            lemma_last_decisive_not_before(format, data, i - 1, end, s, e);
        }
    }
}

/// In a log whose offsets fit into 64 bits, the first timestamped line does
/// not lie behind the last one.
pub proof fn lemma_bracket_is_ordered(format: TimeFormatView, data: Seq<u8>)
    requires
        data.len() <= u64::MAX,
    ensures
        match (first_line(format, data), last_line(format, data)) {
            (Ok(start), Ok(end)) => start.byte_offset <= end.byte_offset,
            _ => true,
        },
{
    let n = data.len() as int;
    lemma_first_decisive_found(format, data, 0, 0);
    lemma_last_decisive_found(format, data, n, n, false);
    match first_decisive(format, data, 0, 0) {
        Some((s, e)) => {
            lemma_last_decisive_not_before(format, data, n, n, s, e);
        },
        None => {},
    }
}

/// The range that the two scans return is in order, whatever the log and the
/// buffer: the start does not lie behind the end.
pub proof fn lemma_range_is_ordered(format: TimeFormatView, data: Seq<u8>, capacity: nat)
    ensures
        range_run(format, data, capacity) matches Ok(range) ==> range.ordered(),
{
}

/// What the two scans return for a log of one line that ends in a newline.
pub open spec fn single_line_range(format: TimeFormatView, line: Seq<u8>) -> Result<
    FileTimeRange,
    RangeError,
> {
    if decisive(format, line) {
        match line_outcome(format, 0, line) {
            Ok(found) => Ok(FileTimeRange { start: found, end: found }),
            Err(e) => Err(e),
        }
    } else {
        Err(RangeError::NoStartFound)
    }
}

/// A log of a single line has one and the same start and end, for every
/// format that does not stop at an empty line, and every buffer that the line
/// fits into.
pub proof fn lemma_single_line_file(format: TimeFormatView, line: Seq<u8>, capacity: nat)
    requires
        newline_free(line, 0, line.len() as int),
        line.len() < capacity,
        line.len() < u64::MAX,
        !decisive(format, Seq::<u8>::empty()),
    ensures
        range_run(format, line.push(NEWLINE), capacity) == single_line_range(format, line),
{
    let data = line.push(NEWLINE);
    let n = line.len() as int;
    assert(lines_fit(data, capacity)) by {
        assert forall|from: int| 0 <= from && from + capacity <= data.len() implies !chunk_free(
            data,
            from,
            capacity,
        ) by {
            assert(data[n] == NEWLINE);
        }
    }
    lemma_range_run_is_bracket(format, data, capacity);
    assert(newline_free(data, 0, n));
    assert(data.subrange(0, n) =~= line);
    assert(data.subrange(n + 1, n + 1) =~= Seq::<u8>::empty());
    lemma_first_decisive_skips(format, data, 0, 0, n);
    assert(first_decisive(format, data, n + 1, n + 1) is None);
    assert(first_decisive(format, data, 0, n) == if decisive(format, line) {
        Some((0int, n))
    } else {
        None
    });
    lemma_last_decisive_skips(format, data, 0, n, n, false);
    assert(last_decisive(format, data, 0, n, false) == if decisive(format, line) {
        Some((0int, n))
    } else {
        None
    });
    assert(last_decisive(format, data, n + 1, n + 1, false) == last_decisive(
        format,
        data,
        n,
        n,
        false,
    ));
}

/// No piece of `data` is decisive: every stretch of it is valid UTF-8 in
/// which the pattern does not match.
pub open spec fn nothing_decisive(format: TimeFormatView, data: Seq<u8>) -> bool {
    forall|s: int, e: int|
        0 <= s <= e <= data.len() ==> !decisive(format, #[trigger] data.subrange(s, e))
}

/// In a log without a decisive piece, a scan from the start that holds bytes
/// of the log ends without a line.
proof fn lemma_forward_run_finds_nothing(format: TimeFormatView, data: Seq<u8>, state: ScanView)
    requires
        nothing_decisive(format, data),
        state.forward_wf(),
        state.file_len == data.len(),
        state.leftover == data.subrange(state.edge as int, state.forward_offset()),
    ensures
        forward_run(format, data, state) == Err::<LineMatch, RangeError>(RangeError::NoStartFound),
    decreases state.file_len - state.forward_offset(),
{
    let p = state.edge as int;
    let fresh = forward_block(data, state);
    let q = state.forward_offset() + state.forward_wanted();
    let block = data.subrange(p, q);
    let (next, done) = forward_step(format, state, fresh);
    lemma_forward_run_unfolds(format, data, state);
    lemma_forward_step_moves(format, state, fresh);
    assert(state.leftover + fresh =~= block);
    if fresh.len() > 0 {
        lemma_first_decisive_found(format, block, 0, 0);
        lemma_tail_start_bounds(block, 0, 0);
        match first_decisive(format, block, 0, 0) {
            Some((s, e)) => {
                assert(block.subrange(s, e) =~= data.subrange(p + s, p + e));
            },
            None => {
                let t = tail_start(block, 0, 0);
                if block.len() - t >= state.capacity {
                    assert(next.leftover =~= data.subrange(q, q));
                } else {
                    assert(next.leftover =~= data.subrange(p + t, q));
                }
                lemma_forward_run_finds_nothing(format, data, next);
            },
        }
    }
}

/// In a log without a decisive piece, a scan from the end that holds bytes of
/// the log ends without a line.
proof fn lemma_backward_run_finds_nothing(
    format: TimeFormatView,
    data: Seq<u8>,
    state: ScanView,
)
    requires
        nothing_decisive(format, data),
        state.backward_wf(),
        state.file_len == data.len(),
        state.leftover == data.subrange(state.edge - state.leftover.len(), state.edge as int),
    ensures
        backward_run(format, data, state) == Err::<LineMatch, RangeError>(RangeError::NoEndFound),
    decreases state.edge - state.leftover.len(),
{
    let q = state.edge as int;
    let fresh = backward_block(data, state);
    let p = state.backward_offset();
    let block = data.subrange(p, q);
    let n = block.len() as int;
    let (next, done) = backward_step(format, state, fresh);
    lemma_backward_run_unfolds(format, data, state);
    lemma_backward_step_moves(format, state, fresh);
    assert(fresh + state.leftover =~= block);
    lemma_last_decisive_found(format, block, n, n, p > 0);
    lemma_head_end_bounds(block, n, n);
    match last_decisive(format, block, n, n, p > 0) {
        Some((s, e)) => {
            assert(block.subrange(s, e) =~= data.subrange(p + s, p + e));
        },
        None => {
            let h = head_end(block, n, n);
            if p <= 0 || fresh.len() == 0 {
            } else {
                if h >= state.capacity {
                    assert(next.leftover =~= data.subrange(p, p));
                } else {
                    assert(next.leftover =~= data.subrange(p, p + h));
                }
                lemma_backward_run_finds_nothing(format, data, next);
            }
        },
    }
}

/// A log without a decisive piece has no start and no end, whatever the size
/// of the buffer: the scan from the start ends with `NoStartFound`, the scan
/// from the end with `NoEndFound`, and the two together with the first.
pub proof fn lemma_unmatched_log(format: TimeFormatView, data: Seq<u8>, capacity: nat)
    requires
        nothing_decisive(format, data),
    ensures
        forward_run(format, data, ScanView::at_start(data.len(), capacity)) == Err::<
            LineMatch,
            RangeError,
        >(RangeError::NoStartFound),
        backward_run(format, data, ScanView::at_end(data.len(), capacity)) == Err::<
            LineMatch,
            RangeError,
        >(RangeError::NoEndFound),
        range_run(format, data, capacity) == Err::<FileTimeRange, RangeError>(
            RangeError::NoStartFound,
        ),
{
    let n = data.len() as int;
    let from_start = ScanView::at_start(data.len(), capacity);
    let from_end = ScanView::at_end(data.len(), capacity);
    assert(from_start.leftover =~= data.subrange(0, 0));
    assert(from_end.leftover =~= data.subrange(n, n));
    lemma_forward_run_finds_nothing(format, data, from_start);
    lemma_backward_run_finds_nothing(format, data, from_end);
}

} // verus!
