//! The boundary scan: the first and the last timestamped line of a log, found
//! by reading it in chunks of a fixed size from either end.
//!
//! A scan owns a buffer of at most `capacity` bytes. It asks for a block of
//! the file, is fed that block, and either stops at a line or keeps the
//! unfinished line at the edge of the block for the next round. Reading is
//! left to the caller: [`ForwardScan`] and [`BackwardScan`] only say which
//! bytes they want and what follows from them. [`scan_forward`] and
//! [`scan_backward`] run the two scans over a log that is in memory.
//!
//! A line that does not fit into the buffer is given up: its bytes are
//! dropped, and what follows is read as if a new line began there. Where
//! every line fits, the scans return what [`crate::bracket`] says of the log
//! as a whole, whatever the size of the buffer.
//!
//! The scan from the start looks only at lines that end in a newline: a last
//! line without one is not seen by it. The scan from the end sees that line.

use crate::bracket::{
    bracket, first_line, last_line, lemma_backward_run_is_last_line,
    lemma_forward_run_is_first_line, lemma_range_run_is_bracket, lines_fit,
};
use crate::format::{TimeFormat, TimeFormatView};
use crate::lines::{
    first_decisive, head_end, last_decisive, lemma_head_end_bounds, lemma_tail_start_bounds,
    line_outcome, scan_left_to_right, scan_right_to_left, tail_start, LineMatch, RangeError,
};
use vstd::prelude::*;
use vstd::slice::*;

verus! {

/// The largest buffer that a scan of a file uses by default.
pub const DEFAULT_CAPACITY: usize = 4096;

/// The first and the last timestamped line of a log. The first one does not
/// lie behind the last one; nothing is said of the order of their instants.
#[derive(Clone, Copy, Debug, PartialEq, Eq, Structural)]
pub struct FileTimeRange {
    pub start: LineMatch,
    pub end: LineMatch,
}

impl FileTimeRange {
    /// The first line does not lie behind the last one.
    pub open spec fn ordered(self) -> bool {
        self.start.byte_offset <= self.end.byte_offset
    }
}

/// The range from `start` to what the scan from the end returned. An end
/// before the start is no end: the two scans can disagree in this way only
/// over a line that is longer than the buffer.
pub open spec fn paired(start: LineMatch, found: Result<LineMatch, RangeError>) -> Result<
    FileTimeRange,
    RangeError,
> {
    match found {
        Err(e) => Err(e),
        Ok(end) => if start.byte_offset <= end.byte_offset {
            Ok(FileTimeRange { start, end })
        } else {
            Err(RangeError::NoEndFound)
        },
    }
}

/// The state of a scan.
pub struct ScanView {
    /// Length of the file.
    pub file_len: nat,
    /// Size of the buffer.
    pub capacity: nat,
    /// The side of the kept bytes that lies towards the part of the file
    /// already dealt with: for a scan from the start the offset of the first
    /// kept byte, for a scan from the end the offset behind the last one.
    pub edge: nat,
    /// The unfinished line kept from the last block.
    pub leftover: Seq<u8>,
}

impl ScanView {
    /// The kept bytes leave room in the buffer.
    pub open spec fn roomy(self) -> bool {
        self.leftover.len() == 0 || self.leftover.len() < self.capacity
    }

    /// A scan from the start that has read nothing yet.
    pub open spec fn at_start(file_len: nat, capacity: nat) -> ScanView {
        ScanView { file_len, capacity, edge: 0, leftover: Seq::empty() }
    }

    /// A scan from the end that has read nothing yet.
    pub open spec fn at_end(file_len: nat, capacity: nat) -> ScanView {
        ScanView { file_len, capacity, edge: file_len, leftover: Seq::empty() }
    }

    /// A state that a scan from the start can be in.
    pub open spec fn forward_wf(self) -> bool {
        self.roomy() && self.edge + self.leftover.len() <= self.file_len
    }

    /// Where a scan from the start reads next.
    pub open spec fn forward_offset(self) -> int {
        (self.edge + self.leftover.len()) as int
    }

    /// How many bytes a scan from the start reads next: what fills the
    /// buffer, or what is left of the file.
    pub open spec fn forward_wanted(self) -> int {
        let room = self.capacity - self.leftover.len();
        let rest = self.file_len - self.forward_offset();
        if room <= rest {
            room
        } else {
            rest
        }
    }

    /// A state that a scan from the end can be in.
    pub open spec fn backward_wf(self) -> bool {
        self.roomy() && self.leftover.len() <= self.edge <= self.file_len
    }

    /// How many bytes a scan from the end reads next: what fills the buffer,
    /// or what is left of the file before the kept bytes.
    pub open spec fn backward_wanted(self) -> int {
        let room = self.capacity - self.leftover.len();
        let rest = self.edge - self.leftover.len();
        if room <= rest {
            room
        } else {
            rest
        }
    }

    /// Where a scan from the end reads next.
    pub open spec fn backward_offset(self) -> int {
        self.edge - self.leftover.len() - self.backward_wanted()
    }
}

/// The outcome of a step: the next state, and the result where the scan is
/// over.
pub type Step = (ScanView, Option<Result<LineMatch, RangeError>>);

/// One step of a scan from the start that is fed `fresh`.
///
/// Nothing fresh means that the file is at its end. Otherwise the kept bytes
/// and the fresh ones are scanned from the left. Where no line is decisive the
/// unfinished last line is kept, unless it fills the buffer: then it is
/// dropped.
pub open spec fn forward_step(format: TimeFormatView, state: ScanView, fresh: Seq<u8>) -> Step {
    let window = state.leftover + fresh;
    if fresh.len() == 0 {
        (state, Some(Err(RangeError::NoStartFound)))
    } else {
        match first_decisive(format, window, 0, 0) {
            Some((s, e)) => (
                state,
                Some(line_outcome(format, state.edge + s, window.subrange(s, e))),
            ),
            None => {
                let t = tail_start(window, 0, 0);
                if window.len() - t >= state.capacity {
                    (
                        ScanView {
                            file_len: state.file_len,
                            capacity: state.capacity,
                            edge: state.edge + window.len(),
                            leftover: Seq::empty(),
                        },
                        None,
                    )
                } else {
                    (
                        ScanView {
                            file_len: state.file_len,
                            capacity: state.capacity,
                            edge: (state.edge + t) as nat,
                            leftover: window.subrange(t, window.len() as int),
                        },
                        None,
                    )
                }
            },
        }
    }
}

/// One step of a scan from the end that is fed `fresh`, the bytes just before
/// the kept ones.
///
/// The fresh bytes and the kept ones are scanned from the right; the piece
/// before the first newline counts as a line only where the block starts the
/// file. Where no line is decisive the scan is over at the start of the file,
/// and with a buffer of no size. Otherwise the piece before the first newline
/// is kept, unless it fills the buffer: then it is dropped.
pub open spec fn backward_step(format: TimeFormatView, state: ScanView, fresh: Seq<u8>) -> Step {
    let window = fresh + state.leftover;
    let base = state.edge - window.len();
    let n = window.len() as int;
    match last_decisive(format, window, n, n, base > 0) {
        Some((s, e)) => (state, Some(line_outcome(format, base + s, window.subrange(s, e)))),
        None => {
            let h = head_end(window, n, n);
            if base <= 0 || fresh.len() == 0 {
                (state, Some(Err(RangeError::NoEndFound)))
            } else if h >= state.capacity {
                (
                    ScanView {
                        file_len: state.file_len,
                        capacity: state.capacity,
                        edge: base as nat,
                        leftover: Seq::empty(),
                    },
                    None,
                )
            } else {
                (
                    ScanView {
                        file_len: state.file_len,
                        capacity: state.capacity,
                        edge: (base + h) as nat,
                        leftover: window.subrange(0, h),
                    },
                    None,
                )
            }
        },
    }
}

/// The bytes that a scan from the start in `state` reads from `data`.
pub open spec fn forward_block(data: Seq<u8>, state: ScanView) -> Seq<u8> {
    data.subrange(state.forward_offset(), state.forward_offset() + state.forward_wanted())
}

/// The bytes that a scan from the end in `state` reads from `data`.
pub open spec fn backward_block(data: Seq<u8>, state: ScanView) -> Seq<u8> {
    data.subrange(state.backward_offset(), state.backward_offset() + state.backward_wanted())
}

/// What a scan from the start returns when it goes on from `state` and is fed
/// the bytes of `data` that it asks for.
#[verifier::opaque]
pub open spec fn forward_run(format: TimeFormatView, data: Seq<u8>, state: ScanView) -> Result<
    LineMatch,
    RangeError,
>
    decreases state.file_len - state.forward_offset(),
    when state.forward_wf() && state.file_len == data.len()
    via forward_run_terminates
{
    let (next, done) = forward_step(format, state, forward_block(data, state));
    match done {
        Some(r) => r,
        None => forward_run(format, data, next),
    }
}

/// What a scan from the end returns when it goes on from `state` and is fed
/// the bytes of `data` that it asks for.
#[verifier::opaque]
pub open spec fn backward_run(format: TimeFormatView, data: Seq<u8>, state: ScanView) -> Result<
    LineMatch,
    RangeError,
>
    decreases state.edge - state.leftover.len(),
    when state.backward_wf() && state.file_len == data.len()
    via backward_run_terminates
{
    let (next, done) = backward_step(format, state, backward_block(data, state));
    match done {
        Some(r) => r,
        None => backward_run(format, data, next),
    }
}

/// A step of a scan from the start that does not end the scan leaves it in a
/// state that it can be in, further on by the length of the block.
pub proof fn lemma_forward_step_moves(format: TimeFormatView, state: ScanView, fresh: Seq<u8>)
    requires
        state.forward_wf(),
        fresh.len() == state.forward_wanted(),
    ensures
        ({
            let (next, done) = forward_step(format, state, fresh);
            &&& next.forward_wf()
            &&& next.file_len == state.file_len
            &&& next.capacity == state.capacity
            &&& done is None ==> fresh.len() > 0 && next.forward_offset() == state.forward_offset()
                + fresh.len()
        }),
{
    lemma_tail_start_bounds(state.leftover + fresh, 0, 0);
}

/// A step of a scan from the end that does not end the scan leaves it in a
/// state that it can be in, with its kept bytes starting nearer to the start
/// of the file.
pub proof fn lemma_backward_step_moves(format: TimeFormatView, state: ScanView, fresh: Seq<u8>)
    requires
        state.backward_wf(),
        fresh.len() == state.backward_wanted(),
    ensures
        ({
            let (next, done) = backward_step(format, state, fresh);
            &&& next.backward_wf()
            &&& next.file_len == state.file_len
            &&& next.capacity == state.capacity
            &&& done is None ==> next.edge - next.leftover.len() < state.edge
                - state.leftover.len()
        }),
{
    let window = fresh + state.leftover;
    lemma_head_end_bounds(window, window.len() as int, window.len() as int);
}

#[via_fn]
proof fn forward_run_terminates(format: TimeFormatView, data: Seq<u8>, state: ScanView) {
    lemma_forward_step_moves(format, state, forward_block(data, state));
}

#[via_fn]
proof fn backward_run_terminates(format: TimeFormatView, data: Seq<u8>, state: ScanView) {
    lemma_backward_step_moves(format, state, backward_block(data, state));
}

/// A run from the start is its first step, then the run from the next state.
pub proof fn lemma_forward_run_unfolds(format: TimeFormatView, data: Seq<u8>, state: ScanView)
    requires
        state.forward_wf(),
        state.file_len == data.len(),
    ensures
        ({
            let (next, done) = forward_step(format, state, forward_block(data, state));
            forward_run(format, data, state) == match done {
                Some(r) => r,
                None => forward_run(format, data, next),
            }
        }),
{
    reveal(forward_run);
    lemma_forward_step_moves(format, state, forward_block(data, state));
}

/// A run from the end is its first step, then the run from the next state.
pub proof fn lemma_backward_run_unfolds(format: TimeFormatView, data: Seq<u8>, state: ScanView)
    requires
        state.backward_wf(),
        state.file_len == data.len(),
    ensures
        ({
            let (next, done) = backward_step(format, state, backward_block(data, state));
            backward_run(format, data, state) == match done {
                Some(r) => r,
                None => backward_run(format, data, next),
            }
        }),
{
    reveal(backward_run);
    lemma_backward_step_moves(format, state, backward_block(data, state));
}

/// What the two scans of `data` return together: the error of the first one
/// that fails, the scan from the start first.
pub open spec fn range_run(format: TimeFormatView, data: Seq<u8>, capacity: nat) -> Result<
    FileTimeRange,
    RangeError,
> {
    match forward_run(format, data, ScanView::at_start(data.len(), capacity)) {
        Err(e) => Err(e),
        Ok(start) => paired(
            start,
            backward_run(format, data, ScanView::at_end(data.len(), capacity)),
        ),
    }
}

/// The buffer size that a scan of a file of `file_len` bytes uses by default.
pub open spec fn default_capacity(file_len: nat) -> nat {
    if file_len <= DEFAULT_CAPACITY {
        file_len
    } else {
        DEFAULT_CAPACITY as nat
    }
}

/// `head` followed by `tail`, in a buffer of its own.
fn joined(head: &[u8], tail: &[u8]) -> (r: Vec<u8>)
    ensures
        r@ == head@ + tail@,
{
    let mut r: Vec<u8> = Vec::new();
    r.extend_from_slice(head);
    r.extend_from_slice(tail);
    assert(r@ =~= head@ + tail@);
    r
}

/// A scan from the start of a file for its first timestamped line.
#[derive(Debug)]
pub struct ForwardScan {
    file_len: u64,
    capacity: usize,
    edge: u64,
    leftover: Vec<u8>,
}

impl View for ForwardScan {
    type V = ScanView;

    closed spec fn view(&self) -> ScanView {
        ScanView {
            file_len: self.file_len as nat,
            capacity: self.capacity as nat,
            edge: self.edge as nat,
            leftover: self.leftover@,
        }
    }
}

impl ForwardScan {
    /// The scan is in a state that it can be in.
    pub open spec fn wf(&self) -> bool {
        self@.forward_wf()
    }

    /// A scan of a file of `file_len` bytes with a buffer of `capacity`
    /// bytes.
    pub fn new(file_len: u64, capacity: usize) -> (scan: ForwardScan)
        ensures
            scan.wf(),
            scan@ == ScanView::at_start(file_len as nat, capacity as nat),
    {
        ForwardScan { file_len, capacity, edge: 0, leftover: Vec::new() }
    }

    /// The offset at which the next block starts.
    pub fn offset(&self) -> (offset: u64)
        requires
            self.wf(),
        ensures
            offset == self@.forward_offset(),
    {
        self.edge + self.leftover.len() as u64
    }

    /// The length of the next block. It is 0 at the end of the file, and
    /// with a buffer of no size.
    pub fn wanted(&self) -> (len: usize)
        requires
            self.wf(),
        ensures
            len == self@.forward_wanted(),
            self@.leftover.len() + len <= self@.capacity,
            self@.forward_offset() + len <= self@.file_len,
    {
        let room: usize = self.capacity - self.leftover.len();
        let rest: u64 = self.file_len - (self.edge + self.leftover.len() as u64);
        if room as u64 <= rest {
            room
        } else {
            rest as usize
        }
    }

    /// Takes the block that the scan asked for. Returns the result where the
    /// scan is over, and `None` where it wants another block; the scan then
    /// has moved on by the length of `fresh`.
    pub fn feed(&mut self, format: &TimeFormat, fresh: &[u8]) -> (r: Option<
        Result<LineMatch, RangeError>,
    >)
        requires
            old(self).wf(),
            fresh@.len() == old(self)@.forward_wanted(),
        ensures
            final(self).wf(),
            (final(self)@, r) == forward_step(format@, old(self)@, fresh@),
            r is None ==> fresh@.len() > 0 && final(self)@.forward_offset() == old(
                self,
            )@.forward_offset() + fresh@.len(),
    {
        if fresh.len() == 0 {
            return Some(Err(RangeError::NoStartFound));
        }
        let window = joined(self.leftover.as_slice(), fresh);
        let (found, tail) = scan_left_to_right(format, window.as_slice(), self.edge);
        match found {
            Some(outcome) => Some(outcome),
            None => {
                if window.len() - tail >= self.capacity {
                    self.edge = self.edge + window.len() as u64;
                    self.leftover = Vec::new();
                } else {
                    self.edge = self.edge + tail as u64;
                    self.leftover = slice_to_vec(
                        slice_subrange(window.as_slice(), tail, window.len()),
                    );
                }
                None
            },
        }
    }
}

/// A scan from the end of a file for its last timestamped line.
#[derive(Debug)]
pub struct BackwardScan {
    file_len: u64,
    capacity: usize,
    edge: u64,
    leftover: Vec<u8>,
}

impl View for BackwardScan {
    type V = ScanView;

    closed spec fn view(&self) -> ScanView {
        ScanView {
            file_len: self.file_len as nat,
            capacity: self.capacity as nat,
            edge: self.edge as nat,
            leftover: self.leftover@,
        }
    }
}

impl BackwardScan {
    /// The scan is in a state that it can be in.
    pub open spec fn wf(&self) -> bool {
        self@.backward_wf()
    }

    /// A scan of a file of `file_len` bytes with a buffer of `capacity`
    /// bytes.
    pub fn new(file_len: u64, capacity: usize) -> (scan: BackwardScan)
        ensures
            scan.wf(),
            scan@ == ScanView::at_end(file_len as nat, capacity as nat),
    {
        BackwardScan { file_len, capacity, edge: file_len, leftover: Vec::new() }
    }

    /// The length of the next block. It is 0 where the kept bytes reach the
    /// start of the file, and with a buffer of no size.
    pub fn wanted(&self) -> (len: usize)
        requires
            self.wf(),
        ensures
            len == self@.backward_wanted(),
            self@.leftover.len() + len <= self@.capacity,
            len <= self@.edge - self@.leftover.len(),
    {
        let room: usize = self.capacity - self.leftover.len();
        let rest: u64 = self.edge - self.leftover.len() as u64;
        if room as u64 <= rest {
            room
        } else {
            rest as usize
        }
    }

    /// The offset at which the next block starts.
    pub fn offset(&self) -> (offset: u64)
        requires
            self.wf(),
        ensures
            offset == self@.backward_offset(),
            offset + self@.backward_wanted() == self@.edge - self@.leftover.len(),
    {
        self.edge - self.leftover.len() as u64 - self.wanted() as u64
    }

    /// Takes the block that the scan asked for. Returns the result where the
    /// scan is over, and `None` where it wants another block; the scan then
    /// has moved towards the start of the file.
    pub fn feed(&mut self, format: &TimeFormat, fresh: &[u8]) -> (r: Option<
        Result<LineMatch, RangeError>,
    >)
        requires
            old(self).wf(),
            fresh@.len() == old(self)@.backward_wanted(),
        ensures
            final(self).wf(),
            (final(self)@, r) == backward_step(format@, old(self)@, fresh@),
            r is None ==> final(self)@.edge - final(self)@.leftover.len() < old(self)@.edge - old(
                self,
            )@.leftover.len(),
    {
        let window = joined(fresh, self.leftover.as_slice());
        let base: u64 = self.edge - window.len() as u64;
        let (found, head) = scan_right_to_left(format, window.as_slice(), base, base > 0);
        match found {
            Some(outcome) => Some(outcome),
            None => {
                if base == 0 || fresh.len() == 0 {
                    return Some(Err(RangeError::NoEndFound));
                }
                if head >= self.capacity {
                    self.edge = base;
                    self.leftover = Vec::new();
                } else {
                    self.edge = base + head as u64;
                    self.leftover = slice_to_vec(slice_subrange(window.as_slice(), 0, head));
                }
                None
            },
        }
    }
}

/// Scans `data` from the start with a buffer of `capacity` bytes.
pub fn scan_forward(format: &TimeFormat, data: &[u8], capacity: usize) -> (r: Result<
    LineMatch,
    RangeError,
>)
    ensures
        r == forward_run(format@, data@, ScanView::at_start(data@.len(), capacity as nat)),
        lines_fit(data@, capacity as nat) ==> r == first_line(format@, data@),
{
    let mut scan = ForwardScan::new(data.len() as u64, capacity);
    loop
        invariant
            scan.wf(),
            scan@.file_len == data@.len(),
            data@.len() <= usize::MAX,
            forward_run(format@, data@, ScanView::at_start(data@.len(), capacity as nat))
                == forward_run(format@, data@, scan@),
        decreases scan@.file_len - scan@.forward_offset(),
    {
        let ghost before = scan@;
        let len = scan.wanted();
        let offset = scan.offset() as usize;
        let block = slice_subrange(data, offset, offset + len);
        proof {
            assert(block@ == forward_block(data@, before));
            lemma_forward_run_unfolds(format@, data@, before);
        }
        match scan.feed(format, block) {
            Some(r) => {
                proof {
                    if lines_fit(data@, capacity as nat) {
                        lemma_forward_run_is_first_line(format@, data@, capacity as nat);
                    }
                }
                return r;
            },
            None => {},
        }
    }
}

/// Scans `data` from the end with a buffer of `capacity` bytes.
pub fn scan_backward(format: &TimeFormat, data: &[u8], capacity: usize) -> (r: Result<
    LineMatch,
    RangeError,
>)
    ensures
        r == backward_run(format@, data@, ScanView::at_end(data@.len(), capacity as nat)),
        lines_fit(data@, capacity as nat) ==> r == last_line(format@, data@),
{
    let mut scan = BackwardScan::new(data.len() as u64, capacity);
    loop
        invariant
            scan.wf(),
            scan@.file_len == data@.len(),
            data@.len() <= usize::MAX,
            backward_run(format@, data@, ScanView::at_end(data@.len(), capacity as nat))
                == backward_run(format@, data@, scan@),
        decreases scan@.edge - scan@.leftover.len(),
    {
        let ghost before = scan@;
        let len = scan.wanted();
        let offset = scan.offset() as usize;
        let block = slice_subrange(data, offset, offset + len);
        proof {
            assert(block@ == backward_block(data@, before));
            lemma_backward_run_unfolds(format@, data@, before);
        }
        match scan.feed(format, block) {
            Some(r) => {
                proof {
                    if lines_fit(data@, capacity as nat) {
                        lemma_backward_run_is_last_line(format@, data@, capacity as nat);
                    }
                }
                return r;
            },
            None => {},
        }
    }
}

/// The state of the two scans run one after the other.
pub struct RangeView {
    /// The first timestamped line, once the scan from the start has found it.
    pub start: Option<LineMatch>,
    /// The scan from the start.
    pub forward: ScanView,
    /// The scan from the end.
    pub backward: ScanView,
}

impl RangeView {
    /// The two scans before the first block, for a file of `file_len` bytes
    /// and a buffer of `capacity` bytes.
    pub open spec fn initial(file_len: nat, capacity: nat) -> RangeView {
        RangeView {
            start: None,
            forward: ScanView::at_start(file_len, capacity),
            backward: ScanView::at_end(file_len, capacity),
        }
    }

    /// A state that the two scans can be in.
    pub open spec fn wf(self) -> bool {
        &&& self.forward.forward_wf()
        &&& self.backward.backward_wf()
        &&& self.forward.file_len == self.backward.file_len
        &&& self.forward.capacity == self.backward.capacity
    }

    /// Where the next block starts.
    pub open spec fn offset(self) -> int {
        if self.start is None {
            self.forward.forward_offset()
        } else {
            self.backward.backward_offset()
        }
    }

    /// The length of the next block.
    pub open spec fn wanted(self) -> int {
        if self.start is None {
            self.forward.forward_wanted()
        } else {
            self.backward.backward_wanted()
        }
    }
}

/// One step of the two scans: the scan from the start is fed until it has
/// found a line, then the scan from the end. The first error ends both, and
/// so does an end that lies before the start.
pub open spec fn range_step(format: TimeFormatView, state: RangeView, fresh: Seq<u8>) -> (
    RangeView,
    Option<Result<FileTimeRange, RangeError>>,
) {
    match state.start {
        None => {
            let (next, done) = forward_step(format, state.forward, fresh);
            match done {
                None => (RangeView { start: None, forward: next, backward: state.backward }, None),
                Some(Ok(found)) => (
                    RangeView { start: Some(found), forward: next, backward: state.backward },
                    None,
                ),
                Some(Err(e)) => (
                    RangeView { start: None, forward: next, backward: state.backward },
                    Some(Err(e)),
                ),
            }
        },
        Some(start) => {
            let (next, done) = backward_step(format, state.backward, fresh);
            let after = RangeView { start: Some(start), forward: state.forward, backward: next };
            match done {
                None => (after, None),
                Some(found) => (after, Some(paired(start, found))),
            }
        },
    }
}

/// What the two scans return when they go on from `state` and are fed the
/// bytes of `data` that they ask for.
pub open spec fn range_rest(format: TimeFormatView, data: Seq<u8>, state: RangeView) -> Result<
    FileTimeRange,
    RangeError,
> {
    let start = match state.start {
        None => forward_run(format, data, state.forward),
        Some(found) => Ok(found),
    };
    match start {
        Err(e) => Err(e),
        Ok(start) => paired(start, backward_run(format, data, state.backward)),
    }
}

/// The buffer size that a scan of a file of `file_len` bytes uses by default:
/// 4096 bytes, or the size of the file where that is less.
pub fn default_capacity_for(file_len: u64) -> (capacity: usize)
    ensures
        capacity == default_capacity(file_len as nat),
{
    if file_len <= DEFAULT_CAPACITY as u64 {
        file_len as usize
    } else {
        DEFAULT_CAPACITY
    }
}

/// The scan of a file for its first and its last timestamped line: the scan
/// from the start, and after it the scan from the end.
#[derive(Debug)]
pub struct RangeScan {
    start: Option<LineMatch>,
    forward: ForwardScan,
    backward: BackwardScan,
}

impl View for RangeScan {
    type V = RangeView;

    closed spec fn view(&self) -> RangeView {
        RangeView { start: self.start, forward: self.forward@, backward: self.backward@ }
    }
}

impl RangeScan {
    /// The scan is in a state that it can be in.
    pub open spec fn wf(&self) -> bool {
        self@.wf()
    }

    /// A scan of a file of `file_len` bytes with a buffer of `capacity`
    /// bytes.
    pub fn new(file_len: u64, capacity: usize) -> (scan: RangeScan)
        ensures
            scan.wf(),
            scan@ == RangeView::initial(file_len as nat, capacity as nat),
    {
        RangeScan {
            start: None,
            forward: ForwardScan::new(file_len, capacity),
            backward: BackwardScan::new(file_len, capacity),
        }
    }

    /// A scan of a file of `file_len` bytes with the default buffer.
    pub fn for_file(file_len: u64) -> (scan: RangeScan)
        ensures
            scan.wf(),
            scan@ == RangeView::initial(file_len as nat, default_capacity(file_len as nat)),
    {
        RangeScan::new(file_len, default_capacity_for(file_len))
    }

    /// The size of the buffer: no block that the scan asks for is longer.
    pub fn capacity(&self) -> (capacity: usize)
        ensures
            capacity == self@.forward.capacity,
    {
        self.forward.capacity
    }

    /// The offset at which the next block starts.
    pub fn offset(&self) -> (offset: u64)
        requires
            self.wf(),
        ensures
            offset == self@.offset(),
            offset + self@.wanted() <= self@.forward.file_len,
    {
        if self.start.is_none() {
            self.forward.offset()
        } else {
            self.backward.offset()
        }
    }

    /// The length of the next block.
    pub fn wanted(&self) -> (len: usize)
        requires
            self.wf(),
        ensures
            len == self@.wanted(),
            len <= self@.forward.capacity,
    {
        if self.start.is_none() {
            self.forward.wanted()
        } else {
            self.backward.wanted()
        }
    }

    /// Takes the block that the scan asked for. Returns the result where the
    /// scan is over, and `None` where it wants another block.
    pub fn feed(&mut self, format: &TimeFormat, fresh: &[u8]) -> (r: Option<
        Result<FileTimeRange, RangeError>,
    >)
        requires
            old(self).wf(),
            fresh@.len() == old(self)@.wanted(),
        ensures
            final(self).wf(),
            (final(self)@, r) == range_step(format@, old(self)@, fresh@),
            r matches Some(Ok(range)) ==> range.ordered(),
    {
        match self.start {
            None => match self.forward.feed(format, fresh) {
                None => None,
                Some(Ok(found)) => {
                    self.start = Some(found);
                    None
                },
                Some(Err(e)) => Some(Err(e)),
            },
            Some(start) => match self.backward.feed(format, fresh) {
                None => None,
                Some(Ok(end)) => if start.byte_offset <= end.byte_offset {
                    Some(Ok(FileTimeRange { start, end }))
                } else {
                    Some(Err(RangeError::NoEndFound))
                },
                Some(Err(e)) => Some(Err(e)),
            },
        }
    }
}

impl TimeFormat {
    /// The first and the last timestamped line of the log `data`, found with
    /// a buffer of `capacity` bytes.
    pub fn get_timerange_chunked(&self, data: &[u8], capacity: usize) -> (r: Result<
        FileTimeRange,
        RangeError,
    >)
        ensures
            r == range_run(self@, data@, capacity as nat),
            r matches Ok(range) ==> range.ordered(),
            lines_fit(data@, capacity as nat) ==> r == bracket(self@, data@),
    {
        let mut scan = RangeScan::new(data.len() as u64, capacity);
        loop
            invariant
                scan.wf(),
                scan@.forward.file_len == data@.len(),
                data@.len() <= usize::MAX,
                range_run(self@, data@, capacity as nat) == range_rest(self@, data@, scan@),
            decreases
                    (if scan@.start is None {
                        1int
                    } else {
                        0int
                    }),
                    (if scan@.start is None {
                        scan@.forward.file_len - scan@.forward.forward_offset()
                    } else {
                        scan@.backward.edge - scan@.backward.leftover.len()
                    }),
        {
            let ghost before = scan@;
            let len = scan.wanted();
            let offset = scan.offset() as usize;
            let block = slice_subrange(data, offset, offset + len);
            proof {
                if before.start is None {
                    assert(block@ == forward_block(data@, before.forward));
                    lemma_forward_run_unfolds(self@, data@, before.forward);
                    lemma_forward_step_moves(self@, before.forward, block@);
                } else {
                    assert(block@ == backward_block(data@, before.backward));
                    lemma_backward_run_unfolds(self@, data@, before.backward);
                    lemma_backward_step_moves(self@, before.backward, block@);
                }
            }
            match scan.feed(self, block) {
                Some(r) => {
                    proof {
                        if lines_fit(data@, capacity as nat) {
                            lemma_range_run_is_bracket(self@, data@, capacity as nat);
                        }
                    }
                    return r;
                },
                None => {},
            }
        }
    }

    /// The first and the last timestamped line of the log `data`, found with
    /// a buffer of 4096 bytes, or of the size of the log where that is less.
    pub fn get_file_timerange(&self, data: &[u8]) -> (r: Result<FileTimeRange, RangeError>)
        ensures
            r == range_run(self@, data@, default_capacity(data@.len())),
            r matches Ok(range) ==> range.ordered(),
            lines_fit(data@, default_capacity(data@.len())) ==> r == bracket(self@, data@),
    {
        self.get_timerange_chunked(data, default_capacity_for(data.len() as u64))
    }
}

} // verus!
