use bilog::format::{ParseError, ParsedTimestamp, TimeFormat};
use bilog::lines::{LineMatch, RangeError};
use bilog::registry::{RFC3339_LABEL, RFC3339_PATTERN};
use bilog::scan::{
    default_capacity_for, scan_backward, scan_forward, BackwardScan, FileTimeRange, ForwardScan,
    RangeScan, DEFAULT_CAPACITY,
};

const T0: i64 = 1672617600000; // 2023-01-02T00:00:00Z

fn utc_format() -> TimeFormat {
    TimeFormat::with_local_offset(RFC3339_LABEL, RFC3339_PATTERN, 0).unwrap()
}

fn at(byte_offset: u64, millis: i64) -> LineMatch {
    LineMatch { byte_offset, timestamp: ParsedTimestamp { millis } }
}

#[test]
fn two_line_file_is_bracketed() {
    let format = utc_format();
    let data = b"2023-01-02 00:00:00\n2023-01-02 00:00:01\n";
    let range = format.get_file_timerange(data).unwrap();
    assert_eq!(range, FileTimeRange { start: at(0, T0), end: at(20, T0 + 1000) });
    assert!(range.start.byte_offset <= range.end.byte_offset);
}

#[test]
fn single_line_file_has_equal_ends() {
    let format = utc_format();
    let data = b"2023-01-02 00:00:00\n";
    let range = format.get_file_timerange(data).unwrap();
    assert_eq!(range.start, at(0, T0));
    assert_eq!(range.end, range.start);
}

fn sample_log() -> Vec<u8> {
    let mut log = String::new();
    log.push_str("starting up\n");
    log.push_str("\n");
    for i in 0..40 {
        log.push_str(&format!("2023-01-02 00:00:{:02}.5 event {}\n", i, i));
        log.push_str("  detail\n");
    }
    log.push_str("shutting down\n");
    log.into_bytes()
}

#[test]
fn chunk_size_does_not_matter() {
    let format = utc_format();
    let data = sample_log();
    let whole = format.get_timerange_chunked(&data, data.len()).unwrap();
    assert_eq!(whole.start, at(13, T0));
    assert_eq!(whole.end.timestamp, ParsedTimestamp { millis: T0 + 39000 });
    let last_line = data.len() as u64 - "shutting down\n".len() as u64
        - "  detail\n".len() as u64
        - "2023-01-02 00:00:39.5 event 39\n".len() as u64;
    assert_eq!(whole.end.byte_offset, last_line);
    for capacity in [32usize, 33, 47, 64, 100, 4096, data.len() + 10] {
        assert_eq!(format.get_timerange_chunked(&data, capacity), Ok(whole));
    }
    assert_eq!(format.get_file_timerange(&data), Ok(whole));
}

#[test]
fn chunk_sizes_of_a_short_line_log() {
    let format = TimeFormat::with_local_offset(
        "short",
        r"(?P<YEAR>\d{4})(?P<MONTH>\d{2})(?P<DAY>\d{2})(?P<HOUR>\d{2})(?P<MINUTE>\d{2})(?P<SECOND>\d{2})Z(?P<TIMEZONE>(?P<UTC>))",
        0,
    )
    .unwrap();
    let data = b"a\n\n20230102000000Z\nbb\n20230102000001Z\nc\n";
    let expected = FileTimeRange { start: at(3, T0), end: at(22, T0 + 1000) };
    for capacity in [16usize, 17, 20, 64, 4096, data.len()] {
        assert_eq!(format.get_timerange_chunked(data, capacity), Ok(expected));
    }
}

#[test]
fn unmatched_file_ends_both_scans() {
    let format = utc_format();
    let data = b"alpha\nbeta\ngamma\n";
    for capacity in [0usize, 1, 2, 3, 6, 7, 100] {
        assert_eq!(scan_forward(&format, data, capacity), Err(RangeError::NoStartFound));
        assert_eq!(scan_backward(&format, data, capacity), Err(RangeError::NoEndFound));
        assert_eq!(
            format.get_timerange_chunked(data, capacity),
            Err(RangeError::NoStartFound)
        );
    }
    assert_eq!(format.get_file_timerange(data), Err(RangeError::NoStartFound));
}

#[test]
fn empty_file() {
    let format = utc_format();
    assert_eq!(format.get_file_timerange(b""), Err(RangeError::NoStartFound));
    assert_eq!(scan_forward(&format, b"", 16), Err(RangeError::NoStartFound));
    assert_eq!(scan_backward(&format, b"", 16), Err(RangeError::NoEndFound));
    assert_eq!(scan_backward(&format, b"", 0), Err(RangeError::NoEndFound));
}

#[test]
fn last_line_without_newline() {
    let format = utc_format();
    let data = b"2023-01-02 00:00:00\n2023-01-02 00:00:01";
    assert_eq!(scan_forward(&format, data, 64), Ok(at(0, T0)));
    assert_eq!(scan_backward(&format, data, 64), Ok(at(20, T0 + 1000)));
    let only = b"2023-01-02 00:00:01";
    assert_eq!(scan_forward(&format, only, 64), Err(RangeError::NoStartFound));
    assert_eq!(scan_backward(&format, only, 64), Ok(at(0, T0 + 1000)));
    assert_eq!(format.get_file_timerange(only), Err(RangeError::NoStartFound));
}

#[test]
fn undecodable_line_is_an_error() {
    let format = utc_format();
    let data = b"ok\n\xff\xfe\n2023-01-02 00:00:00\nfine\n";
    assert_eq!(scan_forward(&format, data, 64), Err(RangeError::Utf8DecodeFailure));
    assert_eq!(scan_backward(&format, data, 64), Ok(at(6, T0)));
    let data = b"2023-01-02 00:00:00\n\xc3\n";
    assert_eq!(scan_forward(&format, data, 64), Ok(at(0, T0)));
    assert_eq!(scan_backward(&format, data, 64), Err(RangeError::Utf8DecodeFailure));
    assert_eq!(format.get_file_timerange(data), Err(RangeError::Utf8DecodeFailure));
}

#[test]
fn matching_line_that_does_not_parse() {
    let format = utc_format();
    let data = b"2023-02-30 00:00:00\n2023-01-02 00:00:00\n";
    assert_eq!(
        scan_forward(&format, data, 64),
        Err(RangeError::Parse(ParseError::InvalidCalendarDate))
    );
    assert_eq!(scan_backward(&format, data, 64), Ok(at(20, T0)));
    assert_eq!(
        format.get_file_timerange(data),
        Err(RangeError::Parse(ParseError::InvalidCalendarDate))
    );
}

#[test]
fn line_longer_than_the_buffer_is_given_up() {
    let format = TimeFormat::with_local_offset(
        "marker",
        r"(?P<YEAR>\d{4})(?P<MONTH>\d{2})(?P<DAY>\d{2})(?P<HOUR>\d{2})(?P<MINUTE>\d{2})(?P<SECOND>\d{2})Z(?P<TIMEZONE>(?P<UTC>))",
        0,
    )
    .unwrap();
    // One line of 31 bytes and its newline.
    let data = b"20230102000000Z 20230102000005Z\n";
    assert_eq!(scan_forward(&format, data, 32), Ok(at(0, T0)));
    assert_eq!(scan_backward(&format, data, 32), Ok(at(0, T0)));
    // With 16 bytes the first half is dropped, and the rest is read as a line.
    assert_eq!(scan_forward(&format, data, 16), Ok(at(16, T0 + 5000)));
    assert_eq!(scan_backward(&format, data, 16), Ok(at(0, T0)));
    // An end before the start is no end.
    assert_eq!(format.get_timerange_chunked(data, 16), Err(RangeError::NoEndFound));
    assert_eq!(
        format.get_timerange_chunked(data, 32),
        Ok(FileTimeRange { start: at(0, T0), end: at(0, T0) })
    );
}

fn run_forward(format: &TimeFormat, data: &[u8], capacity: usize) -> (Result<LineMatch, RangeError>, Vec<(u64, usize)>) {
    let mut scan = ForwardScan::new(data.len() as u64, capacity);
    let mut reads = Vec::new();
    loop {
        let offset = scan.offset();
        let len = scan.wanted();
        reads.push((offset, len));
        let block = &data[offset as usize..offset as usize + len];
        if let Some(r) = scan.feed(format, block) {
            return (r, reads);
        }
    }
}

fn run_backward(format: &TimeFormat, data: &[u8], capacity: usize) -> (Result<LineMatch, RangeError>, Vec<(u64, usize)>) {
    let mut scan = BackwardScan::new(data.len() as u64, capacity);
    let mut reads = Vec::new();
    loop {
        let offset = scan.offset();
        let len = scan.wanted();
        reads.push((offset, len));
        let block = &data[offset as usize..offset as usize + len];
        if let Some(r) = scan.feed(format, block) {
            return (r, reads);
        }
    }
}

#[test]
fn forward_scan_asks_for_what_fills_the_buffer() {
    let format = utc_format();
    let data = b"aaaa\nbb\ncccccc\n2023-01-02 00:00:00\n";
    let (result, reads) = run_forward(&format, data, 8);
    // "aaaa\nbb\n" leaves nothing; "cccccc\n2" leaves "2"; then 7 more bytes
    // fill the buffer with no newline, and the piece is dropped.
    assert_eq!(reads, vec![(0, 8), (8, 8), (16, 7), (23, 8), (31, 4), (35, 0)]);
    assert_eq!(result, Err(RangeError::NoStartFound));
    let (result, reads) = run_forward(&format, data, 20);
    assert_eq!(reads, vec![(0, 20), (20, 15)]);
    assert_eq!(result, Ok(at(15, T0)));
}

#[test]
fn backward_scan_asks_for_what_fills_the_buffer() {
    let format = utc_format();
    let data = b"2023-01-02 00:00:00\nbb\ncccccc\n";
    let (result, reads) = run_backward(&format, data, 24);
    // The last 24 bytes start inside the first line: its piece "02 00:00:00"
    // is kept, and the 6 bytes before it are read next.
    assert_eq!(reads, vec![(6, 24), (0, 6)]);
    assert_eq!(result, Ok(at(0, T0)));
    let (result, reads) = run_backward(&format, data, 30);
    assert_eq!(reads, vec![(0, 30)]);
    assert_eq!(result, Ok(at(0, T0)));
    let (result, reads) = run_backward(&format, b"", 8);
    assert_eq!(reads, vec![(0, 0)]);
    assert_eq!(result, Err(RangeError::NoEndFound));
}

fn run_range(
    format: &TimeFormat,
    data: &[u8],
    mut scan: RangeScan,
) -> (Result<FileTimeRange, RangeError>, Vec<(u64, usize)>) {
    let mut reads = Vec::new();
    loop {
        let offset = scan.offset();
        let len = scan.wanted();
        assert!(len <= scan.capacity());
        reads.push((offset, len));
        let block = &data[offset as usize..offset as usize + len];
        if let Some(r) = scan.feed(format, block) {
            return (r, reads);
        }
    }
}

#[test]
fn range_scan_reads_from_the_start_then_from_the_end() {
    let format = utc_format();
    let data = b"head\n2023-01-02 00:00:00\nmiddle\n2023-01-02 00:00:01\ntail\n";
    let (result, reads) = run_range(&format, data, RangeScan::new(data.len() as u64, 25));
    assert_eq!(result, Ok(FileTimeRange { start: at(5, T0), end: at(32, T0 + 1000) }));
    // The last 25 bytes start with the stamped line, which could be the end of
    // a longer one: it is kept, and the bytes before it are read.
    assert_eq!(reads, vec![(0, 25), (32, 25), (26, 6)]);
    let (result, reads) = run_range(&format, data, RangeScan::new(data.len() as u64, 21));
    assert_eq!(result, Ok(FileTimeRange { start: at(5, T0), end: at(32, T0 + 1000) }));
    assert_eq!(reads, vec![(0, 21), (21, 5), (36, 21), (30, 6)]);
    let (result, reads) = run_range(&format, data, RangeScan::for_file(data.len() as u64));
    assert_eq!(result, Ok(FileTimeRange { start: at(5, T0), end: at(32, T0 + 1000) }));
    assert_eq!(reads, vec![(0, 57), (0, 57)]);
}

#[test]
fn range_scan_stops_at_the_first_error() {
    let format = utc_format();
    let data = b"one\ntwo\n";
    let (result, reads) = run_range(&format, data, RangeScan::new(data.len() as u64, 4));
    assert_eq!(result, Err(RangeError::NoStartFound));
    assert_eq!(reads, vec![(0, 4), (4, 4), (8, 0)]);
    let data = b"2023-01-02 00:00:00\n\xff";
    let (result, reads) = run_range(&format, data, RangeScan::for_file(data.len() as u64));
    assert_eq!(result, Err(RangeError::Utf8DecodeFailure));
    assert_eq!(reads, vec![(0, 21), (0, 21)]);
}

#[test]
fn default_buffer_is_the_file_or_4096_bytes() {
    assert_eq!(DEFAULT_CAPACITY, 4096);
    assert_eq!(default_capacity_for(0), 0);
    assert_eq!(default_capacity_for(4095), 4095);
    assert_eq!(default_capacity_for(4096), 4096);
    assert_eq!(default_capacity_for(4097), 4096);
    assert_eq!(default_capacity_for(u64::MAX), 4096);
    assert_eq!(RangeScan::for_file(100).capacity(), 100);
    assert_eq!(RangeScan::for_file(1 << 40).capacity(), 4096);
}

#[test]
fn long_log_with_the_default_buffer() {
    let format = utc_format();
    let mut log = String::new();
    let mut last = 0;
    for i in 0..2000 {
        if i % 7 == 3 {
            last = log.len();
            log.push_str(&format!("2023-01-02 00:{:02}:{:02} tick\n", i / 60, i % 60));
        } else {
            log.push_str("filler filler filler filler\n");
        }
    }
    let data = log.into_bytes();
    assert!(data.len() > 3 * DEFAULT_CAPACITY);
    let range = format.get_file_timerange(&data).unwrap();
    assert_eq!(range.start, at(3 * 28, T0 + 3000));
    assert_eq!(range.end, at(last as u64, T0 + 1998 * 1000));
    assert_eq!(format.get_timerange_chunked(&data, data.len()), Ok(range));
    assert_eq!(format.get_timerange_chunked(&data, 64), Ok(range));
}

/// A small generator of repeatable pseudo-random numbers.
struct Lcg(u64);

impl Lcg {
    fn next(&mut self, bound: u64) -> u64 {
        self.0 = self.0.wrapping_mul(6364136223846793005).wrapping_add(1442695040888963407);
        (self.0 >> 33) % bound
    }
}

fn random_log(rng: &mut Lcg) -> (Vec<u8>, usize) {
    let mut log = Vec::new();
    let mut longest = 0;
    let lines = rng.next(12);
    for _ in 0..lines {
        let line = match rng.next(4) {
            0 => format!("2023-01-02 00:00:{:02}", rng.next(60)),
            1 => "x".repeat(rng.next(30) as usize),
            2 => format!("note 2023-01-02T00:{:02}:00Z end", rng.next(60)),
            _ => String::new(),
        };
        longest = longest.max(line.len());
        log.extend_from_slice(line.as_bytes());
        log.push(b'\n');
    }
    if rng.next(3) == 0 {
        let line = format!("2023-01-02 01:00:{:02}", rng.next(60));
        longest = longest.max(line.len());
        log.extend_from_slice(line.as_bytes());
    }
    (log, longest)
}

fn whole_scan(format: &TimeFormat, data: &[u8]) -> Result<FileTimeRange, RangeError> {
    let mut pieces = Vec::new();
    let mut from = 0;
    for (i, b) in data.iter().enumerate() {
        if *b == b'\n' {
            pieces.push((from, i, true));
            from = i + 1;
        }
    }
    pieces.push((from, data.len(), false));
    let stamp = |(s, e, _): &(usize, usize, bool)| {
        let text = std::str::from_utf8(&data[*s..*e]).unwrap();
        LineMatch { byte_offset: *s as u64, timestamp: format.get_time_stamp(text).unwrap() }
    };
    let matches = |(s, e, _): &(usize, usize, bool)| {
        format.is_match(std::str::from_utf8(&data[*s..*e]).unwrap())
    };
    let start = pieces.iter().filter(|p| p.2).find(|p| matches(p)).map(stamp);
    let end = pieces.iter().rev().find(|p| matches(p)).map(stamp);
    match (start, end) {
        (None, _) => Err(RangeError::NoStartFound),
        (Some(_), None) => Err(RangeError::NoEndFound),
        (Some(start), Some(end)) => Ok(FileTimeRange { start, end }),
    }
}

#[test]
fn chunked_scans_agree_with_a_scan_of_the_whole() {
    let format = utc_format();
    let mut rng = Lcg(2023);
    for _ in 0..300 {
        let (data, longest) = random_log(&mut rng);
        let expected = whole_scan(&format, &data);
        for extra in [1usize, 2, 5, 40, 5000] {
            let capacity = longest + extra;
            assert_eq!(
                format.get_timerange_chunked(&data, capacity),
                expected,
                "capacity {} on {:?}",
                capacity,
                String::from_utf8_lossy(&data)
            );
        }
        if let Ok(range) = expected {
            assert!(range.start.byte_offset <= range.end.byte_offset);
        }
    }
}

#[test]
fn any_buffer_gives_an_ordered_range_or_an_error() {
    let format = utc_format();
    let mut rng = Lcg(77);
    for _ in 0..200 {
        let (data, _) = random_log(&mut rng);
        for capacity in 0..40usize {
            if let Ok(range) = format.get_timerange_chunked(&data, capacity) {
                assert!(range.start.byte_offset <= range.end.byte_offset);
            }
        }
    }
}
