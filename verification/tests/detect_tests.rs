use bilog::detect::{
    detect_file_time_format, find_line_stop, sample_lines, LineSampler, Sampled,
    MAX_SAMPLING_LINES,
};
use bilog::format::TimeFormat;
use bilog::registry::{DetectError, Registry};

fn log_with_stamp_at_line(line: usize) -> Vec<u8> {
    let mut log = String::new();
    for i in 0..line {
        log.push_str(&format!("plain line {}\n", i));
    }
    log.push_str("2023-01-02 12:13:14 first stamp\n");
    log.push_str("tail\n");
    log.into_bytes()
}

#[test]
fn format_of_the_first_stamped_line() {
    let registry = Registry::builtin_with_local_offset(0);
    let data = b"banner\n\n2023-01-02T12:13:14Z started\nmore\n";
    let format = detect_file_time_format(&registry, data).unwrap();
    assert_eq!(format.description(), "RFC3339");
}

#[test]
fn detection_stops_after_a_thousand_lines() {
    let registry = Registry::builtin_with_local_offset(0);
    let found = detect_file_time_format(&registry, &log_with_stamp_at_line(999));
    assert_eq!(found.unwrap().description(), "RFC3339");
    let missed = detect_file_time_format(&registry, &log_with_stamp_at_line(1000));
    assert_eq!(missed.err(), Some(DetectError::NoFormatMatched));
}

#[test]
fn sampler_reads_exactly_a_thousand_lines() {
    let registry = Registry::builtin_with_local_offset(0);
    let mut sampler = LineSampler::new();
    assert_eq!(sampler.seen(), 0);
    for i in 0..999 {
        assert_eq!(sampler.offer(&registry, "nothing here\n"), Sampled::Continue);
        assert_eq!(sampler.seen(), i + 1);
    }
    assert_eq!(sampler.offer(&registry, "nothing here\n"), Sampled::Exhausted);
    assert_eq!(sampler.seen(), 1000);
    assert_eq!(sampler.seen(), MAX_SAMPLING_LINES);
    // A line offered after that is not looked at.
    assert_eq!(sampler.offer(&registry, "2023-01-02 12:13:14\n"), Sampled::Exhausted);
    assert_eq!(sampler.seen(), 1000);
}

#[test]
fn sampler_names_the_first_format_that_matches() {
    let mut registry = Registry::new();
    registry.register(TimeFormat::with_local_offset("digits", "[0-9]+", 0).unwrap());
    registry.register(TimeFormat::with_local_offset("letters", "[a-z]+", 0).unwrap());
    let mut sampler = LineSampler::new();
    assert_eq!(sampler.offer(&registry, "---\n"), Sampled::Continue);
    assert_eq!(sampler.offer(&registry, "abc\n"), Sampled::Found(1));
    assert_eq!(sampler.offer(&registry, "abc 123\n"), Sampled::Found(0));
    assert_eq!(sampler.seen(), 3);
}

#[test]
fn short_and_empty_logs() {
    let registry = Registry::builtin_with_local_offset(0);
    assert_eq!(
        detect_file_time_format(&registry, b"").err(),
        Some(DetectError::NoFormatMatched)
    );
    assert_eq!(
        detect_file_time_format(&registry, b"one\ntwo").err(),
        Some(DetectError::NoFormatMatched)
    );
    let last = detect_file_time_format(&registry, b"one\n2023-01-02 12:13:14");
    assert_eq!(last.unwrap().description(), "RFC3339");
    let empty = Registry::new();
    assert_eq!(
        detect_file_time_format(&empty, b"2023-01-02 12:13:14\n").err(),
        Some(DetectError::NoFormatMatched)
    );
}

#[test]
fn sampled_line_holds_its_newline() {
    let mut registry = Registry::new();
    registry.register(TimeFormat::with_local_offset("ends", r"a\n\z", 0).unwrap());
    assert!(detect_file_time_format(&registry, b"b\na\nc\n").is_ok());
    assert_eq!(
        detect_file_time_format(&registry, b"b\na").err(),
        Some(DetectError::NoFormatMatched)
    );
}

#[test]
fn lines_behind_the_end_are_empty() {
    let mut registry = Registry::new();
    registry.register(TimeFormat::with_local_offset("empty", r"\A\z", 0).unwrap());
    assert_eq!(detect_file_time_format(&registry, b"a\nb\n").unwrap().description(), "empty");
}

#[test]
fn undecodable_line_stops_detection() {
    let registry = Registry::builtin_with_local_offset(0);
    assert_eq!(
        detect_file_time_format(&registry, b"fine\n\xff\n2023-01-02 12:13:14\n").err(),
        Some(DetectError::Utf8DecodeFailure)
    );
    assert!(detect_file_time_format(&registry, b"2023-01-02 12:13:14\n\xff\n").is_ok());
}

#[test]
fn line_stops_behind_its_newline() {
    let data = b"ab\n\ncd";
    assert_eq!(find_line_stop(data, 0), 3);
    assert_eq!(find_line_stop(data, 1), 3);
    assert_eq!(find_line_stop(data, 2), 3);
    assert_eq!(find_line_stop(data, 3), 4);
    assert_eq!(find_line_stop(data, 4), 6);
    assert_eq!(find_line_stop(data, 6), 6);
    assert_eq!(find_line_stop(b"", 0), 0);
}

#[test]
fn sampling_counts_the_lines() {
    let registry = Registry::builtin_with_local_offset(0);
    assert_eq!(sample_lines(&registry, &log_with_stamp_at_line(0)), (Ok(0), 1));
    assert_eq!(sample_lines(&registry, &log_with_stamp_at_line(41)), (Ok(0), 42));
    assert_eq!(sample_lines(&registry, &log_with_stamp_at_line(999)), (Ok(0), 1000));
    assert_eq!(
        sample_lines(&registry, &log_with_stamp_at_line(1000)),
        (Err(DetectError::NoFormatMatched), 1000)
    );
    assert_eq!(
        sample_lines(&registry, &log_with_stamp_at_line(5000)),
        (Err(DetectError::NoFormatMatched), 1000)
    );
    assert_eq!(sample_lines(&registry, b"a\nb\n"), (Err(DetectError::NoFormatMatched), 1000));
    assert_eq!(
        sample_lines(&registry, b"a\n\xff\nb\n"),
        (Err(DetectError::Utf8DecodeFailure), 2)
    );
}
