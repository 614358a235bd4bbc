use logs::record::LogLine;
use logs::scheme::LogScheme;
use logs::scheme::RegExtractor;
use logs::splitter::split_keep;
use logs::stream::Logs;

fn scheme() -> LogScheme {
    LogScheme {
        date_time: r"\d{4}-\d{2}-\d{2} \d{2}:\d{2}:\d{2}".to_string(),
        host: r"\w+".to_string(),
        service: r"\w+".to_string(),
        message: r".*".to_string(),
        whole_line: "{d} {h} {s}: {m}".to_string(),
        split_pattern: r"\d{4}-\d{2}-\d{2} \d{2}:\d{2}:\d{2}".to_string(),
    }
}

fn parse_blob(ex: &RegExtractor, text: &str) -> Vec<LogLine> {
    let delimiter = regex::Regex::new(&ex.split_pattern).unwrap();
    let segments = split_keep(&delimiter, text);
    let mut lines = Vec::new();
    let mut i = 0;
    while i < segments.len() {
        if delimiter.is_match(segments[i]) && i + 1 < segments.len() {
            let candidate = format!("{}{}", segments[i], segments[i + 1]);
            if let Some(fields) = ex.get_fields(&candidate) {
                if let Ok(ts) = ex.timestamp_micros(&fields.date_time) {
                    lines.push(LogLine::new(ts, fields.host, fields.service, fields.message));
                }
            }
            i += 2;
        } else {
            i += 1;
        }
    }
    lines
}

#[test]
fn two_hosts_merge_into_one_ascending_timeline() {
    let ex = RegExtractor::new(scheme(), "%Y-%m-%d %H:%M:%S").unwrap();
    let host_a = "2024-01-01 00:00:01 hostA svc: a one\n\
                  2024-01-01 00:00:03 hostA svc: a two\n\
                  2024-01-01 00:00:05 hostA svc: a three\n";
    let host_b = "2024-01-01 00:00:02 hostB svc: b one\n\
                  2024-01-01 00:00:03 hostB svc: b two\n\
                  2024-01-01 00:00:04 hostB svc: b three\n";
    let stream_a = Logs::new(parse_blob(&ex, host_a));
    let stream_b = Logs::new(parse_blob(&ex, host_b));
    let mut merged = stream_a.merge(&stream_b);

    let mut got = Vec::new();
    while let Some(l) = merged.next() {
        got.push((l.timestamp(), l.hostname(), l.message()));
    }
    assert_eq!(got.len(), 6);
    let base = 1704067200i64 * 1_000_000;
    let expected = vec![
        (base + 1_000_000, "hostA".to_string(), "a one".to_string()),
        (base + 2_000_000, "hostB".to_string(), "b one".to_string()),
        (base + 3_000_000, "hostA".to_string(), "a two".to_string()),
        (base + 3_000_000, "hostB".to_string(), "b two".to_string()),
        (base + 4_000_000, "hostB".to_string(), "b three".to_string()),
        (base + 5_000_000, "hostA".to_string(), "a three".to_string()),
    ];
    assert_eq!(got, expected);
    for w in got.windows(2) {
        assert!(w[0].0 <= w[1].0);
    }
}

#[test]
fn malformed_entries_never_abort_the_batch() {
    let ex = RegExtractor::new(scheme(), "%Y-%m-%d %H:%M:%S").unwrap();
    let text = "garbage preamble\n\
                2024-01-01 00:00:01 hostA svc: fine\n\
                2024-01-01 00:00:02 this!line does not match\n\
                2024-01-01 00:00:03 hostA svc: also fine\n";
    let lines = parse_blob(&ex, text);
    assert_eq!(lines.len(), 2);
    assert_eq!(lines[0].message(), "fine");
    assert_eq!(lines[1].message(), "also fine");
}
