use logs::record::LogLine;
use logs::stream::Logs;
use logs::stream::VecSource;

fn line(ts: i64, host: &str, service: &str, message: &str) -> LogLine {
    LogLine::new(ts, host.to_string(), service.to_string(), message.to_string())
}

fn drain(logs: &mut Logs) -> Vec<(i64, String, String, String)> {
    let mut out = Vec::new();
    while let Some(l) = logs.next() {
        out.push((l.timestamp(), l.hostname(), l.service(), l.message()));
    }
    out
}

#[test]
fn new_keeps_the_given_order() {
    let mut logs = Logs::new(vec![line(3, "b", "s", "x"), line(1, "a", "s", "y")]);
    let got = drain(&mut logs);
    assert_eq!(got[0].0, 3);
    assert_eq!(got[1].0, 1);
}

#[test]
fn from_pulls_records_out_of_a_source() {
    let source = VecSource { lines: vec![line(1, "a", "s", "one"), line(2, "b", "s", "two")] };
    let mut logs = Logs::from(source);
    let got = drain(&mut logs);
    assert_eq!(got.len(), 2);
    assert_eq!(got[0].3, "one");
    assert_eq!(got[1].3, "two");
}

#[test]
fn merge_sorts_the_union_ascending() {
    let a = Logs::new(vec![line(5, "a", "s", "m5"), line(1, "a", "s", "m1")]);
    let b = Logs::new(vec![line(4, "b", "s", "m4"), line(2, "b", "s", "m2")]);
    let mut merged = a.merge(&b);
    let got = drain(&mut merged);
    let stamps: Vec<i64> = got.iter().map(|r| r.0).collect();
    assert_eq!(stamps, vec![1, 2, 4, 5]);
}

#[test]
fn merge_is_content_commutative() {
    let a = Logs::new(vec![line(3, "a", "s", "x"), line(1, "a", "s", "y")]);
    let b = Logs::new(vec![line(2, "b", "t", "z"), line(3, "b", "s", "x")]);
    let mut ab = a.merge(&b);
    let mut ba = b.merge(&a);
    assert_eq!(drain(&mut ab), drain(&mut ba));
}

#[test]
fn merge_does_not_consume_its_inputs() {
    let a = Logs::new(vec![line(1, "a", "s", "x")]);
    let b = Logs::new(vec![line(2, "b", "s", "y")]);
    let _ = a.merge(&b);
    let mut a = a;
    let mut b = b;
    assert_eq!(drain(&mut a).len(), 1);
    assert_eq!(drain(&mut b).len(), 1);
}

#[test]
fn equal_timestamps_tie_break_by_hostname_service_message() {
    let a = Logs::new(vec![
        line(7, "hostB", "svc", "m"),
        line(7, "hostA", "svcB", "m"),
        line(7, "hostA", "svcA", "n"),
        line(7, "hostA", "svcA", "m"),
    ]);
    let empty = Logs::new(vec![]);
    let mut merged = a.merge(&empty);
    let got = drain(&mut merged);
    assert_eq!(
        got,
        vec![
            (7, "hostA".to_string(), "svcA".to_string(), "m".to_string()),
            (7, "hostA".to_string(), "svcA".to_string(), "n".to_string()),
            (7, "hostA".to_string(), "svcB".to_string(), "m".to_string()),
            (7, "hostB".to_string(), "svc".to_string(), "m".to_string()),
        ]
    );
}

#[test]
fn sorting_an_already_sorted_stream_changes_nothing() {
    let a = Logs::new(vec![line(1, "a", "s", "x"), line(2, "b", "s", "y"), line(3, "c", "s", "z")]);
    let empty = Logs::new(vec![]);
    let mut once = a.merge(&empty);
    let empty2 = Logs::new(vec![]);
    let twice = once.merge(&empty2);
    let mut twice = twice;
    assert_eq!(drain(&mut once), drain(&mut twice));
}

#[test]
fn filter_with_include_term_keeps_matching_messages_in_order() {
    let logs = Logs::new(vec![line(1, "h", "s", "xa"), line(2, "h", "s", "b"), line(3, "h", "s", "xc")]);
    let mut filtered = logs.filter_logs(&vec![], &vec!["x".to_string()]);
    let got = drain(&mut filtered);
    let messages: Vec<String> = got.iter().map(|r| r.3.clone()).collect();
    assert_eq!(messages, vec!["xa".to_string(), "xc".to_string()]);
}

#[test]
fn filter_without_terms_returns_everything_unchanged() {
    let logs = Logs::new(vec![line(3, "h", "s", "c"), line(1, "h", "s", "a"), line(2, "h", "s", "b")]);
    let mut filtered = logs.filter_logs(&vec![], &vec![]);
    let got = drain(&mut filtered);
    let messages: Vec<String> = got.iter().map(|r| r.3.clone()).collect();
    assert_eq!(messages, vec!["c".to_string(), "a".to_string(), "b".to_string()]);
}

#[test]
fn filter_with_exclude_term_drops_matching_messages() {
    let logs = Logs::new(vec![line(1, "h", "s", "keep"), line(2, "h", "s", "noise here"), line(3, "h", "s", "also keep")]);
    let mut filtered = logs.filter_logs(&vec!["noise".to_string()], &vec![]);
    let got = drain(&mut filtered);
    assert_eq!(got.len(), 2);
    assert_eq!(got[0].3, "keep");
    assert_eq!(got[1].3, "also keep");
}

#[test]
fn filter_applies_include_and_exclude_together() {
    let logs = Logs::new(vec![
        line(1, "h", "s", "error: disk full"),
        line(2, "h", "s", "error: retrying"),
        line(3, "h", "s", "ok"),
    ]);
    let mut filtered =
        logs.filter_logs(&vec!["retrying".to_string()], &vec!["error".to_string()]);
    let got = drain(&mut filtered);
    assert_eq!(got.len(), 1);
    assert_eq!(got[0].3, "error: disk full");
}

#[test]
fn exhausted_stream_keeps_signaling_end() {
    let mut logs = Logs::new(vec![line(1, "h", "s", "only")]);
    assert!(logs.next().is_some());
    assert!(logs.next().is_none());
    assert!(logs.next().is_none());
    assert!(logs.next().is_none());
}

#[test]
fn record_getters_return_the_constructor_values() {
    let l = line(42, "hostX", "svcY", "message Z");
    assert_eq!(l.timestamp(), 42);
    assert_eq!(l.hostname(), "hostX");
    assert_eq!(l.service(), "svcY");
    assert_eq!(l.message(), "message Z");
}

#[test]
fn includes_needs_every_term_and_excludes_needs_any() {
    let l = line(1, "h", "s", "alpha beta gamma");
    assert!(l.includes(&vec!["alpha".to_string(), "gamma".to_string()]));
    assert!(!l.includes(&vec!["alpha".to_string(), "delta".to_string()]));
    assert!(l.includes(&vec![]));
    assert!(l.excludes(&vec!["delta".to_string(), "beta".to_string()]));
    assert!(!l.excludes(&vec!["delta".to_string()]));
    assert!(!l.excludes(&vec![]));
}
