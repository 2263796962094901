use dev_tools::cli::pretty_report;
use dev_tools::html::{multi_report_to_html, write_html_text};
use dev_tools::model::{
    overall_verdict_of, verdict_counts_of, CheckResult, Evidence, EvidenceData, FileRef,
    MultiReport, Report, Severity, Timestamp, Verdict, MAX_TIMESTAMP_SECS, MIN_TIMESTAMP_SECS,
};
use dev_tools::text::{push_html_escaped_str, utf8_len_of};

fn t(secs: i64, nanos: u32) -> Timestamp {
    Timestamp { secs, nanos }
}

#[test]
fn check_constructors() {
    let p = CheckResult::pass("a");
    assert_eq!(p.verdict, Verdict::Pass);
    assert!(p.severity.is_none());
    let f = CheckResult::fail("b", Severity::Critical);
    assert_eq!(f.verdict, Verdict::Fail);
    assert_eq!(f.severity, Some(Severity::Critical));
    let w = CheckResult::warn("c", Severity::Info)
        .with_detail("d".to_string())
        .with_duration_ms(7)
        .with_evidence(Evidence {
            label: "site".to_string(),
            data: EvidenceData::FileRef(FileRef {
                path: "x.rs".to_string(),
                line_start: Some(1),
                line_end: None,
            }),
        });
    assert_eq!(w.verdict, Verdict::Warn);
    assert_eq!(w.detail.as_deref(), Some("d"));
    assert_eq!(w.duration_ms, Some(7));
    assert_eq!(w.evidence.len(), 1);
    let s = CheckResult::skip("e");
    assert_eq!(s.verdict, Verdict::Skip);
}

#[test]
fn counts_add_up_to_number_of_checks() {
    let checks = vec![
        CheckResult::pass("a"),
        CheckResult::pass("b"),
        CheckResult::fail("c", Severity::Error),
        CheckResult::skip("d"),
    ];
    let (p, f, w, s) = verdict_counts_of(&checks);
    assert_eq!((p, f, w, s), (2, 1, 0, 1));
    assert_eq!(p + f + w + s, checks.len());
    assert_eq!(overall_verdict_of(&checks), Verdict::Fail);
    assert_eq!(overall_verdict_of(&checks[..2]), Verdict::Pass);
    assert_eq!(overall_verdict_of(&checks[3..]), Verdict::Skip);
}

#[test]
fn timestamp_validity() {
    assert!(t(0, 0).is_valid());
    assert!(t(MIN_TIMESTAMP_SECS, 0).is_valid());
    assert!(t(MAX_TIMESTAMP_SECS, 999_999_999).is_valid());
    assert!(!t(MAX_TIMESTAMP_SECS + 1, 0).is_valid());
    assert!(!t(MIN_TIMESTAMP_SECS - 1, 0).is_valid());
    assert!(!t(0, 2_000_000_000).is_valid());
    assert!(t(59, 1_000_000_000).is_valid());
    assert!(!t(58, 1_000_000_000).is_valid());
    assert!(t(-1, 1_500_000_000).is_valid());
}

fn timed_report(start: Timestamp, end: Timestamp) -> Report {
    Report {
        subject: "c".to_string(),
        subject_version: "1".to_string(),
        producer: None,
        started_at: start,
        finished_at: Some(end),
        checks: vec![],
    }
}

#[test]
fn rfc3339_text_in_html_subtitle() {
    let m = MultiReport::of_reports("c", "1", vec![], t(0, 0), t(1_778_500_800, 250_000_000));
    let html = multi_report_to_html(&m);
    assert!(html.contains(
        "started 1970-01-01T00:00:00+00:00 · finished 2026-05-11T12:00:00.250+00:00"
    ));
}

#[test]
fn elapsed_milliseconds_truncate_toward_zero() {
    let total = |start: Timestamp, end: Timestamp| {
        let out = pretty_report(&timed_report(start, end), false);
        let end = out.find("ms total").unwrap();
        let at = out[..end].rfind("· ").unwrap() + "· ".len();
        out[at..end].to_string()
    };
    assert_eq!(total(t(0, 0), t(1, 0)), "1000");
    assert_eq!(total(t(10, 999_999), t(10, 2_000_000)), "1");
    assert_eq!(total(t(1, 0), t(0, 999_999)), "-999");
    assert_eq!(total(t(5, 0), t(5, 0)), "0");
}

#[test]
fn html_escaping() {
    let mut out = String::new();
    write_html_text(&mut out, "a<b>&\"c'");
    assert_eq!(out, "a&lt;b&gt;&amp;&quot;c&#39;");
    let mut plain = String::from(">");
    push_html_escaped_str(&mut plain, "plain text é");
    assert_eq!(plain, ">plain text é");
}

#[test]
fn utf8_length() {
    assert_eq!(utf8_len_of(&['a', 'é', '€', '😀']), 10);
    assert_eq!(utf8_len_of(&[]), 0);
}
