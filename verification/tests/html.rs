use dev_tools::brand;
use dev_tools::html::{is_renderable, multi_report_to_html, write_histogram};
use dev_tools::model::{
    CheckResult, Evidence, EvidenceData, MultiReport, Report, Severity, Timestamp,
};

/// 2026-05-11T12:00:00Z.
fn t0() -> Timestamp {
    Timestamp { secs: 1_778_500_800, nanos: 0 }
}

fn report(subject: &str, version: &str, producer: &str, checks: Vec<CheckResult>) -> Report {
    Report {
        subject: subject.to_string(),
        subject_version: version.to_string(),
        producer: Some(producer.to_string()),
        started_at: t0(),
        finished_at: Some(t0()),
        checks,
    }
}

fn unfinished(subject: &str, version: &str, reports: Vec<Report>) -> MultiReport {
    MultiReport {
        subject: subject.to_string(),
        subject_version: version.to_string(),
        started_at: t0(),
        finished_at: None,
        reports,
    }
}

fn frozen_multi() -> MultiReport {
    let c1 = CheckResult::pass("hot_path").with_duration_ms(120).with_evidence(Evidence {
        label: "mean_ns".to_string(),
        data: EvidenceData::Snippet("1234.5".to_string()),
    });
    let c2 = CheckResult::pass("cold_path").with_duration_ms(45);
    let bench = report("crate", "0.1.0", "dev-bench", vec![c1, c2]);

    let c3 = CheckResult::fail("recover", Severity::Error)
        .with_detail("service did not recover within 5s".to_string())
        .with_duration_ms(5_001);
    let c4 = CheckResult::warn("flaky::retry", Severity::Warning)
        .with_detail("3rd retry of 5 was slow".to_string());
    let c5 = CheckResult::skip("network::flaky").with_detail("no net in sandbox".to_string());
    let chaos = report("crate", "0.1.0", "dev-chaos", vec![c3, c4, c5]);

    MultiReport::of_reports("crate", "0.1.0", vec![bench, chaos], t0(), t0())
}

fn count(hay: &str, needle: &str) -> usize {
    hay.matches(needle).count()
}

#[test]
fn output_is_doctype_html() {
    let html = multi_report_to_html(&frozen_multi());
    assert!(html.starts_with("<!DOCTYPE html>"));
    assert!(html.contains("<html lang=\"en\""));
    assert!(html.contains("</html>"));
}

#[test]
fn output_contains_subject_and_version() {
    let html = multi_report_to_html(&frozen_multi());
    assert!(html.contains(">crate"));
    assert!(html.contains("v0.1.0"));
}

#[test]
fn output_contains_verdict_badge_for_overall_fail() {
    let html = multi_report_to_html(&frozen_multi());
    assert!(html.contains("verdict-badge verdict-fail"));
    assert!(html.contains(">Fail<"));
}

#[test]
fn output_contains_one_details_per_producer() {
    let html = multi_report_to_html(&frozen_multi());
    let n = count(&html, "<details class=\"producer\"");
    assert_eq!(n, 2);
    assert!(html.contains("dev-bench"));
    assert!(html.contains("dev-chaos"));
}

#[test]
fn output_is_deterministic() {
    let multi = frozen_multi();
    let a = multi_report_to_html(&multi);
    let b = multi_report_to_html(&multi);
    assert_eq!(a, b);
}

#[test]
fn output_escapes_special_chars() {
    let c = CheckResult::fail("name<&>\"'", Severity::Error)
        .with_detail("oh <bad> & \"x\"".to_string());
    let r = report("crate<&>", "0.1.0", "dev<bad>", vec![c]);
    let m = unfinished("crate<&>", "0.1.0", vec![r]);
    let html = multi_report_to_html(&m);
    assert!(html.contains("crate&lt;&amp;&gt;"));
    assert!(html.contains("name&lt;&amp;&gt;&quot;&#39;"));
    assert!(html.contains("oh &lt;bad&gt; &amp; &quot;x&quot;"));
    assert!(!html.contains("crate<&>"));
}

#[test]
fn empty_multi_renders_without_panic() {
    let m = unfinished("empty", "0.0.0", vec![]);
    let html = multi_report_to_html(&m);
    assert!(html.contains("No reports."));
    assert!(html.contains("verdict-skip"));
}

#[test]
fn duration_section_present_when_any_duration() {
    let html = multi_report_to_html(&frozen_multi());
    assert!(html.contains("Duration distribution"));
    assert!(html.contains("<svg class=\"histogram\""));
}

#[test]
fn duration_section_absent_when_no_durations() {
    let r = report("c", "0.1.0", "p", vec![CheckResult::pass("a")]);
    let m = unfinished("c", "0.1.0", vec![r]);
    let html = multi_report_to_html(&m);
    assert!(!html.contains("Duration distribution"));
    assert!(!html.contains("<svg class=\"histogram\""));
}

#[test]
fn producer_with_failures_is_open_by_default() {
    let html = multi_report_to_html(&frozen_multi());
    // dev-chaos has fail+warn; should be open. dev-bench is all pass; closed.
    assert!(html.contains("<details class=\"producer\" open>"));
    let open_count = count(&html, "<details class=\"producer\" open>");
    let closed_count = count(&html, "<details class=\"producer\">");
    assert_eq!(open_count, 1);
    assert_eq!(closed_count, 1);
}

#[test]
fn no_external_resources() {
    let html = multi_report_to_html(&frozen_multi());
    assert!(!html.contains("http://"));
    assert!(!html.contains("<script src="));
    assert!(!html.contains("<link rel="));
    assert!(!html.contains("<img "));
}

#[test]
fn uses_css_custom_properties_for_brand_colors() {
    let html = multi_report_to_html(&frozen_multi());
    assert!(html.contains("--color-accent:"));
    assert!(html.contains("--color-pass:"));
    assert!(html.contains("--color-fail:"));
    assert!(html.contains("--color-warn:"));
    assert!(html.contains("var(--color-accent)"));
}

#[test]
fn footer_contains_brand_footer_constant() {
    let html = multi_report_to_html(&frozen_multi());
    assert!(html.contains(brand::FOOTER));
}

#[test]
fn output_size_is_reasonable() {
    let html = multi_report_to_html(&frozen_multi());
    assert!(html.len() < 64 * 1024, "got {} bytes", html.len());
    assert!(html.len() > 1_000, "got {} bytes (likely truncated)", html.len());
}

// ---------------------------------------------------------------------------
// Further cases
// ---------------------------------------------------------------------------

#[test]
fn frozen_multi_is_renderable() {
    assert!(is_renderable(&frozen_multi()));
}

#[test]
fn renderable_rejects_invalid_timestamp() {
    let mut m = frozen_multi();
    m.started_at = Timestamp { secs: 0, nanos: 1_500_000_000 };
    assert!(!is_renderable(&m));
    m.started_at = Timestamp { secs: 59, nanos: 1_500_000_000 };
    assert!(is_renderable(&m));
}

#[test]
fn renders_widest_duration_spread() {
    let c1 = CheckResult::pass("a").with_duration_ms(0);
    let c2 = CheckResult::pass("b").with_duration_ms(u64::MAX);
    let m = unfinished("c", "0.1.0", vec![report("c", "0.1.0", "p", vec![c1, c2])]);
    assert!(is_renderable(&m));
    let html = multi_report_to_html(&m);
    assert!(html.contains("2 samples, 0 ms min, 18446744073709551615 ms max"));
    // The last bucket runs from 9/10 of the spread to its end.
    assert!(html.contains("16602069666338596453\u{2013}18446744073709551615 ms — 1 sample</title>"));
    assert!(html.contains(">0\u{2013}1844674407370955161 ms — 1 sample</title>"));
}

#[test]
fn histogram_puts_values_above_the_range_in_the_last_bucket() {
    let mut out = String::new();
    write_histogram(&mut out, &[5, 50, 6], 5, 20);
    assert_eq!(count(&out, "<rect "), 10);
    assert!(out.contains(">5\u{2013}6 ms — 2 samples</title>"));
    assert!(out.contains(">18\u{2013}20 ms — 1 sample</title>"));
}

#[test]
fn summary_counts_and_bar_widths() {
    // 2 pass, 1 fail, 1 warn, 1 skip: widths 400, 200, 200, 200 per mille.
    let html = multi_report_to_html(&frozen_multi());
    assert!(html.contains("Verdict distribution: 2 pass, 1 fail, 1 warn, 1 skip"));
    assert!(html.contains("<rect x=\"0\" y=\"0\" width=\"400\" height=\"40\" fill=\"var(--color-pass)\">"));
    assert!(html.contains("<rect x=\"400\" y=\"0\" width=\"200\" height=\"40\" fill=\"var(--color-fail)\">"));
    assert!(html.contains("<rect x=\"600\" y=\"0\" width=\"200\" height=\"40\" fill=\"var(--color-warn)\">"));
    assert!(html.contains("<rect x=\"800\" y=\"0\" width=\"200\" height=\"40\" fill=\"var(--color-muted)\">"));
}

#[test]
fn histogram_has_ten_buckets_counting_every_duration() {
    let html = multi_report_to_html(&frozen_multi());
    assert_eq!(count(&html, "fill=\"var(--color-accent)\"><title>"), 10);
    // Durations 120, 45 and 5001 ms: two in the first bucket, one in the last.
    assert!(html.contains("3 samples, 45 ms min, 5001 ms max"));
    assert!(html.contains(" ms — 2 samples</title>"));
    assert!(html.contains(" ms — 1 sample</title>"));
    assert_eq!(count(&html, " ms — 0 samples</title>"), 8);
}

#[test]
fn bar_segment_widths_match_percentages() {
    // The verdict bar's widths are per-mille shares of the checks, rounded
    // half up: within half a unit of 1000 * count / total.
    for (p, f) in [(1usize, 2usize), (2, 1), (1, 6), (5, 2), (3, 3)] {
        let mut checks = Vec::new();
        for i in 0..p {
            checks.push(CheckResult::pass(&format!("p{i}")));
        }
        for i in 0..f {
            checks.push(CheckResult::fail(&format!("f{i}"), Severity::Error));
        }
        let m = unfinished("c", "0.1.0", vec![report("c", "0.1.0", "p", checks)]);
        let html = multi_report_to_html(&m);
        let total = (p + f) as f64;
        for (n, color) in [(p, "pass"), (f, "fail")] {
            let marker = format!("\" height=\"40\" fill=\"var(--color-{color})\">");
            let end = html.find(&marker).expect("segment present");
            let start = html[..end].rfind("width=\"").unwrap() + 7;
            let w: f64 = html[start..end].parse().unwrap();
            let exact = 1000.0 * (n as f64) / total;
            assert!((w - exact).abs() <= 0.5 + 1e-9, "{n}/{total}: {w}");
        }
    }
}

#[test]
fn bar_widths_over_the_full_width_draw_no_filler() {
    // 1 pass, 1 fail, 4 warn: 166.7, 166.7 and 666.7 round up to 167, 167
    // and 667, which run past 1000; no filler is drawn.
    let mut checks = vec![CheckResult::pass("p"), CheckResult::fail("f", Severity::Error)];
    for i in 0..4 {
        checks.push(CheckResult::warn(&format!("w{i}"), Severity::Warning));
    }
    let m = unfinished("c", "0.1.0", vec![report("c", "0.1.0", "p", checks)]);
    let html = multi_report_to_html(&m);
    assert!(html.contains("<rect x=\"0\" y=\"0\" width=\"167\" height=\"40\" fill=\"var(--color-pass)\">"));
    assert!(html.contains("<rect x=\"167\" y=\"0\" width=\"167\" height=\"40\" fill=\"var(--color-fail)\">"));
    assert!(html.contains("<rect x=\"334\" y=\"0\" width=\"667\" height=\"40\" fill=\"var(--color-warn)\">"));
    assert!(!html.contains("fill=\"var(--color-muted)\"/>"));
}

#[test]
fn bar_widths_under_the_full_width_are_filled() {
    // One check of each of three verdicts: three widths of 333, then a
    // muted filler one unit wide.
    let checks = vec![
        CheckResult::pass("p"),
        CheckResult::fail("f", Severity::Error),
        CheckResult::skip("s"),
    ];
    let m = unfinished("c", "0.1.0", vec![report("c", "0.1.0", "p", checks)]);
    let html = multi_report_to_html(&m);
    assert!(html.contains("<rect x=\"666\" y=\"0\" width=\"333\" height=\"40\" fill=\"var(--color-muted)\"><title>Skip — 1</title></rect>"));
    assert!(html.contains("<rect x=\"999\" y=\"0\" width=\"1\" height=\"40\" fill=\"var(--color-muted)\"/>"));
}

#[test]
fn histogram_bars_are_scaled_to_the_fullest_bucket() {
    let mut out = String::new();
    write_histogram(&mut out, &[5, 5, 6, 20], 5, 20);
    // Bucket 0 holds 3 values (the fullest), bucket 9 holds 1.
    assert!(out.contains("<rect x=\"1\" y=\"10\" width=\"98\" height=\"150\""));
    assert!(out.contains("<rect x=\"901\" y=\"110\" width=\"98\" height=\"50\""));
    assert_eq!(count(&out, "y=\"160\" width=\"98\" height=\"0\""), 8);
}

#[test]
fn header_uses_singular_and_omits_missing_finish() {
    let r = report("c", "0.1.0", "p", vec![CheckResult::pass("a")]);
    let m = unfinished("c", "0.1.0", vec![r]);
    let html = multi_report_to_html(&m);
    assert!(html.contains(" · 1 check across 1 producer</div>\n"));
    assert!(!html.contains(" · finished "));
    assert!(html.contains("<div class=\"verdict-badge verdict-pass\">Pass</div>\n</header>\n"));
    let html = multi_report_to_html(&frozen_multi());
    assert!(html.contains(" · finished 2026-05-11T12:00:00+00:00 · 5 checks across 2 producers</div>\n"));
}

#[test]
fn producer_blocks_follow_report_order() {
    let html = multi_report_to_html(&frozen_multi());
    let bench = html.find("<summary>dev-bench").expect("bench block");
    let chaos = html.find("<summary>dev-chaos").expect("chaos block");
    assert!(bench < chaos);
    assert!(html[..bench].ends_with("<details class=\"producer\">\n        "));
    assert!(html[..chaos].ends_with("<details class=\"producer\" open>\n        "));
}
