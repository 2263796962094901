use dev_tools::cli::{
    bench_args, bench_check, dep_scope, exit_for_multi, exit_for_verdict, extract_quoted, first_lines,
    normalize_component, paint, parse_cargo_manifest, parse_sanitizer, pretty_multi,
    pretty_report, renders_output, resolved_subject, resolved_version, split_features,
    to_ascii_lowercase, verdict_glyph_color, worst, DepScopeChoice, OutputFormat,
    SanitizerChoice, C_BOLD, C_CYAN, C_DIM, C_GREEN, C_RED, C_RESET,
};
use dev_tools::model::{CheckResult, MultiReport, Report, Severity, Timestamp, Verdict};

const ALL: [Verdict; 4] = [Verdict::Pass, Verdict::Fail, Verdict::Warn, Verdict::Skip];

fn t(secs: i64, nanos: u32) -> Timestamp {
    Timestamp { secs, nanos }
}

fn report(producer: Option<&str>, checks: Vec<CheckResult>) -> Report {
    Report {
        subject: "crate".to_string(),
        subject_version: "0.1.0".to_string(),
        producer: producer.map(|p| p.to_string()),
        started_at: t(0, 0),
        finished_at: Some(t(1, 0)),
        checks,
    }
}

fn with_verdict(v: Verdict) -> CheckResult {
    match v {
        Verdict::Pass => CheckResult::pass("p"),
        Verdict::Fail => CheckResult::fail("f", Severity::Error),
        Verdict::Warn => CheckResult::warn("w", Severity::Warning),
        Verdict::Skip => CheckResult::skip("s"),
    }
}

// ---------------------------------------------------------------------------
// Output format and exit codes
// ---------------------------------------------------------------------------

#[test]
fn default_format_depends_on_destination() {
    assert_eq!(OutputFormat::default_for_destination(true), OutputFormat::Json);
    assert_eq!(OutputFormat::default_for_destination(false), OutputFormat::Terminal);
    assert_eq!(OutputFormat::resolve(Some(OutputFormat::Sarif), false), OutputFormat::Sarif);
    assert_eq!(OutputFormat::resolve(None, true), OutputFormat::Json);
}

#[test]
fn quiet_suppresses_only_standard_output() {
    assert!(!renders_output(true, false));
    assert!(renders_output(true, true));
    assert!(renders_output(false, false));
}

#[test]
fn exit_codes() {
    assert_eq!(exit_for_verdict(Verdict::Pass), 0);
    assert_eq!(exit_for_verdict(Verdict::Skip), 0);
    assert_eq!(exit_for_verdict(Verdict::Warn), 1);
    assert_eq!(exit_for_verdict(Verdict::Fail), 1);
}

#[test]
fn worst_follows_precedence() {
    assert_eq!(worst(Verdict::Pass, Verdict::Fail), Verdict::Fail);
    assert_eq!(worst(Verdict::Warn, Verdict::Pass), Verdict::Warn);
    assert_eq!(worst(Verdict::Skip, Verdict::Pass), Verdict::Pass);
    for a in ALL {
        assert_eq!(worst(a, Verdict::Skip), a);
        assert_eq!(worst(a, a), a);
        assert_eq!(worst(a, Verdict::Fail), Verdict::Fail);
        for b in ALL {
            assert_eq!(worst(a, b), worst(b, a));
            for c in ALL {
                assert_eq!(worst(worst(a, b), c), worst(a, worst(b, c)));
            }
        }
    }
}

#[test]
fn overall_of_concatenation_is_worst_of_parts() {
    for a in ALL {
        for b in ALL {
            let r = report(None, vec![with_verdict(a), with_verdict(b)]);
            assert_eq!(r.overall_verdict(), worst(a, b));
        }
    }
    assert_eq!(report(None, vec![]).overall_verdict(), Verdict::Skip);
}

#[test]
fn multi_exit_code_matches_multi_overall() {
    let m = MultiReport::of_reports(
        "c",
        "1",
        vec![
            report(Some("a"), vec![with_verdict(Verdict::Pass)]),
            report(Some("b"), vec![with_verdict(Verdict::Warn), with_verdict(Verdict::Skip)]),
        ],
        t(0, 0),
        t(2, 0),
    );
    assert_eq!(m.overall_verdict(), Verdict::Warn);
    assert_eq!(exit_for_multi(&m), 1);
    assert_eq!(m.verdict_counts(), (1, 0, 1, 1));
    let empty = MultiReport::of_reports("c", "1", vec![], t(0, 0), t(0, 0));
    assert_eq!(empty.overall_verdict(), Verdict::Skip);
    assert_eq!(exit_for_multi(&empty), 0);
}

// ---------------------------------------------------------------------------
// Combining producers
// ---------------------------------------------------------------------------

fn ok_report(name: &str) -> Report {
    let mut r = report(Some(name), vec![]);
    r.checks.push(CheckResult::pass("x"));
    r
}

#[test]
fn full_run_combines_zero_producers() {
    let multi = MultiReport::of_reports("crate", "0.1.0", vec![], t(0, 0), t(0, 0));
    assert_eq!(multi.reports.len(), 0);
    assert_eq!(multi.overall_verdict(), Verdict::Skip);
}

#[test]
fn full_run_combines_two_producers() {
    let multi =
        MultiReport::of_reports("c", "0.1.0", vec![ok_report("a"), ok_report("b")], t(0, 0), t(0, 0));
    assert_eq!(multi.reports.len(), 2);
    assert_eq!(multi.overall_verdict(), Verdict::Pass);
}

#[test]
fn full_run_propagates_failures() {
    let fail = report(Some("fail"), vec![CheckResult::fail("y", Severity::Error)]);
    let multi = MultiReport::of_reports("c", "0.1.0", vec![ok_report("ok"), fail], t(0, 0), t(0, 0));
    assert_eq!(multi.overall_verdict(), Verdict::Fail);
}

#[test]
fn single_check_report() {
    let r = Report::of_check("s", "1.0", "dev bench", bench_check(true, ""), t(3, 0), t(4, 0));
    assert_eq!(r.producer.as_deref(), Some("dev bench"));
    assert_eq!(r.checks.len(), 1);
    assert_eq!(r.checks[0].name, "cargo::bench");
    let m = MultiReport::of_reports(&r.subject.clone(), &r.subject_version.clone(), vec![r], t(3, 0), t(5, 0));
    assert_eq!(m.subject, "s");
    assert_eq!(m.reports.len(), 1);
}

// ---------------------------------------------------------------------------
// Manifest, subject and component names
// ---------------------------------------------------------------------------

#[test]
fn extract_quoted_strips_equals_quotes_and_commas() {
    assert_eq!(extract_quoted(&['=', ' ', '"', 'a', 'b', '"', ',']), Some(vec!['a', 'b']));
    assert_eq!(extract_quoted(&[' ', '=', ' ', '"', '"']), None);
}

#[test]
fn manifest_name_and_version_come_from_package_table() {
    let text = "[workspace]\nname = \"ws\"\n\n[package]\nname = \"my-crate\"\nversion = \"1.2.3\"\nedition = \"2021\"\n\n[dependencies]\nversion = \"9\"\n";
    let m = parse_cargo_manifest(text).expect("name and version");
    assert_eq!(m.name, "my-crate");
    assert_eq!(m.version, "1.2.3");
    assert!(parse_cargo_manifest("[package]\nname = \"x\"\n").is_none());
    assert!(parse_cargo_manifest("").is_none());
}

#[test]
fn manifest_keys_must_match_exactly() {
    // An inherited version is no version; a longer key is not `name`.
    let text = "[package]\nname = \"foo\"\nversion.workspace = true\nnamespace = \"bar\"\n";
    assert!(parse_cargo_manifest(text).is_none());
    assert_eq!(resolved_subject(&None, Some(text)), "foo");
    assert_eq!(resolved_version(&None, Some(text)), "0.0.0");
    let spaced = "[package]\nname  =  \"s\"\nversion=\"1.0\"\n";
    let m = parse_cargo_manifest(spaced).unwrap();
    assert_eq!((m.name.as_str(), m.version.as_str()), ("s", "1.0"));
}

#[test]
fn subject_and_version_are_read_separately() {
    assert_eq!(resolved_subject(&None, Some("[package]\nname = \"foo\"\n")), "foo");
    assert_eq!(resolved_version(&None, Some("[package]\nversion = \"3.1.4\"\n")), "3.1.4");
    assert_eq!(resolved_subject(&None, Some("[package]\nversion = \"3.1.4\"\n")), "unknown");
}

#[test]
fn resolved_subject_and_version_fall_back() {
    let manifest = "[package]\nname = \"m\"\nversion = \"2.0.0\"\n";
    assert_eq!(resolved_subject(&Some("given".to_string()), Some(manifest)), "given");
    assert_eq!(resolved_subject(&None, Some(manifest)), "m");
    assert_eq!(resolved_subject(&None, None), "unknown");
    assert_eq!(resolved_version(&None, Some(manifest)), "2.0.0");
    assert_eq!(resolved_version(&None, Some("[package]\nname = \"m\"\n")), "0.0.0");
    assert_eq!(resolved_subject(&None, Some("[package]\nname = \"m\"\n")), "m");
    assert_eq!(resolved_version(&Some("9".to_string()), None), "9");
}

#[test]
fn normalize_component_accepts_both_forms() {
    assert_eq!(normalize_component("coverage"), "coverage");
    assert_eq!(normalize_component("dev-coverage"), "coverage");
    assert_eq!(normalize_component("  Dev-Coverage \n"), "coverage");
    assert_eq!(normalize_component("DEV-dev-x"), "dev-x");
    assert_eq!(to_ascii_lowercase(&['Ä', 'B']), vec!['Ä', 'b']);
}

// ---------------------------------------------------------------------------
// Small subcommand decisions
// ---------------------------------------------------------------------------

#[test]
fn first_lines_takes_at_most_n() {
    assert_eq!(first_lines("a\nb\nc\n", 2), "a\nb");
    assert_eq!(first_lines("a\nb", 5), "a\nb");
    assert_eq!(first_lines("", 3), "");
    assert_eq!(first_lines("x\r\ny", 1), "x");
}

#[test]
fn bench_arguments() {
    assert_eq!(bench_args(false, None), vec!["bench"]);
    assert_eq!(bench_args(true, Some("a,b")), vec!["bench", "--workspace", "--features", "a,b"]);
    assert_eq!(bench_args(false, Some("x")), vec!["bench", "--features", "x"]);
}

#[test]
fn bench_check_keeps_first_twenty_lines_of_stderr() {
    let ok = bench_check(true, "ignored");
    assert_eq!(ok.verdict, Verdict::Pass);
    assert!(ok.detail.is_none());
    let stderr: String = (0..30).map(|i| format!("line {i}\n")).collect();
    let fail = bench_check(false, &stderr);
    assert_eq!(fail.verdict, Verdict::Fail);
    assert_eq!(fail.severity, Some(Severity::Error));
    let expected: Vec<String> = (0..20).map(|i| format!("line {i}")).collect();
    assert_eq!(fail.detail.as_deref(), Some(expected.join("\n").as_str()));
}

#[test]
fn feature_lists_are_split_and_trimmed() {
    assert_eq!(split_features(" a, b ,,c ,"), vec!["a", "b", "c"]);
    assert!(split_features("").is_empty());
    assert!(split_features(" , ").is_empty());
}

#[test]
fn dependency_scope_prefers_unused() {
    assert_eq!(dep_scope(true, true), DepScopeChoice::Unused);
    assert_eq!(dep_scope(false, true), DepScopeChoice::Outdated);
    assert_eq!(dep_scope(false, false), DepScopeChoice::All);
}

#[test]
fn sanitizer_names() {
    assert_eq!(parse_sanitizer("address"), Ok(SanitizerChoice::Address));
    assert_eq!(parse_sanitizer("thread"), Ok(SanitizerChoice::Thread));
    assert_eq!(parse_sanitizer("memory"), Ok(SanitizerChoice::Memory));
    assert_eq!(parse_sanitizer("leak"), Ok(SanitizerChoice::Leak));
    assert_eq!(parse_sanitizer("none"), Ok(SanitizerChoice::NoSanitizer));
    assert_eq!(parse_sanitizer("Address"), Err("unknown sanitizer: Address".to_string()));
}

// ---------------------------------------------------------------------------
// Terminal rendering
// ---------------------------------------------------------------------------

#[test]
fn paint_wraps_only_when_enabled() {
    assert_eq!(paint("x", C_GREEN, false), "x");
    assert_eq!(paint("x", C_GREEN, true), format!("{C_GREEN}x{C_RESET}"));
    assert_eq!(verdict_glyph_color(Verdict::Fail), ("✗", C_RED, "fail"));
}

#[test]
fn pretty_report_plain() {
    let r = report(
        Some("p"),
        vec![
            CheckResult::pass("a").with_duration_ms(5),
            CheckResult::fail("b", Severity::Error).with_detail("line1\nline2".to_string()),
        ],
    );
    let rule = "  ─────────────────────────────────────────────────────────";
    let expected = format!(
        "\n  dev · crate 0.1.0\n  via p\n\n  ✓ {:<20}        5ms\n  ✗ {:<20}           \n      line1\n      line2\n\n{rule}\n  2 checks · 1 pass · 1 fail · 0 warn · 0 skip\n  ✗ Overall: FAIL   · 1000ms total\n\n",
        "a", "b"
    );
    assert_eq!(pretty_report(&r, false), expected);
}

#[test]
fn pretty_report_colored_title_and_overall() {
    let mut r = report(None, vec![CheckResult::pass("only")]);
    r.finished_at = None;
    let out = pretty_report(&r, true);
    assert!(out.starts_with(&format!("\n{C_BOLD}{C_CYAN}  dev · crate 0.1.0{C_RESET}\n\n")));
    assert!(out.ends_with(&format!("  {C_BOLD}{C_GREEN}✓ Overall: PASS{C_RESET}\n\n")));
    assert!(out.contains(&format!("{C_DIM}  ─")));
}

#[test]
fn pretty_report_name_column_is_clamped() {
    let long = "n".repeat(70);
    let r = report(None, vec![CheckResult::skip(&long)]);
    let out = pretty_report(&r, false);
    // Longer than 60: printed in full, no padding.
    assert!(out.contains(&format!("  ⊘ {long}           \n")));
}

#[test]
fn pretty_multi_plain() {
    let m = MultiReport::of_reports(
        "c",
        "1",
        vec![
            report(Some("p1"), vec![CheckResult::pass("a")]),
            report(
                None,
                vec![
                    CheckResult::warn("w", Severity::Warning).with_detail("d1\nd2".to_string()),
                    CheckResult::fail("f", Severity::Error),
                ],
            ),
        ],
        t(0, 0),
        t(0, 0),
    );
    let rule = "  ─────────────────────────────────────────────────────────";
    let expected = format!(
        "\n  dev · c 1\n  2 producers\n\n  ✓ p1   1 pass · 0 fail · 0 warn · 0 skip\n\n  ✗ (unnamed)   0 pass · 1 fail · 1 warn · 0 skip\n    ⚠ w — d1\n    ✗ f\n\n{rule}\n  totals: 1 pass · 1 fail · 1 warn · 0 skip\n  ✗ Overall: FAIL\n\n"
    );
    assert_eq!(pretty_multi(&m, false), expected);
}

#[test]
fn pretty_multi_single_producer_word() {
    let m = MultiReport::of_reports("c", "1", vec![report(Some("x"), vec![])], t(0, 0), t(0, 0));
    let out = pretty_multi(&m, false);
    assert!(out.starts_with("\n  dev · c 1\n  1 producer\n"));
    assert!(out.ends_with("  totals: 0 pass · 0 fail · 0 warn · 0 skip\n  ⊘ Overall: SKIP\n\n"));
}
