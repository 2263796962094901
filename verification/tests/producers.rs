use dev_tools::model::{CheckResult, EvidenceData, Severity, Timestamp, Verdict};
use dev_tools::producers::{
    cargo_check_producer, cargo_test_args, cargo_test_checks, cargo_test_producer,
    check_from_cargo_message, clippy_producer, combine_output, diagnostic_checks,
    message_format_args, message_lines, parse_cargo_test_output,
    short_name_from_message, spawn_failure_check, CargoMessage, CargoRun,
    CompilerMessage, CompilerSpan, DiagnosticCode,
};
use serde_json::Value;
use std::path::PathBuf;

// ---------------------------------------------------------------------------
// Decoding a `--message-format=json` line (the binary does this with serde)
// ---------------------------------------------------------------------------

fn opt_str(o: &serde_json::Map<String, Value>, key: &str) -> Option<Option<String>> {
    match o.get(key) {
        None | Some(Value::Null) => Some(None),
        Some(v) => Some(Some(v.as_str()?.to_string())),
    }
}

fn decode_span(v: &Value) -> Option<CompilerSpan> {
    let o = v.as_object()?;
    Some(CompilerSpan {
        file_name: o.get("file_name")?.as_str()?.to_string(),
        line_start: u32::try_from(o.get("line_start")?.as_u64()?).ok()?,
        line_end: u32::try_from(o.get("line_end")?.as_u64()?).ok()?,
        is_primary: o.get("is_primary")?.as_bool()?,
    })
}

fn decode_compiler_message(v: &Value) -> Option<CompilerMessage> {
    let o = v.as_object()?;
    let mut spans = Vec::new();
    for s in o.get("spans")?.as_array()? {
        spans.push(decode_span(s)?);
    }
    let code = match o.get("code") {
        None | Some(Value::Null) => None,
        Some(c) => Some(DiagnosticCode { code: c.as_object()?.get("code")?.as_str()?.to_string() }),
    };
    Some(CompilerMessage {
        level: o.get("level")?.as_str()?.to_string(),
        message: o.get("message")?.as_str()?.to_string(),
        spans,
        code,
        rendered: opt_str(o, "rendered")?,
    })
}

fn decode_line(line: &str) -> Option<CargoMessage> {
    let v: Value = serde_json::from_str(line).ok()?;
    let o = v.as_object()?;
    let message = match o.get("message") {
        None | Some(Value::Null) => None,
        Some(m) => Some(decode_compiler_message(m)?),
    };
    Some(CargoMessage { reason: o.get("reason")?.as_str()?.to_string(), message })
}

fn parse_cargo_message_line(line: &str) -> Option<CheckResult> {
    let msg = decode_line(line)?;
    check_from_cargo_message(&msg)
}

fn t(secs: i64) -> Timestamp {
    Timestamp { secs, nanos: 0 }
}

// ---------------------------------------------------------------------------
// cargo test output
// ---------------------------------------------------------------------------

#[test]
fn parse_cargo_test_output_recognizes_ok_failed_ignored() {
    let stdout = "\
running 4 tests
test foo::bar ... ok
test foo::baz ... FAILED
test foo::qux ... ignored
test foo::quux ... ok (0.01s)

failures:
foo::baz
";
    let results = parse_cargo_test_output(stdout);
    let names: Vec<&str> = results.iter().map(|c| c.name.as_str()).collect();
    assert_eq!(names, vec!["foo::bar", "foo::baz", "foo::qux", "foo::quux"]);
    assert_eq!(results[0].verdict, Verdict::Pass);
    assert_eq!(results[1].verdict, Verdict::Fail);
    assert_eq!(results[1].severity, Some(Severity::Error));
    assert_eq!(results[2].verdict, Verdict::Skip);
    assert_eq!(results[3].verdict, Verdict::Pass);
}

#[test]
fn parse_cargo_test_output_ignores_unrelated_lines() {
    let stdout = "\
   Compiling foo v0.1.0
running 1 test
test test_a ... ok

test result: ok. 1 passed; 0 failed; 0 ignored
";
    let results = parse_cargo_test_output(stdout);
    assert_eq!(results.len(), 1);
    assert_eq!(results[0].name, "test_a");
}

#[test]
fn parse_cargo_test_output_of_empty_text() {
    assert!(parse_cargo_test_output("").is_empty());
    // An empty name is kept; an unknown outcome is not.
    let r = parse_cargo_test_output("test  ... ok\ntest x ... maybe\n");
    assert_eq!(r.len(), 1);
    assert_eq!(r[0].name, "");
}

#[test]
fn parse_cargo_test_output_handles_crlf() {
    let results = parse_cargo_test_output("test a ... ok\r\ntest b ... FAILED\r\n");
    assert_eq!(results.len(), 2);
    assert_eq!(results[0].name, "a");
    assert_eq!(results[1].verdict, Verdict::Fail);
}

// ---------------------------------------------------------------------------
// --message-format=json lines
// ---------------------------------------------------------------------------

#[test]
fn parse_cargo_message_line_maps_warning() {
    let line = r#"{"reason":"compiler-message","package_id":"x","manifest_path":"x","target":{},"message":{"level":"warning","message":"unused variable: `x`","spans":[{"file_name":"src/lib.rs","line_start":10,"line_end":10,"is_primary":true,"byte_start":0,"byte_end":1,"column_start":1,"column_end":2,"text":[]}],"code":{"code":"unused_variables"},"rendered":"warning: unused variable: `x`\n  --> src/lib.rs:10:1"}}"#;
    let check = parse_cargo_message_line(line).expect("should parse");
    assert_eq!(check.name, "unused_variables");
    assert_eq!(check.verdict, Verdict::Warn);
    assert_eq!(check.severity, Some(Severity::Warning));
    assert_eq!(check.detail.as_deref(), Some("unused variable: `x`"));
    assert_eq!(check.evidence.len(), 2);
}

#[test]
fn parse_cargo_message_line_maps_error() {
    let line = r#"{"reason":"compiler-message","message":{"level":"error","message":"cannot find type `Foo`","spans":[{"file_name":"src/main.rs","line_start":3,"line_end":3,"is_primary":true,"byte_start":0,"byte_end":1,"column_start":1,"column_end":2,"text":[]}],"code":{"code":"E0412"},"rendered":"error[E0412]: cannot find type `Foo`"}}"#;
    let check = parse_cargo_message_line(line).expect("should parse");
    assert_eq!(check.name, "E0412");
    assert_eq!(check.verdict, Verdict::Fail);
    assert_eq!(check.severity, Some(Severity::Error));
}

#[test]
fn parse_cargo_message_line_ignores_non_diagnostic_reasons() {
    for line in [
        r#"{"reason":"compiler-artifact","package_id":"x"}"#,
        r#"{"reason":"build-finished","success":true}"#,
        r#"{"reason":"build-script-executed","package_id":"x"}"#,
    ] {
        assert!(parse_cargo_message_line(line).is_none());
    }
}

#[test]
fn parse_cargo_message_line_handles_diagnostic_without_code() {
    let line = r#"{"reason":"compiler-message","message":{"level":"warning","message":"this is a long warning that has no diagnostic code attached","spans":[],"code":null,"rendered":""}}"#;
    let check = parse_cargo_message_line(line).expect("should parse");
    assert_eq!(check.name, "this is a long warning that has no diagnostic code attached");
}

#[test]
fn parse_cargo_message_line_truncates_very_long_message_for_name() {
    let long = "a".repeat(200);
    let line = format!(
        r#"{{"reason":"compiler-message","message":{{"level":"warning","message":"{}","spans":[],"code":null,"rendered":""}}}}"#,
        long
    );
    let check = parse_cargo_message_line(&line).expect("should parse");
    assert!(check.name.ends_with("..."));
    assert!(check.name.len() <= 80);
}

#[test]
fn parse_cargo_message_line_skips_unrecognized_levels() {
    for level in ["note", "help", "failure-note"] {
        let line = format!(
            r#"{{"reason":"compiler-message","message":{{"level":"{}","message":"x","spans":[],"code":null,"rendered":""}}}}"#,
            level
        );
        assert!(parse_cargo_message_line(&line).is_none(), "level {}", level);
    }
}

#[test]
fn parse_cargo_message_line_ignores_malformed_json() {
    assert!(parse_cargo_message_line("not json").is_none());
    assert!(parse_cargo_message_line("").is_none());
}

#[test]
fn diagnostic_evidence_is_primary_site_then_rendered() {
    let line = r#"{"reason":"compiler-message","message":{"level":"error: internal compiler error","message":"boom","spans":[{"file_name":"a.rs","line_start":1,"line_end":2,"is_primary":false},{"file_name":"b.rs","line_start":7,"line_end":9,"is_primary":true}],"code":null,"rendered":"rendered text"}}"#;
    let check = parse_cargo_message_line(line).expect("should parse");
    assert_eq!(check.verdict, Verdict::Fail);
    assert_eq!(check.name, "boom");
    assert_eq!(check.evidence.len(), 2);
    assert_eq!(check.evidence[0].label, "site");
    match &check.evidence[0].data {
        EvidenceData::FileRef(f) => {
            assert_eq!(f.path, "b.rs");
            assert_eq!(f.line_start, Some(7));
            assert_eq!(f.line_end, Some(9));
        }
        other => panic!("unexpected evidence {other:?}"),
    }
    assert_eq!(check.evidence[1].label, "rendered");
    match &check.evidence[1].data {
        EvidenceData::Snippet(s) => assert_eq!(s, "rendered text"),
        other => panic!("unexpected evidence {other:?}"),
    }
}

#[test]
fn diagnostic_without_primary_span_uses_first() {
    let line = r#"{"reason":"compiler-message","message":{"level":"warning","message":"w","spans":[{"file_name":"first.rs","line_start":4,"line_end":4,"is_primary":false},{"file_name":"second.rs","line_start":5,"line_end":5,"is_primary":false}],"code":{"code":"W1"}}}"#;
    let check = parse_cargo_message_line(line).expect("should parse");
    assert_eq!(check.evidence.len(), 1);
    match &check.evidence[0].data {
        EvidenceData::FileRef(f) => assert_eq!(f.path, "first.rs"),
        other => panic!("unexpected evidence {other:?}"),
    }
}

// ---------------------------------------------------------------------------
// Short names
// ---------------------------------------------------------------------------

#[test]
fn short_name_takes_trimmed_first_line() {
    assert_eq!(short_name_from_message("  first line  \nsecond"), "first line");
    assert_eq!(short_name_from_message(""), "diagnostic");
}

#[test]
fn short_name_is_at_most_80_bytes() {
    let exactly = "b".repeat(80);
    assert_eq!(short_name_from_message(&exactly), exactly);
    let long = "c".repeat(81);
    let name = short_name_from_message(&long);
    assert_eq!(name, format!("{}...", "c".repeat(77)));
    assert_eq!(name.len(), 80);
}

#[test]
fn short_name_cuts_at_a_character_boundary() {
    // Byte 77 falls inside the two-byte 'é': the cut goes before it.
    let msg = format!("{}é{}", "a".repeat(76), "z".repeat(10));
    let name = short_name_from_message(&msg);
    assert_eq!(name, format!("{}...", "a".repeat(76)));
    assert_eq!(name.len(), 79);
    let ok = format!("{}é{}", "a".repeat(75), "z".repeat(10));
    assert_eq!(short_name_from_message(&ok), format!("{}é...", "a".repeat(75)));
    // Only four-byte characters: 19 of them fit in 77 bytes.
    let wide = "😀".repeat(30);
    assert_eq!(short_name_from_message(&wide), format!("{}...", "😀".repeat(19)));
}

#[test]
fn codeless_diagnostic_with_wide_characters_maps() {
    let long = format!("{}é{}", "a".repeat(76), "z".repeat(10));
    let msg = CargoMessage {
        reason: "compiler-message".to_string(),
        message: Some(CompilerMessage {
            level: "warning".to_string(),
            message: long.clone(),
            spans: vec![],
            code: None,
            rendered: None,
        }),
    };
    let c = check_from_cargo_message(&msg).expect("maps");
    assert_eq!(c.name, format!("{}...", "a".repeat(76)));
    assert_eq!(c.detail.as_deref(), Some(long.as_str()));
    assert_eq!(c.verdict, Verdict::Warn);
}

// ---------------------------------------------------------------------------
// Runs and producers
// ---------------------------------------------------------------------------

#[test]
fn spawn_failure_is_a_critical_failure() {
    let c = spawn_failure_check("No such file or directory (os error 2)");
    assert_eq!(c.name, "subprocess::spawn");
    assert_eq!(c.verdict, Verdict::Fail);
    assert_eq!(c.severity, Some(Severity::Critical));
    assert_eq!(
        c.detail.as_deref(),
        Some("failed to spawn cargo: No such file or directory (os error 2)")
    );
}

#[test]
fn combined_output_joins_with_newline() {
    assert_eq!(combine_output("out", "err"), "out\nerr");
    assert_eq!(combine_output("", ""), "\n");
}

#[test]
fn cargo_test_checks_reads_stdout_then_stderr() {
    let run = CargoRun::Captured {
        stdout: "test a ... ok".to_string(),
        stderr: "test b ... FAILED".to_string(),
        exit_code: Some(0),
    };
    let checks = cargo_test_checks(&run);
    assert_eq!(checks.len(), 2);
    assert_eq!(checks[0].name, "a");
    assert_eq!(checks[1].name, "b");
    assert_eq!(checks[1].verdict, Verdict::Fail);
    let failed = CargoRun::SpawnFailed { error: "nope".to_string() };
    let checks = cargo_test_checks(&failed);
    assert_eq!(checks.len(), 1);
    assert_eq!(checks[0].name, "subprocess::spawn");
}

#[test]
fn message_lines_splits_stdout() {
    assert_eq!(message_lines("{}\n{\"a\":1}\n"), vec!["{}".to_string(), "{\"a\":1}".to_string()]);
    assert!(message_lines("").is_empty());
}

#[test]
fn diagnostic_checks_keeps_mapped_lines_in_order() {
    let lines = [
        r#"{"reason":"compiler-message","message":{"level":"warning","message":"w1","spans":[],"code":{"code":"W1"}}}"#,
        r#"{"reason":"compiler-artifact","package_id":"x"}"#,
        "garbage",
        r#"{"reason":"compiler-message","message":{"level":"error","message":"e1","spans":[],"code":{"code":"E1"}}}"#,
    ];
    let msgs: Vec<Option<CargoMessage>> = lines.iter().map(|l| decode_line(l)).collect();
    let ok = CargoRun::Captured { stdout: String::new(), stderr: String::new(), exit_code: Some(0) };
    let checks = diagnostic_checks(&ok, &msgs);
    let names: Vec<&str> = checks.iter().map(|c| c.name.as_str()).collect();
    assert_eq!(names, vec!["W1", "E1"]);
    let denied = CargoRun::SpawnFailed { error: "denied".to_string() };
    let failed = diagnostic_checks(&denied, &msgs);
    assert_eq!(failed.len(), 1);
    assert_eq!(failed[0].detail.as_deref(), Some("failed to spawn cargo: denied"));
}

#[test]
fn producers_keep_subject_and_directory() {
    let p = cargo_test_producer("crate", "1.2.3");
    assert_eq!(p.subject_name(), "crate");
    assert_eq!(p.version(), "1.2.3");
    assert!(p.dir().is_none());
    let p = p.in_dir(PathBuf::from("/tmp/work"));
    assert_eq!(p.dir().as_deref(), Some(std::path::Path::new("/tmp/work")));
    assert_eq!(p.subject_name(), "crate");

    let c = clippy_producer("a", "0.1.0").in_dir(PathBuf::from("x"));
    assert_eq!(c.version(), "0.1.0");
    assert_eq!(c.dir().as_deref(), Some(std::path::Path::new("x")));
    let k = cargo_check_producer("b", "0.2.0");
    assert_eq!(k.subject_name(), "b");
    assert!(k.dir().is_none());
}

#[test]
fn producer_reports_carry_name_times_and_checks() {
    let p = cargo_test_producer("crate", "0.1.0");
    let run = CargoRun::Captured {
        stdout: "test t ... ok\n".to_string(),
        stderr: String::new(),
        exit_code: Some(0),
    };
    let r = p.report_from_run(&run, t(10), t(20));
    assert_eq!(r.subject, "crate");
    assert_eq!(r.subject_version, "0.1.0");
    assert_eq!(r.producer.as_deref(), Some("cargo-test"));
    assert_eq!(r.started_at, t(10));
    assert_eq!(r.finished_at, Some(t(20)));
    assert_eq!(r.checks.len(), 1);

    let msgs = vec![decode_line(r#"{"reason":"compiler-message","message":{"level":"warning","message":"w","spans":[],"code":{"code":"W"}}}"#)];
    let ok = CargoRun::Captured { stdout: String::new(), stderr: String::new(), exit_code: Some(0) };
    let r = clippy_producer("crate", "0.1.0").report_from_run(&ok, &msgs, t(1), t(2));
    assert_eq!(r.producer.as_deref(), Some("cargo-clippy"));
    assert_eq!(r.checks.len(), 1);
    let gone = CargoRun::SpawnFailed { error: "gone".to_string() };
    let r = cargo_check_producer("crate", "0.1.0").report_from_run(&gone, &msgs, t(1), t(2));
    assert_eq!(r.producer.as_deref(), Some("cargo-check"));
    assert_eq!(r.checks[0].name, "subprocess::spawn");
}

#[test]
fn cargo_arguments() {
    assert_eq!(cargo_test_args(), vec!["test", "--no-fail-fast"]);
    assert_eq!(message_format_args("clippy"), vec!["clippy", "--message-format=json"]);
    assert_eq!(message_format_args("check"), vec!["check", "--message-format=json"]);
}

#[test]
fn unsuccessful_cargo_test_exit_fails_the_report() {
    // The crate does not compile: no test line, exit status 101.
    let run = CargoRun::Captured {
        stdout: String::new(),
        stderr: "error[E0425]: cannot find value `x` in this scope\n".to_string(),
        exit_code: Some(101),
    };
    let r = cargo_test_producer("crate", "0.1.0").report_from_run(&run, t(1), t(2));
    assert_eq!(r.checks.len(), 1);
    assert_eq!(r.checks[0].name, "subprocess::exit");
    assert_eq!(r.checks[0].verdict, Verdict::Fail);
    assert_eq!(r.checks[0].severity, Some(Severity::Error));
    assert_eq!(r.checks[0].detail.as_deref(), Some("cargo exited with status 101"));
    assert_eq!(r.overall_verdict(), Verdict::Fail);
}

#[test]
fn exit_check_follows_test_checks() {
    let run = CargoRun::Captured {
        stdout: "test a ... ok\ntest b ... FAILED\n".to_string(),
        stderr: String::new(),
        exit_code: None,
    };
    let checks = cargo_test_checks(&run);
    let names: Vec<&str> = checks.iter().map(|c| c.name.as_str()).collect();
    assert_eq!(names, vec!["a", "b", "subprocess::exit"]);
    assert_eq!(checks[2].detail.as_deref(), Some("cargo was terminated by a signal"));
}

#[test]
fn unsuccessful_clippy_exit_fails_the_report() {
    let msgs = vec![decode_line(r#"{"reason":"compiler-message","message":{"level":"warning","message":"w","spans":[],"code":{"code":"W"}}}"#)];
    let run = CargoRun::Captured { stdout: String::new(), stderr: String::new(), exit_code: Some(-1) };
    let r = clippy_producer("crate", "0.1.0").report_from_run(&run, &msgs, t(1), t(2));
    let names: Vec<&str> = r.checks.iter().map(|c| c.name.as_str()).collect();
    assert_eq!(names, vec!["W", "subprocess::exit"]);
    assert_eq!(r.checks[1].detail.as_deref(), Some("cargo exited with status -1"));
    assert_eq!(r.overall_verdict(), Verdict::Fail);
    let clean = CargoRun::Captured { stdout: String::new(), stderr: String::new(), exit_code: Some(0) };
    let r = cargo_check_producer("crate", "0.1.0").report_from_run(&clean, &msgs, t(1), t(2));
    assert_eq!(r.checks.len(), 1);
    assert_eq!(r.overall_verdict(), Verdict::Warn);
}

#[test]
fn check_and_clippy_map_the_same_output_alike() {
    let msgs = vec![
        decode_line(r#"{"reason":"compiler-message","message":{"level":"warning","message":"unused variable","spans":[{"file_name":"src/a.rs","line_start":3,"line_end":4,"is_primary":true}],"code":{"code":"unused_variables"},"rendered":"warning: unused"}}"#),
        decode_line(r#"{"reason":"compiler-artifact"}"#),
        decode_line(r#"{"reason":"compiler-message","message":{"level":"error","message":"mismatched types","spans":[],"code":null}}"#),
    ];
    let run = CargoRun::Captured { stdout: String::new(), stderr: String::new(), exit_code: Some(101) };
    let c = cargo_check_producer("crate", "0.1.0").report_from_run(&run, &msgs, t(1), t(2));
    let k = clippy_producer("crate", "0.1.0").report_from_run(&run, &msgs, t(1), t(2));
    assert_eq!(c.producer.as_deref(), Some("cargo-check"));
    assert_eq!(k.producer.as_deref(), Some("cargo-clippy"));
    assert_eq!(format!("{:?}", c.checks), format!("{:?}", k.checks));
    let names: Vec<&str> = c.checks.iter().map(|x| x.name.as_str()).collect();
    assert_eq!(names, vec!["unused_variables", "mismatched types", "subprocess::exit"]);
}
