use dev_tools::ci::{ci_workflow, generate_ci, plan_ci, CiJob, MSRV_MISSING};
use dev_tools::version::{
    component_line, find_component, lookup_sibling, selected_components, unknown_component_msg,
    version_table, Component, TAGLINE, VERSION_TIP,
};

const TABLE: [Component; 3] = [
    Component { alias: "report", name: "dev-report", version: "0.9.8" },
    Component { alias: "ci", name: "dev-ci", version: "0.9.3" },
    Component { alias: "tools", name: "dev-tools", version: "0.9.5" },
];

fn strings(items: &[&str]) -> Vec<String> {
    items.iter().map(|s| s.to_string()).collect()
}

// ---------------------------------------------------------------------------
// dev version
// ---------------------------------------------------------------------------

#[test]
fn lookup_finds_alias() {
    assert_eq!(lookup_sibling(&TABLE, "ci").map(|c| c.name), Some("dev-ci"));
    assert!(lookup_sibling(&TABLE, "dev-ci").is_none());
    assert!(lookup_sibling(&[], "ci").is_none());
}

#[test]
fn find_component_accepts_short_and_crate_names() {
    for name in ["ci", "dev-ci", " DEV-CI ", "Ci"] {
        assert_eq!(find_component(&TABLE, name).map(|c| c.version), Ok("0.9.3"), "{name}");
    }
}

#[test]
fn unknown_component_lists_known_aliases() {
    assert_eq!(
        find_component(&TABLE, "nope").map(|c| c.name),
        Err("unknown component: \"nope\". Known: report, ci, tools".to_string())
    );
    assert_eq!(
        unknown_component_msg(&TABLE, "dev-x\t"),
        "unknown component: \"dev-x\\t\". Known: report, ci, tools"
    );
    assert_eq!(unknown_component_msg(&[], "a"), "unknown component: \"a\". Known: ");
}

#[test]
fn unknown_name_is_quoted_and_escaped() {
    assert_eq!(
        unknown_component_msg(&[], "q\"\n"),
        "unknown component: \"q\\\"\\n\". Known: "
    );
}

#[test]
fn selected_components_for_json() {
    let all = selected_components(&TABLE, None).unwrap();
    assert_eq!(all.len(), 3);
    assert_eq!(all[2].alias, "tools");
    let one = selected_components(&TABLE, Some("dev-report")).unwrap();
    assert_eq!(one.len(), 1);
    assert_eq!(one[0].version, "0.9.8");
    assert!(selected_components(&TABLE, Some("zzz")).is_err());
}

#[test]
fn component_line_is_name_and_version() {
    assert_eq!(component_line(TABLE[0]), "dev-report 0.9.8");
}

#[test]
fn version_table_plain() {
    let text = version_table("0.9.5", &TABLE, false);
    let expected = format!(
        "\n  dev 0.9.5\n  {TAGLINE}\n\n  components\n    dev-report   0.9.8\n    dev-ci       0.9.3\n    dev-tools    0.9.5\n\n  {VERSION_TIP}\n\n"
    );
    assert_eq!(text, expected);
}

#[test]
fn version_table_empty_uses_default_width() {
    let text = version_table("1.0.0", &[], false);
    assert!(text.contains("\n  components\n\n  tip:"));
    let one = [Component { alias: "x", name: "x", version: "1" }];
    assert!(version_table("1", &one, false).contains("    x   1\n"));
}

#[test]
fn version_table_colored() {
    let text = version_table("0.9.5", &TABLE[..1], true);
    assert!(text.contains("\x1b[1m\x1b[36mdev 0.9.5\x1b[0m"));
    assert!(text.contains("    dev-report   \x1b[32m0.9.8\x1b[0m\n"));
}

// ---------------------------------------------------------------------------
// dev ci
// ---------------------------------------------------------------------------

#[test]
fn plan_ci_reads_jobs_in_order() {
    let plan = plan_ci(&strings(&[" Clippy ", "", "docs", "FMT"]), Some("1.85"), &vec![]).unwrap();
    assert_eq!(plan.jobs, vec![CiJob::Clippy, CiJob::Docs, CiJob::Fmt, CiJob::Msrv]);
    assert_eq!(plan.msrv.as_deref(), Some("1.85"));
    let plan = plan_ci(&strings(&["msrv", "clippy"]), Some("1.70"), &vec![]).unwrap();
    assert_eq!(plan.jobs, vec![CiJob::Msrv, CiJob::Clippy]);
    let plan = plan_ci(&vec![], None, &vec![]).unwrap();
    assert!(plan.jobs.is_empty());
}

#[test]
fn plan_ci_msrv_entry_needs_version() {
    let err = plan_ci(&strings(&["clippy", "msrv"]), None, &vec![]).unwrap_err();
    assert_eq!(err, MSRV_MISSING);
    assert_eq!(err, "--with msrv requires --msrv <VERSION>");
}

#[test]
fn plan_ci_rejects_unknown_job() {
    let err = plan_ci(&strings(&["clippy", " Bogus "]), None, &vec![]).unwrap_err();
    assert_eq!(err, "unknown job in --with: \"bogus\"");
}

#[test]
fn plan_ci_splits_path_deps_at_first_equals() {
    let plan = plan_ci(&vec![], None, &strings(&["a=b=c", "x="])).unwrap();
    assert_eq!(plan.path_deps.len(), 2);
    assert_eq!(plan.path_deps[0].name, "a");
    assert_eq!(plan.path_deps[0].url, "b=c");
    assert_eq!(plan.path_deps[1].name, "x");
    assert_eq!(plan.path_deps[1].url, "");
    let err = plan_ci(&vec![], None, &strings(&["ok=1", "nope"])).unwrap_err();
    assert_eq!(err, "--path-dep must be name=url; got \"nope\"");
}

#[test]
fn plan_ci_checks_jobs_before_path_deps() {
    let err = plan_ci(&strings(&["what"]), None, &strings(&["nope"])).unwrap_err();
    assert!(err.starts_with("unknown job"));
}

#[test]
fn msrv_job_present_exactly_with_a_version() {
    let with = strings(&["clippy"]);
    assert!(plan_ci(&with, Some("1.80"), &vec![]).unwrap().jobs.contains(&CiJob::Msrv));
    assert!(!plan_ci(&with, None, &vec![]).unwrap().jobs.contains(&CiJob::Msrv));
    // An entry spelled with spaces is still the MSRV job, added once more.
    let spaced = plan_ci(&strings(&[" msrv"]), Some("1.80"), &vec![]).unwrap();
    assert_eq!(spaced.jobs, vec![CiJob::Msrv, CiJob::Msrv]);
}

#[test]
fn generated_workflow_reflects_plan() {
    let yaml = generate_ci(
        "Nightly",
        &strings(&["main", "release"]),
        &strings(&["ubuntu-latest", "macos-latest"]),
        &strings(&["clippy", "docs"]),
        Some("1.85"),
        &strings(&["dev-report=https://example.com/dev-report.git"]),
    )
    .unwrap();
    assert!(yaml.starts_with("name: Nightly\n"));
    assert!(yaml.contains("os: [ubuntu-latest, macos-latest]"));
    assert!(yaml.contains("\n  clippy:\n"));
    assert!(yaml.contains("\n  docs:\n"));
    assert!(yaml.contains("\n  msrv:\n"));
    assert!(!yaml.contains("\n  fmt:\n"));
    assert!(yaml.contains("release"));
    assert!(yaml.contains("git clone --depth 1 'https://example.com/dev-report.git' '../dev-report'"));
}

#[test]
fn generated_workflow_defaults() {
    let plan = plan_ci(&vec![], None, &vec![]).unwrap();
    let yaml = ci_workflow("CI", &vec![], &vec![], &plan);
    assert!(yaml.starts_with("name: CI\n"));
    assert!(yaml.contains("main"));
    assert!(yaml.contains("os: [ubuntu-latest]"));
    assert!(!yaml.contains("\n  clippy:\n"));
    assert!(!yaml.contains("\n  msrv:\n"));
    let again = ci_workflow("CI", &vec![], &vec![], &plan);
    assert_eq!(yaml, again);
}

#[test]
fn generated_workflow_errors_pass_through() {
    let err = generate_ci("CI", &vec![], &vec![], &strings(&["msrv"]), None, &vec![]).unwrap_err();
    assert_eq!(err, MSRV_MISSING);
}

#[test]
fn generated_workflow_has_each_asked_job_once() {
    let yaml = generate_ci(
        "CI",
        &strings(&["main"]),
        &strings(&["ubuntu-latest"]),
        &strings(&["fmt", "FMT"]),
        None,
        &vec![],
    )
    .unwrap();
    assert_eq!(yaml.matches("\n  fmt:\n").count(), 1);
    assert!(!yaml.contains("\n  docs:\n"));
}
