use dev_report::Producer;
use dev_tools::model::{CheckResult, MultiReport, Report, Severity, Timestamp, Verdict};

fn instant(dt: chrono::DateTime<chrono::Utc>) -> Timestamp {
    Timestamp { secs: dt.timestamp(), nanos: dt.timestamp_subsec_nanos() }
}

/// The parts of a `dev_report` report that the library's model holds.
fn model_report(r: &dev_report::Report) -> Report {
    let checks = r
        .checks
        .iter()
        .map(|c| {
            let base = match c.verdict {
                dev_report::Verdict::Pass => CheckResult::pass(&c.name),
                dev_report::Verdict::Skip => CheckResult::skip(&c.name),
                dev_report::Verdict::Warn => CheckResult::warn(&c.name, Severity::Warning),
                dev_report::Verdict::Fail => CheckResult::fail(&c.name, Severity::Error),
            };
            match &c.detail {
                Some(d) => base.with_detail(d.clone()),
                None => base,
            }
        })
        .collect();
    Report {
        subject: r.subject.clone(),
        subject_version: r.subject_version.clone(),
        producer: r.producer.clone(),
        started_at: instant(r.started_at),
        finished_at: r.finished_at.map(instant),
        checks,
    }
}

#[test]
fn full_run_with_real_producers() {
    // fixtures: a self-test of TempProject lifecycle.
    let fixture_producer =
        dev_fixtures::FixtureProducer::new("temp_project_lifecycle", "0.1.0", || {
            let _p = dev_fixtures::TempProject::new().with_file("README.md", "hi").build()?;
            Ok(())
        });
    // bench: a tiny benchmark with no baseline.
    let bench_producer = dev_bench::BenchProducer::new(
        || {
            let mut b = dev_bench::Benchmark::new("hot");
            for _ in 0..5 {
                b.iter(|| std::hint::black_box(1 + 1));
            }
            b.finish()
        },
        "0.1.0",
        None,
        dev_bench::Threshold::regression_pct(20.0),
    );
    let started = instant(chrono::Utc::now());
    let reports = vec![
        model_report(&fixture_producer.produce()),
        model_report(&bench_producer.produce()),
    ];
    let multi = MultiReport::of_reports("crate", "0.1.0", reports, started, instant(chrono::Utc::now()));
    assert_eq!(multi.reports.len(), 2);
    assert_eq!(multi.reports[0].checks[0].name, "fixtures::temp_project_lifecycle");
    assert_eq!(multi.reports[0].checks[0].verdict, Verdict::Pass);
}
