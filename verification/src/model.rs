//! The report model the library's logic reads and builds: verdicts,
//! severities, evidence, check results, reports and multi-reports, with
//! the verdict arithmetic (counts and the overall verdict).

use vstd::prelude::*;

verus! {

/// Outcome of a check.
#[derive(Clone, Copy, Debug, PartialEq, Eq, Structural)]
pub enum Verdict {
    /// Check passed.
    Pass,
    /// Check failed.
    Fail,
    /// Check produced a warning.
    Warn,
    /// Check was skipped.
    Skip,
}

/// Severity of a failing or warning check.
#[derive(Clone, Copy, Debug, PartialEq, Eq, Structural)]
pub enum Severity {
    /// Informational.
    Info,
    /// Warning.
    Warning,
    /// Error.
    Error,
    /// Critical.
    Critical,
}

/// An instant in UTC: whole seconds since the Unix epoch and the
/// nanoseconds within that second (a leap second carries `nanos >= 10^9`).
#[derive(Clone, Copy, Debug, PartialEq, Eq, Structural)]
pub struct Timestamp {
    /// Seconds since 1970-01-01T00:00:00Z.
    pub secs: i64,
    /// Nanoseconds within the second.
    pub nanos: u32,
}

/// The earliest representable second (January 1 of year -262143).
pub const MIN_TIMESTAMP_SECS: i64 = -8334601315200;
/// The latest representable second (December 31 of year 262142, 23:59:59).
pub const MAX_TIMESTAMP_SECS: i64 = 8210266876799;

impl Timestamp {
    /// A representable instant: in the calendar's range, and a leap-second
    /// fraction only on the last second of a minute.
    pub open spec fn wf(self) -> bool {
        &&& MIN_TIMESTAMP_SECS <= self.secs <= MAX_TIMESTAMP_SECS
        &&& self.nanos < 2_000_000_000
        &&& (self.nanos >= 1_000_000_000 ==> self.secs % 60 == 59)
    }

    /// Checks `wf`.
    pub fn is_valid(&self) -> (b: bool)
        ensures
            b == self.wf(),
    {
        if !(MIN_TIMESTAMP_SECS <= self.secs && self.secs <= MAX_TIMESTAMP_SECS
            && self.nanos < 2_000_000_000) {
            return false;
        }
        // Shift to a non-negative value with the same remainder modulo 60.
        let shifted: i64 = self.secs + 8334601315200;
        assert(shifted % 60 == self.secs % 60);
        self.nanos < 1_000_000_000 || shifted % 60 == 59
    }
}

/// Reference to a file with an optional line range.
#[derive(Clone, Debug)]
pub struct FileRef {
    /// Path of the file.
    pub path: String,
    /// First line (1-indexed, inclusive).
    pub line_start: Option<u32>,
    /// Last line (1-indexed, inclusive).
    pub line_end: Option<u32>,
}

/// Payload of a piece of evidence.
#[derive(Clone, Debug)]
pub enum EvidenceData {
    /// A short text or code snippet.
    Snippet(String),
    /// A reference to a file.
    FileRef(FileRef),
}

/// A labelled piece of evidence backing a check.
#[derive(Clone, Debug)]
pub struct Evidence {
    /// Label.
    pub label: String,
    /// Payload.
    pub data: EvidenceData,
}

/// The result of one check.
#[derive(Clone, Debug)]
pub struct CheckResult {
    /// Identifier of the check.
    pub name: String,
    /// Outcome.
    pub verdict: Verdict,
    /// Severity (for failing and warning checks).
    pub severity: Option<Severity>,
    /// Human-readable detail.
    pub detail: Option<String>,
    /// Duration in milliseconds.
    pub duration_ms: Option<u64>,
    /// Evidence, in the order it was attached.
    pub evidence: Vec<Evidence>,
}

/// One report: the checks of one producer for one subject.
#[derive(Clone, Debug)]
pub struct Report {
    /// Crate or project reported on.
    pub subject: String,
    /// Version of the subject.
    pub subject_version: String,
    /// Name of the producer.
    pub producer: Option<String>,
    /// When the report was started.
    pub started_at: Timestamp,
    /// When the report was finished.
    pub finished_at: Option<Timestamp>,
    /// The checks, in order.
    pub checks: Vec<CheckResult>,
}

/// Several reports on one subject.
#[derive(Clone, Debug)]
pub struct MultiReport {
    /// Crate or project reported on.
    pub subject: String,
    /// Version of the subject.
    pub subject_version: String,
    /// When aggregation started.
    pub started_at: Timestamp,
    /// When aggregation finished.
    pub finished_at: Option<Timestamp>,
    /// The constituent reports, in order.
    pub reports: Vec<Report>,
}

/// Number of checks in `checks` whose verdict is `v`.
pub open spec fn count_verdict(checks: Seq<CheckResult>, v: Verdict) -> nat
    decreases checks.len(),
{
    if checks.len() == 0 {
        0
    } else {
        count_verdict(checks.drop_last(), v) + (if checks.last().verdict == v { 1nat } else { 0nat })
    }
}

/// The overall verdict of a sequence of checks: any `Fail` gives `Fail`,
/// else any `Warn` gives `Warn`, else any `Pass` gives `Pass`, else `Skip`.
pub open spec fn overall_of(checks: Seq<CheckResult>) -> Verdict {
    if count_verdict(checks, Verdict::Fail) > 0 {
        Verdict::Fail
    } else if count_verdict(checks, Verdict::Warn) > 0 {
        Verdict::Warn
    } else if count_verdict(checks, Verdict::Pass) > 0 {
        Verdict::Pass
    } else {
        Verdict::Skip
    }
}

/// `(pass, fail, warn, skip)` counts of a sequence of checks.
pub open spec fn counts_of(checks: Seq<CheckResult>) -> (nat, nat, nat, nat) {
    (
        count_verdict(checks, Verdict::Pass),
        count_verdict(checks, Verdict::Fail),
        count_verdict(checks, Verdict::Warn),
        count_verdict(checks, Verdict::Skip),
    )
}

/// Every check of every report, report by report, in order.
pub open spec fn all_checks(reports: Seq<Report>) -> Seq<CheckResult>
    decreases reports.len(),
{
    if reports.len() == 0 {
        Seq::empty()
    } else {
        all_checks(reports.drop_last()) + reports.last().checks@
    }
}

/// Counting distributes over concatenation.
pub proof fn lemma_count_verdict_add(a: Seq<CheckResult>, b: Seq<CheckResult>, v: Verdict)
    ensures
        count_verdict(a + b, v) == count_verdict(a, v) + count_verdict(b, v),
    decreases b.len(),
{
    if b.len() == 0 {
        assert(a + b =~= a);
    } else {
        assert((a + b).drop_last() =~= a + b.drop_last());
        lemma_count_verdict_add(a, b.drop_last(), v);
    }
}

/// The four verdict counts add up to the number of checks.
pub proof fn lemma_counts_sum(checks: Seq<CheckResult>)
    ensures
        count_verdict(checks, Verdict::Pass) + count_verdict(checks, Verdict::Fail)
            + count_verdict(checks, Verdict::Warn) + count_verdict(checks, Verdict::Skip)
            == checks.len(),
    decreases checks.len(),
{
    if checks.len() > 0 {
        lemma_counts_sum(checks.drop_last());
    }
}

/// A verdict that some check has is counted at least once.
pub proof fn lemma_count_verdict_pos(checks: Seq<CheckResult>, i: int)
    requires
        0 <= i < checks.len(),
    ensures
        count_verdict(checks, checks[i].verdict) > 0,
    decreases checks.len(),
{
    if i < checks.len() - 1 {
        lemma_count_verdict_pos(checks.drop_last(), i);
    }
}

/// A count never exceeds the number of checks.
pub proof fn lemma_count_le_len(checks: Seq<CheckResult>, v: Verdict)
    ensures
        count_verdict(checks, v) <= checks.len(),
{
    lemma_counts_sum(checks);
}

impl CheckResult {
    /// A passing check named `name`.
    pub fn pass(name: &str) -> (c: CheckResult)
        ensures
            c.name@ == name@,
            c.verdict == Verdict::Pass,
            c.severity is None,
            c.detail is None,
            c.duration_ms is None,
            c.evidence@.len() == 0,
    {
        CheckResult {
            name: name.to_owned(),
            verdict: Verdict::Pass,
            severity: None,
            detail: None,
            duration_ms: None,
            evidence: Vec::new(),
        }
    }

    /// A failing check named `name` with severity `severity`.
    pub fn fail(name: &str, severity: Severity) -> (c: CheckResult)
        ensures
            c.name@ == name@,
            c.verdict == Verdict::Fail,
            c.severity == Some(severity),
            c.detail is None,
            c.duration_ms is None,
            c.evidence@.len() == 0,
    {
        CheckResult {
            name: name.to_owned(),
            verdict: Verdict::Fail,
            severity: Some(severity),
            detail: None,
            duration_ms: None,
            evidence: Vec::new(),
        }
    }

    /// A warning check named `name` with severity `severity`.
    pub fn warn(name: &str, severity: Severity) -> (c: CheckResult)
        ensures
            c.name@ == name@,
            c.verdict == Verdict::Warn,
            c.severity == Some(severity),
            c.detail is None,
            c.duration_ms is None,
            c.evidence@.len() == 0,
    {
        CheckResult {
            name: name.to_owned(),
            verdict: Verdict::Warn,
            severity: Some(severity),
            detail: None,
            duration_ms: None,
            evidence: Vec::new(),
        }
    }

    /// A skipped check named `name`.
    pub fn skip(name: &str) -> (c: CheckResult)
        ensures
            c.name@ == name@,
            c.verdict == Verdict::Skip,
            c.severity is None,
            c.detail is None,
            c.duration_ms is None,
            c.evidence@.len() == 0,
    {
        CheckResult {
            name: name.to_owned(),
            verdict: Verdict::Skip,
            severity: None,
            detail: None,
            duration_ms: None,
            evidence: Vec::new(),
        }
    }

    /// The same check with `detail` attached.
    pub fn with_detail(self, detail: String) -> (c: CheckResult)
        ensures
            c.name == self.name,
            c.verdict == self.verdict,
            c.severity == self.severity,
            c.detail == Some(detail),
            c.duration_ms == self.duration_ms,
            c.evidence == self.evidence,
    {
        CheckResult { detail: Some(detail), ..self }
    }

    /// The same check with a duration attached.
    pub fn with_duration_ms(self, ms: u64) -> (c: CheckResult)
        ensures
            c.name == self.name,
            c.verdict == self.verdict,
            c.severity == self.severity,
            c.detail == self.detail,
            c.duration_ms == Some(ms),
            c.evidence == self.evidence,
    {
        CheckResult { duration_ms: Some(ms), ..self }
    }

    /// The same check with one more piece of evidence at the end.
    pub fn with_evidence(self, e: Evidence) -> (c: CheckResult)
        ensures
            c.name == self.name,
            c.verdict == self.verdict,
            c.severity == self.severity,
            c.detail == self.detail,
            c.duration_ms == self.duration_ms,
            c.evidence@ == self.evidence@.push(e),
    {
        let mut s = self;
        s.evidence.push(e);
        s
    }
}

/// Counts `(pass, fail, warn, skip)` over a slice of checks.
pub fn verdict_counts_of(checks: &[CheckResult]) -> (r: (usize, usize, usize, usize))
    ensures
        r.0 == count_verdict(checks@, Verdict::Pass),
        r.1 == count_verdict(checks@, Verdict::Fail),
        r.2 == count_verdict(checks@, Verdict::Warn),
        r.3 == count_verdict(checks@, Verdict::Skip),
{
    let (mut p, mut f, mut w, mut s) = (0usize, 0usize, 0usize, 0usize);
    let mut i: usize = 0;
    while i < checks.len()
        invariant
            0 <= i <= checks@.len(),
            p == count_verdict(checks@.subrange(0, i as int), Verdict::Pass),
            f == count_verdict(checks@.subrange(0, i as int), Verdict::Fail),
            w == count_verdict(checks@.subrange(0, i as int), Verdict::Warn),
            s == count_verdict(checks@.subrange(0, i as int), Verdict::Skip),
        decreases checks@.len() - i,
    {
        proof {
            let t = checks@.subrange(0, i as int + 1);
            assert(t.drop_last() =~= checks@.subrange(0, i as int));
            lemma_counts_sum(checks@.subrange(0, i as int));
        }
        match checks[i].verdict {
            Verdict::Pass => p = p + 1,
            Verdict::Fail => f = f + 1,
            Verdict::Warn => w = w + 1,
            Verdict::Skip => s = s + 1,
        }
        i = i + 1;
    }
    assert(checks@.subrange(0, checks@.len() as int) =~= checks@);
    (p, f, w, s)
}

/// The overall verdict of a slice of checks (see `overall_of`).
pub fn overall_verdict_of(checks: &[CheckResult]) -> (v: Verdict)
    ensures
        v == overall_of(checks@),
{
    let (p, f, w, _s) = verdict_counts_of(checks);
    if f > 0 {
        Verdict::Fail
    } else if w > 0 {
        Verdict::Warn
    } else if p > 0 {
        Verdict::Pass
    } else {
        Verdict::Skip
    }
}

impl Report {
    /// `(pass, fail, warn, skip)` counts of this report's checks.
    pub fn verdict_counts(&self) -> (r: (usize, usize, usize, usize))
        ensures
            (r.0 as nat, r.1 as nat, r.2 as nat, r.3 as nat) == counts_of(self.checks@),
    {
        verdict_counts_of(self.checks.as_slice())
    }

    /// The overall verdict of this report.
    pub fn overall_verdict(&self) -> (v: Verdict)
        ensures
            v == overall_of(self.checks@),
    {
        overall_verdict_of(self.checks.as_slice())
    }
}

impl Report {
    /// A finished report holding the one check `check`, as the CLI's
    /// single-check subcommands build it: subject, version and producer
    /// as given, started and finished at the given instants.
    pub fn of_check(
        subject: &str,
        subject_version: &str,
        producer: &str,
        check: CheckResult,
        started_at: Timestamp,
        finished_at: Timestamp,
    ) -> (r: Report)
        ensures
            r.subject@ == subject@,
            r.subject_version@ == subject_version@,
            r.producer matches Some(p) && p@ == producer@,
            r.started_at == started_at,
            r.finished_at == Some(finished_at),
            r.checks@ == seq![check],
    {
        let checks = vec![check];
        Report {
            subject: subject.to_string(),
            subject_version: subject_version.to_string(),
            producer: Some(producer.to_string()),
            started_at,
            finished_at: Some(finished_at),
            checks,
        }
    }
}

impl MultiReport {
    /// A finished aggregate of `reports`, in order, for `subject` at
    /// `subject_version`, started and finished at the given instants.
    pub fn of_reports(
        subject: &str,
        subject_version: &str,
        reports: Vec<Report>,
        started_at: Timestamp,
        finished_at: Timestamp,
    ) -> (m: MultiReport)
        ensures
            m.subject@ == subject@,
            m.subject_version@ == subject_version@,
            m.started_at == started_at,
            m.finished_at == Some(finished_at),
            m.reports@ == reports@,
    {
        MultiReport {
            subject: subject.to_string(),
            subject_version: subject_version.to_string(),
            started_at,
            finished_at: Some(finished_at),
            reports,
        }
    }
}

impl MultiReport {
    /// The checks of all reports fit a `usize` count.
    pub open spec fn counts_fit(self) -> bool {
        all_checks(self.reports@).len() <= usize::MAX
    }

    /// Whether the checks of all reports fit a `usize` count (see
    /// `counts_fit`).
    pub fn check_counts_fit(&self) -> (b: bool)
        ensures
            b == self.counts_fit(),
    {
        let mut n: usize = 0;
        let mut i: usize = 0;
        while i < self.reports.len()
            invariant
                0 <= i <= self.reports@.len(),
                n == all_checks(self.reports@.subrange(0, i as int)).len(),
            decreases self.reports@.len() - i,
        {
            assert(self.reports@.subrange(0, i as int + 1).drop_last() =~= self.reports@.subrange(
                0,
                i as int,
            ));
            let k = self.reports[i].checks.len();
            if n > usize::MAX - k {
                proof {
                    lemma_all_checks_prefix_len(self.reports@, i as int + 1);
                }
                return false;
            }
            n = n + k;
            i = i + 1;
        }
        assert(self.reports@.subrange(0, self.reports@.len() as int) =~= self.reports@);
        true
    }

    /// `(pass, fail, warn, skip)` counts over every check of every report.
    pub fn verdict_counts(&self) -> (r: (usize, usize, usize, usize))
        requires
            self.counts_fit(),
        ensures
            (r.0 as nat, r.1 as nat, r.2 as nat, r.3 as nat) == counts_of(all_checks(self.reports@)),
    {
        let (mut p, mut f, mut w, mut s) = (0usize, 0usize, 0usize, 0usize);
        let mut i: usize = 0;
        while i < self.reports.len()
            invariant
                0 <= i <= self.reports@.len(),
                all_checks(self.reports@).len() <= usize::MAX,
                (p as nat, f as nat, w as nat, s as nat)
                    == counts_of(all_checks(self.reports@.subrange(0, i as int))),
            decreases self.reports@.len() - i,
        {
            let (p1, f1, w1, s1) = self.reports[i].verdict_counts();
            proof {
                let pre = self.reports@.subrange(0, i as int);
                let nxt = self.reports@.subrange(0, i as int + 1);
                assert(nxt.drop_last() =~= pre);
                let c = self.reports@[i as int].checks@;
                assert(all_checks(nxt) == all_checks(pre) + c);
                lemma_count_verdict_add(all_checks(pre), c, Verdict::Pass);
                lemma_count_verdict_add(all_checks(pre), c, Verdict::Fail);
                lemma_count_verdict_add(all_checks(pre), c, Verdict::Warn);
                lemma_count_verdict_add(all_checks(pre), c, Verdict::Skip);
                lemma_counts_sum(all_checks(nxt));
                lemma_all_checks_prefix_len(self.reports@, i as int + 1);
            }
            p = p + p1;
            f = f + f1;
            w = w + w1;
            s = s + s1;
            i = i + 1;
        }
        assert(self.reports@.subrange(0, self.reports@.len() as int) =~= self.reports@);
        (p, f, w, s)
    }

    /// The overall verdict over every check of every report.
    pub fn overall_verdict(&self) -> (v: Verdict)
        requires
            self.counts_fit(),
        ensures
            v == overall_of(all_checks(self.reports@)),
    {
        let (p, f, w, _s) = self.verdict_counts();
        if f > 0 {
            Verdict::Fail
        } else if w > 0 {
            Verdict::Warn
        } else if p > 0 {
            Verdict::Pass
        } else {
            Verdict::Skip
        }
    }
}

/// The checks of a prefix of the reports are no more than those of all of them.
pub proof fn lemma_all_checks_prefix_len(reports: Seq<Report>, k: int)
    requires
        0 <= k <= reports.len(),
    ensures
        all_checks(reports.subrange(0, k)).len() <= all_checks(reports).len(),
    decreases reports.len() - k,
{
    if k < reports.len() {
        let a = reports.subrange(0, k);
        let b = reports.subrange(0, k + 1);
        assert(b.drop_last() =~= a);
        lemma_all_checks_prefix_len(reports, k + 1);
    } else {
        assert(reports.subrange(0, k) =~= reports);
    }
}


/// The RFC 3339 text of an instant, as `chrono` writes it for UTC
/// (`DateTime::to_rfc3339`).
pub uninterp spec fn rfc3339_text(secs: i64, nanos: u32) -> Seq<char>;

/// RFC 3339 text of `ts` (`chrono::DateTime::<Utc>::to_rfc3339` on the
/// instant `DateTime::from_timestamp(secs, nanos)`); the text is named, not
/// described.
#[verifier::external_body]
pub(crate) fn to_rfc3339(ts: &Timestamp) -> (r: String)
    requires
        ts.wf(),
    ensures
        r@ == rfc3339_text(ts.secs, ts.nanos),
{
    chrono::DateTime::from_timestamp(ts.secs, ts.nanos).unwrap().to_rfc3339()
}


/// `ns` nanoseconds in whole milliseconds, truncated toward zero.
pub open spec fn trunc_millis(ns: int) -> int {
    if ns >= 0 {
        ns / 1_000_000
    } else {
        -((-ns) / 1_000_000)
    }
}

/// Milliseconds from one instant to another, as `chrono` counts them
/// (`TimeDelta::num_milliseconds` of their difference).
pub uninterp spec fn elapsed_millis(start_secs: i64, start_nanos: u32, end_secs: i64, end_nanos: u32) -> i64;

/// Milliseconds from `start` to `end`
/// (`(end - start).num_milliseconds()` on `chrono::DateTime<Utc>` values made by
/// `DateTime::from_timestamp`): the difference truncated toward zero when
/// neither instant is a leap second; a leap second's offset is `chrono`'s.
#[verifier::external_body]
pub(crate) fn elapsed_ms(start: &Timestamp, end: &Timestamp) -> (r: i64)
    requires
        start.wf(),
        end.wf(),
    ensures
        r == elapsed_millis(start.secs, start.nanos, end.secs, end.nanos),
        start.nanos < 1_000_000_000 && end.nanos < 1_000_000_000 ==> r as int == trunc_millis(
            (end.secs - start.secs) * 1_000_000_000 + (end.nanos - start.nanos),
        ),
{
    let s = chrono::DateTime::from_timestamp(start.secs, start.nanos).unwrap();
    let e = chrono::DateTime::from_timestamp(end.secs, end.nanos).unwrap();
    (e - s).num_milliseconds()
}

} // verus!
