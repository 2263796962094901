//! Producers driven by `cargo` subcommands: what each producer runs, and
//! how the captured output of `cargo test`, `cargo clippy` and
//! `cargo check` becomes check results.
//!
//! Running the subprocess and decoding its JSON lines is the caller's part;
//! everything decided from the captured text is here.

use std::path::PathBuf;
use vstd::prelude::*;

use crate::model::{
    CheckResult, Evidence, EvidenceData, FileRef, Report, Severity, Timestamp, Verdict,
    lemma_count_verdict_pos, overall_of,
};
use crate::text::{
    chars_eq_str, chars_of, chars_within, copy_range, first_line, first_word,
    first_word_of, has_prefix, is_ws, last_occurrence, last_occurrence_below, occurs_at, lemma_chars_within, lemma_utf8_len_add, lines,
    prefix_within_bytes, push_char, push_signed_decimal, push_str, rfind, signed_decimal,
    split_lines, starts_with, string_of, trim, trim_chars, trim_start, first_ws, utf8_len, utf8_len_of,
};

verus! {

#[verifier::external_type_specification]
#[verifier::external_body]
pub struct ExPathBuf(PathBuf);

/// What running `cargo` gave back.
#[derive(Clone, Debug)]
pub enum CargoRun {
    /// The subprocess ran; its standard output and error, decoded, and
    /// its exit status.
    Captured {
        /// Standard output.
        stdout: String,
        /// Standard error.
        stderr: String,
        /// Exit status; `None` when a signal ended the process.
        exit_code: Option<i32>,
    },
    /// The subprocess could not be spawned; the error's message.
    SpawnFailed {
        /// Display text of the spawn error.
        error: String,
    },
}

/// A check named `name` with `verdict` and `severity`, and no other data.
fn new_check(name: String, verdict: Verdict, severity: Option<Severity>) -> (c: CheckResult)
    ensures
        c.name == name,
        c.verdict == verdict,
        c.severity == severity,
        c.detail is None,
        c.duration_ms is None,
        c.evidence@.len() == 0,
{
    CheckResult {
        name,
        verdict,
        severity,
        detail: None,
        duration_ms: None,
        evidence: Vec::new(),
    }
}

// ---------------------------------------------------------------------------
// cargo test
// ---------------------------------------------------------------------------

/// The test name and verdict that one line of libtest output reports, if any:
/// `test <name> ... <outcome>`, split at the last ` ... `, with outcome
/// `ok` (pass), `FAILED` (fail) or `ignored` (skip) as its first word.
pub open spec fn test_line_outcome(line: Seq<char>) -> Option<(Seq<char>, Verdict)> {
    if !has_prefix(line, "test "@) {
        None
    } else {
        let rest = line.subrange("test "@.len() as int, line.len() as int);
        let k = last_occurrence(rest, " ... "@);
        if k < 0 {
            None
        } else {
            let name = rest.subrange(0, k);
            let word = first_word(rest.subrange(k + " ... "@.len(), rest.len() as int));
            if word == "ok"@ {
                Some((name, Verdict::Pass))
            } else if word == "FAILED"@ {
                Some((name, Verdict::Fail))
            } else if word == "ignored"@ {
                Some((name, Verdict::Skip))
            } else {
                None
            }
        }
    }
}

/// The last occurrence below `k` is `j` when `p` occurs at `j` and at no
/// later index below `k`.
proof fn lemma_last_occurrence_below_is(s: Seq<char>, p: Seq<char>, k: int, j: int)
    requires
        0 <= j < k,
        occurs_at(s, p, j),
        forall|i: int| j < i < k ==> !#[trigger] occurs_at(s, p, i),
    ensures
        last_occurrence_below(s, p, k) == j,
    decreases k,
{
    if k - 1 > j {
        lemma_last_occurrence_below_is(s, p, k - 1, j);
    }
}

/// `first_ws` is an index into `s` or its end.
proof fn lemma_first_ws_le(s: Seq<char>)
    ensures
        first_ws(s) <= s.len(),
    decreases s.len(),
{
    if s.len() > 0 {
        lemma_first_ws_le(s.drop_first());
    }
}

/// A text starting with `.` does not have `ok`, `FAILED` or `ignored` as
/// its first word.
proof fn lemma_dot_word(o: Seq<char>)
    requires
        o.len() > 0,
        o[0] == '.',
    ensures
        first_word(o) != "ok"@,
        first_word(o) != "FAILED"@,
        first_word(o) != "ignored"@,
{
    reveal_strlit("ok");
    reveal_strlit("FAILED");
    reveal_strlit("ignored");
    assert(!is_ws(o[0]));
    assert(trim_start(o) == o);
    assert(first_ws(o) >= 1);
    lemma_first_ws_le(o);
    assert(first_word(o) == o.subrange(0, first_ws(o) as int));
    assert(first_word(o).len() > 0);
    assert(first_word(o)[0] == '.');
}

/// In `n + " ... " + o`, with `o` holding no ` ... ` and not starting
/// with `.`, the separator occurs nowhere after `n`.
proof fn lemma_no_later_separator(n: Seq<char>, o: Seq<char>)
    requires
        forall|i: int| !#[trigger] occurs_at(o, " ... "@, i),
        o.len() > 0 ==> o[0] != '.',
    ensures
        forall|i: int|
            n.len() < i < (n + " ... "@ + o).len() - " ... "@.len() + 1 ==> !#[trigger] occurs_at(
                n + " ... "@ + o,
                " ... "@,
                i,
            ),
{
    reveal_strlit(" ... ");
    let sep = " ... "@;
    let rest = n + sep + o;
    let j = n.len() as int;
    assert forall|i: int| j < i < rest.len() - sep.len() + 1 implies !#[trigger] occurs_at(rest, sep, i) by {
        if occurs_at(rest, sep, i) {
            let w = rest.subrange(i, i + 5);
            assert(w[0] == sep[0]);
            assert(w[1] == sep[1]);
            if i <= j + 3 {
                assert(rest[i] == sep[i - j]);
            } else if i == j + 4 {
                assert(rest[i + 1] == o[0]);
            } else {
                assert(o.subrange(i - j - 5, i - j) =~= w);
                assert(occurs_at(o, sep, i - j - 5));
            }
        }
    }
}

/// Every libtest line `test <name> ... <outcome>` whose outcome holds no
/// further ` ... ` and starts with `ok`, `FAILED` or `ignored` reports the
/// test named by the whole text between `test ` and ` ... `, spaces
/// included, as passing, failing or skipped respectively.
#[verifier::spinoff_prover]
pub proof fn law_test_line_name(n: Seq<char>, o: Seq<char>)
    requires
        forall|i: int| !#[trigger] occurs_at(o, " ... "@, i),
    ensures
        first_word(o) == "ok"@ ==> test_line_outcome("test "@ + n + " ... "@ + o) == Some((n, Verdict::Pass)),
        first_word(o) == "FAILED"@ ==> test_line_outcome("test "@ + n + " ... "@ + o) == Some(
            (n, Verdict::Fail),
        ),
        first_word(o) == "ignored"@ ==> test_line_outcome("test "@ + n + " ... "@ + o) == Some(
            (n, Verdict::Skip),
        ),
{
    reveal_strlit("test ");
    reveal_strlit(" ... ");
    reveal_strlit("ok");
    reveal_strlit("FAILED");
    reveal_strlit("ignored");
    if first_word(o) == "ok"@ || first_word(o) == "FAILED"@ || first_word(o) == "ignored"@ {
        if o.len() > 0 && o[0] == '.' {
            lemma_dot_word(o);
        }
        let sep = " ... "@;
        let line = "test "@ + n + sep + o;
        assert(line.subrange(0, 5) =~= "test "@);
        assert(has_prefix(line, "test "@));
        let rest = line.subrange(5, line.len() as int);
        assert(rest =~= n + sep + o);
        let j = n.len() as int;
        assert(rest.subrange(j, j + 5) =~= sep);
        assert(occurs_at(rest, sep, j));
        let kk = rest.len() - sep.len() + 1;
        lemma_no_later_separator(n, o);
        lemma_last_occurrence_below_is(rest, sep, kk, j);
        assert(rest.subrange(0, j) =~= n);
        assert(rest.subrange(j + 5, rest.len() as int) =~= o);
        assert("ok"@.len() == 2 && "FAILED"@.len() == 6 && "ignored"@.len() == 7);
        assert(test_line_outcome(line) == (if first_word(o) == "ok"@ {
            Some((n, Verdict::Pass))
        } else if first_word(o) == "FAILED"@ {
            Some((n, Verdict::Fail))
        } else {
            Some((n, Verdict::Skip))
        }));
    }
}

/// The outcomes reported by a sequence of lines, in order.
pub open spec fn test_outcomes(ls: Seq<Seq<char>>) -> Seq<(Seq<char>, Verdict)>
    decreases ls.len(),
{
    if ls.len() == 0 {
        Seq::empty()
    } else {
        let prev = test_outcomes(ls.drop_last());
        match test_line_outcome(ls.last()) {
            Some(o) => prev.push(o),
            None => prev,
        }
    }
}

/// `c` is the check for the test outcome `o`: a failure has severity `Error`,
/// and no detail, duration or evidence is attached.
pub open spec fn is_test_check(c: CheckResult, o: (Seq<char>, Verdict)) -> bool {
    &&& c.name@ == o.0
    &&& c.verdict == o.1
    &&& c.severity == (if o.1 == Verdict::Fail { Some(Severity::Error) } else { None::<Severity> })
    &&& c.detail is None
    &&& c.duration_ms is None
    &&& c.evidence@.len() == 0
}

/// The outcome one line reports (see `test_line_outcome`).
pub fn parse_test_line(
    line: &[char],
    prefix: &[char],
    sep: &[char],
) -> (r: Option<CheckResult>)
    requires
        prefix@ == "test "@,
        sep@ == " ... "@,
    ensures
        match test_line_outcome(line@) {
            Some(o) => r matches Some(c) && is_test_check(c, o),
            None => r is None,
        },
{
    if !starts_with(line, prefix) {
        return None;
    }
    let rest = copy_range(line, prefix.len(), line.len());
    let k = match rfind(rest.as_slice(), sep) {
        Some(k) => k,
        None => return None,
    };
    let name = copy_range(rest.as_slice(), 0, k);
    let outcome = copy_range(rest.as_slice(), k + sep.len(), rest.len());
    let word = first_word_of(outcome.as_slice());
    let name_s = string_of(name.as_slice());
    if chars_eq_str(word.as_slice(), "ok") {
        Some(new_check(name_s, Verdict::Pass, None))
    } else if chars_eq_str(word.as_slice(), "FAILED") {
        Some(new_check(name_s, Verdict::Fail, Some(Severity::Error)))
    } else if chars_eq_str(word.as_slice(), "ignored") {
        Some(new_check(name_s, Verdict::Skip, None))
    } else {
        None
    }
}

/// One check per test that libtest's human-readable output reports, in
/// the order of the lines.
pub fn parse_cargo_test_output(text: &str) -> (r: Vec<CheckResult>)
    ensures
        r@.len() == test_outcomes(lines(text@)).len(),
        forall|i: int|
            0 <= i < r@.len() ==> #[trigger] is_test_check(r@[i], test_outcomes(lines(text@))[i]),
{
    let cs = chars_of(text);
    let ls = split_lines(cs.as_slice());
    let prefix = chars_of("test ");
    let sep = chars_of(" ... ");
    let ghost all = lines(text@);
    let mut results: Vec<CheckResult> = Vec::new();
    let mut i: usize = 0;
    while i < ls.len()
        invariant
            0 <= i <= ls@.len() == all.len(),
            all == lines(text@),
            prefix@ == "test "@,
            sep@ == " ... "@,
            forall|k: int| 0 <= k < ls@.len() ==> #[trigger] ls@[k]@ == all[k],
            results@.len() == test_outcomes(all.subrange(0, i as int)).len(),
            forall|k: int|
                0 <= k < results@.len() ==> #[trigger] is_test_check(
                    results@[k],
                    test_outcomes(all.subrange(0, i as int))[k],
                ),
        decreases ls@.len() - i,
    {
        let r = parse_test_line(ls[i].as_slice(), prefix.as_slice(), sep.as_slice());
        proof {
            assert(all.subrange(0, i as int + 1).drop_last() =~= all.subrange(0, i as int));
        }
        match r {
            Some(c) => {
                results.push(c);
            },
            None => {},
        }
        i = i + 1;
    }
    assert(all.subrange(0, all.len() as int) =~= all);
    results
}

// ---------------------------------------------------------------------------
// cargo --message-format=json diagnostics
// ---------------------------------------------------------------------------

/// One `cargo --message-format=json` line, as far as it is read.
#[derive(Clone, Debug)]
pub struct CargoMessage {
    /// The `reason` field.
    pub reason: String,
    /// The `message` field, for compiler messages.
    pub message: Option<CompilerMessage>,
}

/// A compiler diagnostic.
#[derive(Clone, Debug)]
pub struct CompilerMessage {
    /// Level: `warning`, `error`, `note`, ...
    pub level: String,
    /// The diagnostic's message.
    pub message: String,
    /// Source spans.
    pub spans: Vec<CompilerSpan>,
    /// The diagnostic code, if any.
    pub code: Option<DiagnosticCode>,
    /// The rendered diagnostic, if any.
    pub rendered: Option<String>,
}

/// A source span of a diagnostic.
#[derive(Clone, Debug)]
pub struct CompilerSpan {
    /// File of the span.
    pub file_name: String,
    /// First line.
    pub line_start: u32,
    /// Last line.
    pub line_end: u32,
    /// Whether this is the primary span.
    pub is_primary: bool,
}

/// A diagnostic code such as `E0412`.
#[derive(Clone, Debug)]
pub struct DiagnosticCode {
    /// The code.
    pub code: String,
}

/// The verdict and severity a diagnostic level maps to: `warning` to
/// warn/`Warning`; `error` and `error: internal compiler error` to
/// fail/`Error`; any other level to none.
pub open spec fn level_kind(level: Seq<char>) -> Option<(Verdict, Severity)> {
    if level == "warning"@ {
        Some((Verdict::Warn, Severity::Warning))
    } else if level == "error"@ || level == "error: internal compiler error"@ {
        Some((Verdict::Fail, Severity::Error))
    } else {
        None
    }
}

/// The first line of a diagnostic message (or `diagnostic` when it has
/// none), trimmed.
pub open spec fn short_name_line(msg: Seq<char>) -> Seq<char> {
    let ls = lines(msg);
    trim(if ls.len() > 0 { ls[0] } else { "diagnostic"@ })
}

/// The name of a diagnostic without code: its first line, trimmed; when
/// longer than 80 bytes, its longest prefix of at most 77 bytes that ends
/// on a character boundary, followed by `...`.
pub open spec fn short_name(msg: Seq<char>) -> Seq<char> {
    let fl = short_name_line(msg);
    if utf8_len(fl) <= 80 {
        fl
    } else {
        fl.take(chars_within(fl, 77) as int) + "..."@
    }
}

/// The name of a diagnostic without code never exceeds 80 bytes; a first
/// line over 80 bytes is cut after its longest prefix of at most 77 bytes
/// (so always on a character boundary) and marked with `...`.
pub proof fn law_short_name_bounded(msg: Seq<char>)
    ensures
        utf8_len(short_name(msg)) <= 80,
        utf8_len(short_name_line(msg)) <= 80 ==> short_name(msg) == short_name_line(msg),
        utf8_len(short_name_line(msg)) > 80 ==> {
            let fl = short_name_line(msg);
            let k = chars_within(fl, 77) as int;
            &&& k < fl.len()
            &&& short_name(msg) == fl.take(k) + "..."@
            &&& utf8_len(fl.take(k)) <= 77
            &&& utf8_len(fl.take(k + 1)) > 77
        },
{
    let fl = short_name_line(msg);
    lemma_chars_within(fl, 77);
    if utf8_len(fl) > 80 {
        assert(fl.take(fl.len() as int) =~= fl);
        reveal_strlit("...");
        let head = fl.take(chars_within(fl, 77) as int);
        lemma_chars_within(fl, 77);
        lemma_utf8_len_add(head, "..."@);
        let d = "..."@;
        assert(d.drop_last().drop_last().drop_last() =~= Seq::<char>::empty());
        assert(utf8_len(Seq::<char>::empty()) == 0);
        assert(utf8_len(d.drop_last().drop_last()) == 1);
        assert(utf8_len(d.drop_last()) == 2);
        assert(utf8_len(d) == 3);
    }
}

/// A short, stable name for a diagnostic that has no code.
pub fn short_name_from_message(msg: &str) -> (r: String)
    ensures
        r@ == short_name(msg@),
{
    let cs = chars_of(msg);
    let line = match first_line(cs.as_slice()) {
        Some(l) => l,
        None => chars_of("diagnostic"),
    };
    let fl = trim_chars(line.as_slice());
    let n = utf8_len_of(fl.as_slice());
    if n <= 80 {
        string_of(fl.as_slice())
    } else {
        let head = prefix_within_bytes(fl.as_slice(), 77);
        let mut r = string_of(head.as_slice());
        push_str(&mut r, "...");
        r
    }
}

/// Index of the primary span: the first with `is_primary`, else the first
/// span, else `-1`.
pub open spec fn primary_span_index(spans: Seq<CompilerSpan>) -> int {
    let k = first_primary(spans);
    if k < spans.len() {
        k as int
    } else if spans.len() > 0 {
        0
    } else {
        -1
    }
}

/// Index of the first span with `is_primary`, or `spans.len()`.
pub open spec fn first_primary(spans: Seq<CompilerSpan>) -> nat
    decreases spans.len(),
{
    if spans.len() == 0 {
        0
    } else if spans[0].is_primary {
        0
    } else {
        1 + first_primary(spans.drop_first())
    }
}

/// `first_primary` finds the first primary span.
pub proof fn lemma_first_primary(spans: Seq<CompilerSpan>, k: int)
    requires
        0 <= k <= spans.len(),
        forall|i: int| 0 <= i < k ==> !spans[i].is_primary,
        k == spans.len() || spans[k].is_primary,
    ensures
        first_primary(spans) == k,
    decreases k,
{
    if k > 0 {
        lemma_first_primary(spans.drop_first(), k - 1);
    }
}

/// `e` is the `site` evidence for `span`: a file reference with its line range.
pub open spec fn is_site_evidence(e: Evidence, span: CompilerSpan) -> bool {
    &&& e.label@ == "site"@
    &&& match e.data {
        EvidenceData::FileRef(f) => {
            &&& f.path@ == span.file_name@
            &&& f.line_start == Some(span.line_start)
            &&& f.line_end == Some(span.line_end)
        },
        _ => false,
    }
}

/// `e` is the `rendered` evidence holding `text` as a snippet.
pub open spec fn is_rendered_evidence(e: Evidence, text: Seq<char>) -> bool {
    &&& e.label@ == "rendered"@
    &&& match e.data {
        EvidenceData::Snippet(s) => s@ == text,
        _ => false,
    }
}

/// The name of the check for diagnostic `m`: its code, else its short name.
pub open spec fn diagnostic_name(m: CompilerMessage) -> Seq<char> {
    match m.code {
        Some(c) => c.code@,
        None => short_name(m.message@),
    }
}

/// `c` is the check for diagnostic `m` of kind `kind`: named by
/// `diagnostic_name`, with the message as detail, then the primary span's
/// `site` evidence (when there is a span) and the `rendered` evidence
/// (when the diagnostic is rendered), in that order.
pub open spec fn is_diagnostic_check(c: CheckResult, m: CompilerMessage, kind: (Verdict, Severity)) -> bool {
    let ev = c.evidence@;
    let n_site: int = if m.spans@.len() > 0 { 1 } else { 0 };
    let n_rendered: int = if m.rendered is Some { 1 } else { 0 };
    &&& c.name@ == diagnostic_name(m)
    &&& c.verdict == kind.0
    &&& c.severity == Some(kind.1)
    &&& (c.detail matches Some(d) && d@ == m.message@)
    &&& c.duration_ms is None
    &&& ev.len() == n_site + n_rendered
    &&& (m.spans@.len() > 0 ==> is_site_evidence(ev[0], m.spans@[primary_span_index(m.spans@)]))
    &&& (m.rendered matches Some(r) ==> is_rendered_evidence(ev[n_site], r@))
}

/// The check a JSON message line maps to, if any: only `compiler-message`
/// lines with a message whose level maps to a verdict.
pub open spec fn message_kind(msg: CargoMessage) -> Option<(Verdict, Severity)> {
    if msg.reason@ != "compiler-message"@ {
        None
    } else {
        match msg.message {
            Some(m) => level_kind(m.level@),
            None => None,
        }
    }
}

/// Diagnostics keep their level: a warning becomes a warning check with
/// `Warning` severity and is never escalated, an error becomes a failing
/// check with `Error` severity, and no other verdict is produced.
pub proof fn law_diagnostic_levels_kept(msg: CargoMessage)
    ensures
        message_kind(msg) matches Some(k) ==> {
            &&& msg.message is Some
            &&& (k == (Verdict::Warn, Severity::Warning)) <==> (msg.message->0.level@ == "warning"@)
            &&& (k == (Verdict::Fail, Severity::Error)) <==> (msg.message->0.level@ != "warning"@)
        },
{
}

/// The kind a level maps to (see `level_kind`).
fn level_kind_of(level: &String) -> (r: Option<(Verdict, Severity)>)
    ensures
        r == level_kind(level@),
{
    let cs = chars_of(level.as_str());
    if chars_eq_str(cs.as_slice(), "warning") {
        Some((Verdict::Warn, Severity::Warning))
    } else if chars_eq_str(cs.as_slice(), "error") || chars_eq_str(
        cs.as_slice(),
        "error: internal compiler error",
    ) {
        Some((Verdict::Fail, Severity::Error))
    } else {
        None
    }
}

/// Index of the primary span (see `primary_span_index`).
fn primary_span_of(spans: &Vec<CompilerSpan>) -> (r: Option<usize>)
    ensures
        match r {
            Some(k) => primary_span_index(spans@) == k as int && k < spans@.len(),
            None => primary_span_index(spans@) == -1,
        },
{
    let mut i: usize = 0;
    while i < spans.len() && !spans[i].is_primary
        invariant
            0 <= i <= spans@.len(),
            forall|k: int| 0 <= k < i ==> !spans@[k].is_primary,
        decreases spans@.len() - i,
    {
        i = i + 1;
    }
    proof {
        lemma_first_primary(spans@, i as int);
    }
    if i < spans.len() {
        Some(i)
    } else if spans.len() > 0 {
        Some(0)
    } else {
        None
    }
}

/// The check one `cargo --message-format=json` message maps to, if any:
/// warnings become warn/`Warning`, errors fail/`Error`; the code (or short
/// name) names it, the message is its detail, the primary span and the
/// rendered text are its evidence.
pub fn check_from_cargo_message(msg: &CargoMessage) -> (r: Option<CheckResult>)
    ensures
        match message_kind(*msg) {
            Some(kind) => r matches Some(c) && msg.message matches Some(m) && is_diagnostic_check(
                c,
                m,
                kind,
            ),
            None => r is None,
        },
{
    let reason = chars_of(msg.reason.as_str());
    if !chars_eq_str(reason.as_slice(), "compiler-message") {
        return None;
    }
    let m = match &msg.message {
        Some(m) => m,
        None => return None,
    };
    let (verdict, severity) = match level_kind_of(&m.level) {
        Some(k) => k,
        None => return None,
    };
    let name = match &m.code {
        Some(c) => c.code.clone(),
        None => short_name_from_message(m.message.as_str()),
    };
    let mut check = new_check(name, verdict, Some(severity));
    check.detail = Some(m.message.clone());
    match primary_span_of(&m.spans) {
        Some(k) => {
            let span = &m.spans[k];
            check.evidence.push(
                Evidence {
                    label: "site".to_owned(),
                    data: EvidenceData::FileRef(
                        FileRef {
                            path: span.file_name.clone(),
                            line_start: Some(span.line_start),
                            line_end: Some(span.line_end),
                        },
                    ),
                },
            );
        },
        None => {},
    }
    match &m.rendered {
        Some(text) => {
            check.evidence.push(
                Evidence {
                    label: "rendered".to_owned(),
                    data: EvidenceData::Snippet(text.clone()),
                },
            );
        },
        None => {},
    }
    Some(check)
}

/// The checks the message lines map to, in order: one per line that maps
/// to a check (see `check_from_cargo_message`); unparsed lines are `None`.
pub open spec fn message_kinds(msgs: Seq<Option<CargoMessage>>) -> Seq<(CompilerMessage, (Verdict, Severity))>
    decreases msgs.len(),
{
    if msgs.len() == 0 {
        Seq::empty()
    } else {
        let prev = message_kinds(msgs.drop_last());
        match msgs.last() {
            Some(msg) => match message_kind(msg) {
                Some(kind) => prev.push((msg.message->0, kind)),
                None => prev,
            },
            None => prev,
        }
    }
}

/// The checks for a sequence of decoded message lines.
pub fn checks_from_messages(msgs: &Vec<Option<CargoMessage>>) -> (r: Vec<CheckResult>)
    ensures
        r@.len() == message_kinds(msgs@).len(),
        forall|i: int|
            0 <= i < r@.len() ==> #[trigger] is_diagnostic_check(
                r@[i],
                message_kinds(msgs@)[i].0,
                message_kinds(msgs@)[i].1,
            ),
{
    let mut results: Vec<CheckResult> = Vec::new();
    let mut i: usize = 0;
    while i < msgs.len()
        invariant
            0 <= i <= msgs@.len(),
            results@.len() == message_kinds(msgs@.subrange(0, i as int)).len(),
            forall|k: int|
                0 <= k < results@.len() ==> #[trigger] is_diagnostic_check(
                    results@[k],
                    message_kinds(msgs@.subrange(0, i as int))[k].0,
                    message_kinds(msgs@.subrange(0, i as int))[k].1,
                ),
        decreases msgs@.len() - i,
    {
        proof {
            assert(msgs@.subrange(0, i as int + 1).drop_last() =~= msgs@.subrange(0, i as int));
        }
        match &msgs[i] {
            Some(msg) => {
                match check_from_cargo_message(msg) {
                    Some(c) => {
                        results.push(c);
                    },
                    None => {},
                }
            },
            None => {},
        }
        i = i + 1;
    }
    assert(msgs@.subrange(0, msgs@.len() as int) =~= msgs@);
    results
}


// ---------------------------------------------------------------------------
// Subprocess outcomes and the producers
// ---------------------------------------------------------------------------

/// `c` is the check recorded when `cargo` could not be spawned:
/// `subprocess::spawn`, failing with severity `Critical`, detail
/// `failed to spawn cargo: <error>`.
pub open spec fn is_spawn_failure(c: CheckResult, error: Seq<char>) -> bool {
    &&& c.name@ == "subprocess::spawn"@
    &&& c.verdict == Verdict::Fail
    &&& c.severity == Some(Severity::Critical)
    &&& (c.detail matches Some(d) && d@ == "failed to spawn cargo: "@ + error)
    &&& c.duration_ms is None
    &&& c.evidence@.len() == 0
}

/// The check recorded when `cargo` could not be spawned.
pub fn spawn_failure_check(error: &str) -> (c: CheckResult)
    ensures
        is_spawn_failure(c, error@),
{
    let mut detail = String::new();
    push_str(&mut detail, "failed to spawn cargo: ");
    push_str(&mut detail, error);
    let mut c = new_check("subprocess::spawn".to_owned(), Verdict::Fail, Some(Severity::Critical));
    c.detail = Some(detail);
    c
}

/// The run ended with exit status 0.
pub open spec fn exited_ok(code: Option<i32>) -> bool {
    code == Some(0i32)
}

/// The detail of the check recorded for an unsuccessful exit.
pub open spec fn exit_detail(code: Option<i32>) -> Seq<char> {
    match code {
        Some(n) => "cargo exited with status "@ + signed_decimal(n as int),
        None => "cargo was terminated by a signal"@,
    }
}

/// `c` is the check recorded when `cargo` exits unsuccessfully:
/// `subprocess::exit`, failing with severity `Error`, its detail naming
/// the status.
pub open spec fn is_exit_failure(c: CheckResult, code: Option<i32>) -> bool {
    &&& c.name@ == "subprocess::exit"@
    &&& c.verdict == Verdict::Fail
    &&& c.severity == Some(Severity::Error)
    &&& (c.detail matches Some(d) && d@ == exit_detail(code))
    &&& c.duration_ms is None
    &&& c.evidence@.len() == 0
}

/// The check recorded when `cargo` exits unsuccessfully.
pub fn exit_failure_check(code: Option<i32>) -> (c: CheckResult)
    ensures
        is_exit_failure(c, code),
{
    let mut detail = String::new();
    match code {
        Some(n) => {
            push_str(&mut detail, "cargo exited with status ");
            push_signed_decimal(&mut detail, n as i64);
        },
        None => {
            push_str(&mut detail, "cargo was terminated by a signal");
        },
    }
    let mut c = new_check("subprocess::exit".to_owned(), Verdict::Fail, Some(Severity::Error));
    c.detail = Some(detail);
    c
}

/// Whether the run ended with exit status 0 (see `exited_ok`).
fn exited_ok_exec(code: Option<i32>) -> (b: bool)
    ensures
        b == exited_ok(code),
{
    match code {
        Some(n) => n == 0,
        None => false,
    }
}

/// `r` holds `n` checks, followed by the exit failure when the run did
/// not exit with status 0.
pub open spec fn ends_with_exit_check(r: Seq<CheckResult>, n: nat, code: Option<i32>) -> bool {
    &&& r.len() == n + (if exited_ok(code) { 0nat } else { 1nat })
    &&& (!exited_ok(code) ==> is_exit_failure(r[n as int], code))
}

/// A run that does not exit with status 0 fails: whatever the other
/// checks, the report's overall verdict is `Fail`.
pub proof fn law_unsuccessful_exit_fails(r: Seq<CheckResult>, n: nat, code: Option<i32>)
    requires
        ends_with_exit_check(r, n, code),
        !exited_ok(code),
    ensures
        overall_of(r) == Verdict::Fail,
{
    lemma_count_verdict_pos(r, n as int);
}

/// Standard output and standard error joined by a newline.
pub open spec fn combined_output(stdout: Seq<char>, stderr: Seq<char>) -> Seq<char> {
    stdout + seq!['\n'] + stderr
}

/// Standard output and standard error joined by a newline.
pub fn combine_output(stdout: &str, stderr: &str) -> (r: String)
    ensures
        r@ == combined_output(stdout@, stderr@),
{
    let mut r = String::new();
    push_str(&mut r, stdout);
    push_char(&mut r, '\n');
    push_str(&mut r, stderr);
    r
}

/// The checks of a `cargo test` run: the spawn failure; or one check per
/// test reported in standard output followed by standard error, then the
/// exit failure when `cargo` did not exit with status 0.
pub fn cargo_test_checks(run: &CargoRun) -> (r: Vec<CheckResult>)
    ensures
        match run {
            CargoRun::SpawnFailed { error } => r@.len() == 1 && is_spawn_failure(r@[0], error@),
            CargoRun::Captured { stdout, stderr, exit_code } => {
                let outcomes = test_outcomes(lines(combined_output(stdout@, stderr@)));
                &&& ends_with_exit_check(r@, outcomes.len(), *exit_code)
                &&& forall|i: int| 0 <= i < outcomes.len() ==> #[trigger] is_test_check(r@[i], outcomes[i])
            },
        },
{
    match run {
        CargoRun::SpawnFailed { error } => {
            let mut v = Vec::new();
            v.push(spawn_failure_check(error.as_str()));
            v
        },
        CargoRun::Captured { stdout, stderr, exit_code } => {
            let combined = combine_output(stdout.as_str(), stderr.as_str());
            let mut v = parse_cargo_test_output(combined.as_str());
            let ghost parsed = v@;
            if !exited_ok_exec(*exit_code) {
                v.push(exit_failure_check(*exit_code));
                assert(forall|i: int| 0 <= i < parsed.len() ==> v@[i] == parsed[i]);
            }
            v
        },
    }
}

/// The lines of a `--message-format=json` run's standard output, to be
/// decoded one by one.
pub fn message_lines(stdout: &str) -> (r: Vec<String>)
    ensures
        r@.len() == lines(stdout@).len(),
        forall|i: int| 0 <= i < r@.len() ==> #[trigger] r@[i]@ == lines(stdout@)[i],
{
    let cs = chars_of(stdout);
    let ls = split_lines(cs.as_slice());
    let mut r: Vec<String> = Vec::new();
    let mut i: usize = 0;
    while i < ls.len()
        invariant
            0 <= i <= ls@.len() == lines(stdout@).len(),
            forall|k: int| 0 <= k < ls@.len() ==> #[trigger] ls@[k]@ == lines(stdout@)[k],
            r@.len() == i,
            forall|k: int| 0 <= k < i ==> #[trigger] r@[k]@ == lines(stdout@)[k],
        decreases ls@.len() - i,
    {
        r.push(string_of(ls[i].as_slice()));
        i = i + 1;
    }
    r
}

/// `r` are the checks of a `--message-format=json` run: the spawn
/// failure; or the checks of `msgs`, the decoded lines of its standard
/// output, then the exit failure when `cargo` did not exit with status 0.
pub open spec fn is_diagnostic_run(r: Seq<CheckResult>, run: CargoRun, msgs: Seq<Option<CargoMessage>>) -> bool {
    match run {
        CargoRun::SpawnFailed { error } => r.len() == 1 && is_spawn_failure(r[0], error@),
        CargoRun::Captured { exit_code, .. } => {
            &&& ends_with_exit_check(r, message_kinds(msgs).len(), exit_code)
            &&& forall|i: int|
                0 <= i < message_kinds(msgs).len() ==> #[trigger] is_diagnostic_check(
                    r[i],
                    message_kinds(msgs)[i].0,
                    message_kinds(msgs)[i].1,
                )
        },
    }
}

/// The checks of a `--message-format=json` run: the spawn failure; or
/// the checks of `msgs`, the decoded lines of its standard output (see
/// `checks_from_messages`), then the exit failure when `cargo` did not exit
/// with status 0.
pub fn diagnostic_checks(run: &CargoRun, msgs: &Vec<Option<CargoMessage>>) -> (r: Vec<
    CheckResult,
>)
    ensures
        is_diagnostic_run(r@, *run, msgs@),
{
    match run {
        CargoRun::SpawnFailed { error } => {
            let mut v = Vec::new();
            v.push(spawn_failure_check(error.as_str()));
            v
        },
        CargoRun::Captured { exit_code, .. } => {
            let mut v = checks_from_messages(msgs);
            let ghost parsed = v@;
            if !exited_ok_exec(*exit_code) {
                v.push(exit_failure_check(*exit_code));
                assert(forall|i: int| 0 <= i < parsed.len() ==> v@[i] == parsed[i]);
            }
            v
        },
    }
}

/// `a` and `b` are the same evidence: equal labels and equal payloads.
pub open spec fn same_evidence(a: Evidence, b: Evidence) -> bool {
    &&& a.label@ == b.label@
    &&& match (a.data, b.data) {
        (EvidenceData::Snippet(x), EvidenceData::Snippet(y)) => x@ == y@,
        (EvidenceData::FileRef(f), EvidenceData::FileRef(g)) => {
            &&& f.path@ == g.path@
            &&& f.line_start == g.line_start
            &&& f.line_end == g.line_end
        },
        _ => false,
    }
}

/// `a` and `b` are the same check: equal names, verdicts, severities,
/// details, durations and evidence lists.
pub open spec fn same_check(a: CheckResult, b: CheckResult) -> bool {
    &&& a.name@ == b.name@
    &&& a.verdict == b.verdict
    &&& a.severity == b.severity
    &&& match (a.detail, b.detail) {
        (Some(x), Some(y)) => x@ == y@,
        (None, None) => true,
        _ => false,
    }
    &&& a.duration_ms == b.duration_ms
    &&& a.evidence@.len() == b.evidence@.len()
    &&& forall|j: int|
        0 <= j < a.evidence@.len() ==> #[trigger] same_evidence(a.evidence@[j], b.evidence@[j])
}

/// A diagnostic and its kind determine its check.
proof fn lemma_diagnostic_check_unique(
    a: CheckResult,
    b: CheckResult,
    m: CompilerMessage,
    kind: (Verdict, Severity),
)
    requires
        is_diagnostic_check(a, m, kind),
        is_diagnostic_check(b, m, kind),
    ensures
        same_check(a, b),
{
    let n_site: int = if m.spans@.len() > 0 { 1 } else { 0 };
    assert forall|j: int| 0 <= j < a.evidence@.len() implies #[trigger] same_evidence(
        a.evidence@[j],
        b.evidence@[j],
    ) by {
        if j < n_site {
            assert(j == 0);
        } else {
            assert(j == n_site);
        }
    }
}

/// `check` and `clippy` map a run alike: the checks that the two producers
/// report for the same captured output (or the same spawn failure) agree
/// one for one, in the same order; only the producer's name differs.
pub proof fn law_check_and_clippy_map_alike(
    check_report: Report,
    clippy_report: Report,
    subject: Seq<char>,
    version: Seq<char>,
    started_at: Timestamp,
    finished_at: Timestamp,
    run: CargoRun,
    msgs: Seq<Option<CargoMessage>>,
)
    requires
        is_run_report(
            check_report,
            subject,
            version,
            "cargo-check"@,
            started_at,
            finished_at,
            check_report.checks@,
        ),
        is_diagnostic_run(check_report.checks@, run, msgs),
        is_run_report(
            clippy_report,
            subject,
            version,
            "cargo-clippy"@,
            started_at,
            finished_at,
            clippy_report.checks@,
        ),
        is_diagnostic_run(clippy_report.checks@, run, msgs),
    ensures
        check_report.subject@ == clippy_report.subject@,
        check_report.subject_version@ == clippy_report.subject_version@,
        check_report.started_at == clippy_report.started_at,
        check_report.finished_at == clippy_report.finished_at,
        check_report.checks@.len() == clippy_report.checks@.len(),
        forall|i: int|
            0 <= i < check_report.checks@.len() ==> #[trigger] same_check(
                check_report.checks@[i],
                clippy_report.checks@[i],
            ),
{
    let a = check_report.checks@;
    let b = clippy_report.checks@;
    assert forall|i: int| 0 <= i < a.len() implies #[trigger] same_check(a[i], b[i]) by {
        match run {
            CargoRun::SpawnFailed { error } => {},
            CargoRun::Captured { exit_code, .. } => {
                let ks = message_kinds(msgs);
                if i < ks.len() {
                    lemma_diagnostic_check_unique(a[i], b[i], ks[i].0, ks[i].1);
                }
            },
        }
    }
}

/// The report a producer run makes: `subject`, `version` and `producer`,
/// the start and finish times, and `checks`.
pub open spec fn is_run_report(
    r: Report,
    subject: Seq<char>,
    version: Seq<char>,
    producer: Seq<char>,
    started_at: Timestamp,
    finished_at: Timestamp,
    checks: Seq<CheckResult>,
) -> bool {
    &&& r.subject@ == subject
    &&& r.subject_version@ == version
    &&& (r.producer matches Some(p) && p@ == producer)
    &&& r.started_at == started_at
    &&& r.finished_at == Some(finished_at)
    &&& r.checks@ == checks
}

/// Assembles the report of a producer run.
fn run_report(
    subject: &String,
    version: &String,
    producer: &str,
    started_at: Timestamp,
    finished_at: Timestamp,
    checks: Vec<CheckResult>,
) -> (r: Report)
    ensures
        is_run_report(r, subject@, version@, producer@, started_at, finished_at, checks@),
{
    Report {
        subject: subject.clone(),
        subject_version: version.clone(),
        producer: Some(producer.to_owned()),
        started_at,
        finished_at: Some(finished_at),
        checks,
    }
}

/// Producer that runs `cargo test --no-fail-fast` and reports one check per test.
#[derive(Clone, Debug)]
pub struct CargoTestProducer {
    subject: String,
    subject_version: String,
    workdir: Option<PathBuf>,
}

/// Producer that runs `cargo clippy --message-format=json` and reports one
/// check per diagnostic.
#[derive(Clone, Debug)]
pub struct ClippyProducer {
    subject: String,
    subject_version: String,
    workdir: Option<PathBuf>,
}

/// Producer that runs `cargo check --message-format=json` and reports one
/// check per diagnostic.
#[derive(Clone, Debug)]
pub struct CargoCheckProducer {
    subject: String,
    subject_version: String,
    workdir: Option<PathBuf>,
}

/// Builds a producer that runs `cargo test --no-fail-fast`.
pub fn cargo_test_producer(subject: &str, subject_version: &str) -> (p: CargoTestProducer)
    ensures
        p.subject()@ == subject@,
        p.subject_version()@ == subject_version@,
        p.workdir() is None,
{
    CargoTestProducer {
        subject: subject.to_owned(),
        subject_version: subject_version.to_owned(),
        workdir: None,
    }
}

/// Builds a producer that runs `cargo clippy --message-format=json`.
pub fn clippy_producer(subject: &str, subject_version: &str) -> (p: ClippyProducer)
    ensures
        p.subject()@ == subject@,
        p.subject_version()@ == subject_version@,
        p.workdir() is None,
{
    ClippyProducer {
        subject: subject.to_owned(),
        subject_version: subject_version.to_owned(),
        workdir: None,
    }
}

/// Builds a producer that runs `cargo check --message-format=json`.
pub fn cargo_check_producer(subject: &str, subject_version: &str) -> (p: CargoCheckProducer)
    ensures
        p.subject()@ == subject@,
        p.subject_version()@ == subject_version@,
        p.workdir() is None,
{
    CargoCheckProducer {
        subject: subject.to_owned(),
        subject_version: subject_version.to_owned(),
        workdir: None,
    }
}

/// The arguments of `cargo test --no-fail-fast`.
pub fn cargo_test_args() -> (r: Vec<&'static str>)
    ensures
        r@.len() == 2,
        r@[0]@ == "test"@,
        r@[1]@ == "--no-fail-fast"@,
{
    let mut v = Vec::new();
    v.push("test");
    v.push("--no-fail-fast");
    v
}

/// The arguments of `cargo <subcommand> --message-format=json`.
pub fn message_format_args(subcommand: &'static str) -> (r: Vec<&'static str>)
    ensures
        r@.len() == 2,
        r@[0]@ == subcommand@,
        r@[1]@ == "--message-format=json"@,
{
    let mut v = Vec::new();
    v.push(subcommand);
    v.push("--message-format=json");
    v
}

impl CargoTestProducer {
    /// The subject reported on.
    pub closed spec fn subject(self) -> String {
        self.subject
    }

    /// The subject's version.
    pub closed spec fn subject_version(self) -> String {
        self.subject_version
    }

    /// The working directory `cargo` runs in (`None`: the current one).
    pub closed spec fn workdir(self) -> Option<PathBuf> {
        self.workdir
    }

    /// The same producer, running `cargo` in `dir`.
    pub fn in_dir(self, dir: PathBuf) -> (p: Self)
        ensures
            p.subject() == self.subject(),
            p.subject_version() == self.subject_version(),
            p.workdir() == Some(dir),
    {
        CargoTestProducer { workdir: Some(dir), ..self }
    }

    /// The subject reported on.
    pub fn subject_name(&self) -> (r: &String)
        ensures
            r == self.subject(),
    {
        &self.subject
    }

    /// The subject's version.
    pub fn version(&self) -> (r: &String)
        ensures
            r == self.subject_version(),
    {
        &self.subject_version
    }

    /// The working directory.
    pub fn dir(&self) -> (r: &Option<PathBuf>)
        ensures
            r == self.workdir(),
    {
        &self.workdir
    }

    /// The report of a run: producer `cargo-test`, the checks of
    /// `cargo_test_checks`.
    pub fn report_from_run(&self, run: &CargoRun, started_at: Timestamp, finished_at: Timestamp) -> (r:
        Report)
        ensures
            is_run_report(
                r,
                self.subject()@,
                self.subject_version()@,
                "cargo-test"@,
                started_at,
                finished_at,
                r.checks@,
            ),
            match run {
                CargoRun::SpawnFailed { error } => r.checks@.len() == 1 && is_spawn_failure(
                    r.checks@[0],
                    error@,
                ),
                CargoRun::Captured { stdout, stderr, exit_code } => {
                    let outcomes = test_outcomes(lines(combined_output(stdout@, stderr@)));
                    &&& ends_with_exit_check(r.checks@, outcomes.len(), *exit_code)
                    &&& forall|i: int|
                        0 <= i < outcomes.len() ==> #[trigger] is_test_check(
                            r.checks@[i],
                            outcomes[i],
                        )
                },
            },
    {
        let checks = cargo_test_checks(run);
        run_report(&self.subject, &self.subject_version, "cargo-test", started_at, finished_at, checks)
    }
}

impl ClippyProducer {
    /// The subject reported on.
    pub closed spec fn subject(self) -> String {
        self.subject
    }

    /// The subject's version.
    pub closed spec fn subject_version(self) -> String {
        self.subject_version
    }

    /// The working directory `cargo` runs in (`None`: the current one).
    pub closed spec fn workdir(self) -> Option<PathBuf> {
        self.workdir
    }

    /// The same producer, running `cargo` in `dir`.
    pub fn in_dir(self, dir: PathBuf) -> (p: Self)
        ensures
            p.subject() == self.subject(),
            p.subject_version() == self.subject_version(),
            p.workdir() == Some(dir),
    {
        ClippyProducer { workdir: Some(dir), ..self }
    }

    /// The subject reported on.
    pub fn subject_name(&self) -> (r: &String)
        ensures
            r == self.subject(),
    {
        &self.subject
    }

    /// The subject's version.
    pub fn version(&self) -> (r: &String)
        ensures
            r == self.subject_version(),
    {
        &self.subject_version
    }

    /// The working directory.
    pub fn dir(&self) -> (r: &Option<PathBuf>)
        ensures
            r == self.workdir(),
    {
        &self.workdir
    }

    /// The report of a run: producer `cargo-clippy`, the checks of
    /// `diagnostic_checks`.
    pub fn report_from_run(
        &self,
        run: &CargoRun,
        msgs: &Vec<Option<CargoMessage>>,
        started_at: Timestamp,
        finished_at: Timestamp,
    ) -> (r: Report)
        ensures
            is_run_report(
                r,
                self.subject()@,
                self.subject_version()@,
                "cargo-clippy"@,
                started_at,
                finished_at,
                r.checks@,
            ),
            is_diagnostic_run(r.checks@, *run, msgs@),
    {
        let checks = diagnostic_checks(run, msgs);
        run_report(&self.subject, &self.subject_version, "cargo-clippy", started_at, finished_at, checks)
    }
}

impl CargoCheckProducer {
    /// The subject reported on.
    pub closed spec fn subject(self) -> String {
        self.subject
    }

    /// The subject's version.
    pub closed spec fn subject_version(self) -> String {
        self.subject_version
    }

    /// The working directory `cargo` runs in (`None`: the current one).
    pub closed spec fn workdir(self) -> Option<PathBuf> {
        self.workdir
    }

    /// The same producer, running `cargo` in `dir`.
    pub fn in_dir(self, dir: PathBuf) -> (p: Self)
        ensures
            p.subject() == self.subject(),
            p.subject_version() == self.subject_version(),
            p.workdir() == Some(dir),
    {
        CargoCheckProducer { workdir: Some(dir), ..self }
    }

    /// The subject reported on.
    pub fn subject_name(&self) -> (r: &String)
        ensures
            r == self.subject(),
    {
        &self.subject
    }

    /// The subject's version.
    pub fn version(&self) -> (r: &String)
        ensures
            r == self.subject_version(),
    {
        &self.subject_version
    }

    /// The working directory.
    pub fn dir(&self) -> (r: &Option<PathBuf>)
        ensures
            r == self.workdir(),
    {
        &self.workdir
    }

    /// The report of a run: producer `cargo-check`, the checks of
    /// `diagnostic_checks`.
    pub fn report_from_run(
        &self,
        run: &CargoRun,
        msgs: &Vec<Option<CargoMessage>>,
        started_at: Timestamp,
        finished_at: Timestamp,
    ) -> (r: Report)
        ensures
            is_run_report(
                r,
                self.subject()@,
                self.subject_version()@,
                "cargo-check"@,
                started_at,
                finished_at,
                r.checks@,
            ),
            is_diagnostic_run(r.checks@, *run, msgs@),
    {
        let checks = diagnostic_checks(run, msgs);
        run_report(&self.subject, &self.subject_version, "cargo-check", started_at, finished_at, checks)
    }
}

} // verus!
