//! Decisions and terminal rendering of the `dev` command-line tool:
//! output format and subject resolution, manifest reading, component
//! lookup, exit codes, the colored report renderers, and the argument
//! checks of the subcommands. Argument parsing and all I/O are the
//! binary's part.

use vstd::prelude::*;

use crate::model::{
    CheckResult, MultiReport, Report, Severity, Verdict, all_checks, count_verdict, counts_of,
    elapsed_millis, lemma_count_verdict_add, overall_of,
};
use crate::text::{
    chars_eq_str, chars_of, copy_range, decimal, first_line, has_prefix, is_whitespace, is_ws, lines,
    push_chars, push_decimal, push_repeat, push_signed_decimal, push_str, repeat_char,
    signed_decimal, split_lines, starts_with, string_of, trim, trim_bounds, trim_chars, trim_end,
    trim_start, utf8_len, utf8_len_of,
};

verus! {

// ---------------------------------------------------------------------------
// Output format
// ---------------------------------------------------------------------------

/// Wire format of rendered output.
#[derive(Clone, Copy, Debug, PartialEq, Eq, Structural)]
pub enum OutputFormat {
    /// Terminal-friendly rendering, colored on a terminal.
    Terminal,
    /// Pretty-printed JSON.
    Json,
    /// CommonMark markdown.
    Markdown,
    /// SARIF 2.1.0.
    Sarif,
    /// JUnit XML.
    Junit,
}

impl OutputFormat {
    /// The format used when none is asked for: JSON into a file, the
    /// terminal rendering otherwise.
    pub fn default_for_destination(is_file: bool) -> (f: OutputFormat)
        ensures
            f == (if is_file { OutputFormat::Json } else { OutputFormat::Terminal }),
    {
        if is_file {
            OutputFormat::Json
        } else {
            OutputFormat::Terminal
        }
    }

    /// The format to render in: the one asked for, else the default for the
    /// destination.
    pub fn resolve(asked: Option<OutputFormat>, is_file: bool) -> (f: OutputFormat)
        ensures
            f == match asked {
                Some(a) => a,
                None => if is_file { OutputFormat::Json } else { OutputFormat::Terminal },
            },
    {
        match asked {
            Some(a) => a,
            None => Self::default_for_destination(is_file),
        }
    }
}

/// Whether anything is rendered: not when quiet and writing to standard output.
pub fn renders_output(quiet: bool, has_out_file: bool) -> (b: bool)
    ensures
        b == !(quiet && !has_out_file),
{
    !(quiet && !has_out_file)
}

// ---------------------------------------------------------------------------
// Exit codes
// ---------------------------------------------------------------------------

/// Rank of a verdict, in the order `Fail > Warn > Pass > Skip`.
pub open spec fn rank(v: Verdict) -> nat {
    match v {
        Verdict::Fail => 3,
        Verdict::Warn => 2,
        Verdict::Pass => 1,
        Verdict::Skip => 0,
    }
}

/// The worse of two verdicts (the first on a tie).
pub open spec fn worst_spec(a: Verdict, b: Verdict) -> Verdict {
    if rank(a) >= rank(b) { a } else { b }
}

/// The worse of two verdicts, by `Fail > Warn > Pass > Skip`.
pub fn worst(a: Verdict, b: Verdict) -> (v: Verdict)
    ensures
        v == worst_spec(a, b),
{
    let ra: u8 = match a {
        Verdict::Fail => 3,
        Verdict::Warn => 2,
        Verdict::Pass => 1,
        Verdict::Skip => 0,
    };
    let rb: u8 = match b {
        Verdict::Fail => 3,
        Verdict::Warn => 2,
        Verdict::Pass => 1,
        Verdict::Skip => 0,
    };
    if ra >= rb {
        a
    } else {
        b
    }
}

/// Process exit code for a verdict, 0 for pass and skip, 1 for warn and fail.
pub open spec fn exit_code_spec(v: Verdict) -> u8 {
    match v {
        Verdict::Pass | Verdict::Skip => 0,
        Verdict::Warn | Verdict::Fail => 1,
    }
}

/// Process exit code for a verdict.
pub fn exit_for_verdict(v: Verdict) -> (c: u8)
    ensures
        c == exit_code_spec(v),
{
    match v {
        Verdict::Pass | Verdict::Skip => 0,
        Verdict::Warn => 1,
        Verdict::Fail => 1,
    }
}

/// The worst overall verdict of the reports, starting from `Skip`.
pub open spec fn worst_of_reports(rs: Seq<Report>) -> Verdict
    decreases rs.len(),
{
    if rs.len() == 0 {
        Verdict::Skip
    } else {
        worst_spec(worst_of_reports(rs.drop_last()), overall_of(rs.last().checks@))
    }
}

/// Process exit code for a multi-report: that of the worst report verdict.
pub fn exit_for_multi(m: &MultiReport) -> (c: u8)
    ensures
        c == exit_code_spec(worst_of_reports(m.reports@)),
{
    let mut overall = Verdict::Skip;
    let mut i: usize = 0;
    while i < m.reports.len()
        invariant
            0 <= i <= m.reports@.len(),
            overall == worst_of_reports(m.reports@.subrange(0, i as int)),
        decreases m.reports@.len() - i,
    {
        assert(m.reports@.subrange(0, i as int + 1).drop_last() =~= m.reports@.subrange(0, i as int));
        let v = m.reports[i].overall_verdict();
        overall = worst(overall, v);
        i = i + 1;
    }
    assert(m.reports@.subrange(0, m.reports@.len() as int) =~= m.reports@);
    exit_for_verdict(overall)
}

/// The worst verdict of the checks, folding `worst` from `Skip`.
pub open spec fn worst_of_checks(cs: Seq<CheckResult>) -> Verdict
    decreases cs.len(),
{
    if cs.len() == 0 {
        Verdict::Skip
    } else {
        worst_spec(worst_of_checks(cs.drop_last()), cs.last().verdict)
    }
}

/// `worst` orders the verdicts `Fail > Warn > Pass > Skip`: it is
/// commutative, associative and idempotent, with `Skip` as its unit and
/// `Fail` absorbing.
pub proof fn law_worst_order(a: Verdict, b: Verdict, c: Verdict)
    ensures
        worst_spec(a, b) == worst_spec(b, a),
        worst_spec(worst_spec(a, b), c) == worst_spec(a, worst_spec(b, c)),
        worst_spec(a, a) == a,
        worst_spec(a, Verdict::Skip) == a,
        worst_spec(a, Verdict::Fail) == Verdict::Fail,
        worst_spec(a, b) == a || worst_spec(a, b) == b,
{
}

/// The overall verdict of checks put together is the worse of the
/// overall verdicts of the parts.
pub proof fn law_overall_concat(a: Seq<CheckResult>, b: Seq<CheckResult>)
    ensures
        overall_of(a + b) == worst_spec(overall_of(a), overall_of(b)),
{
    lemma_count_verdict_add(a, b, Verdict::Fail);
    lemma_count_verdict_add(a, b, Verdict::Warn);
    lemma_count_verdict_add(a, b, Verdict::Pass);
}

/// The overall verdict of a report follows the precedence
/// `Fail > Warn > Pass > Skip`: it is the worst verdict among its checks,
/// and `Skip` for no check.
pub proof fn law_overall_is_worst_check(cs: Seq<CheckResult>)
    ensures
        overall_of(cs) == worst_of_checks(cs),
    decreases cs.len(),
{
    if cs.len() > 0 {
        let pre = cs.drop_last();
        let one = seq![cs.last()];
        law_overall_is_worst_check(pre);
        assert(pre + one =~= cs);
        law_overall_concat(pre, one);
        assert(one.drop_last() =~= Seq::<CheckResult>::empty());
    }
}

/// The overall verdict of a multi-report (over every check of every
/// report) is the worst of its reports' overall verdicts; so the exit code
/// of `exit_for_multi` is that of the multi-report's overall verdict.
pub proof fn law_multi_overall(rs: Seq<Report>)
    ensures
        overall_of(all_checks(rs)) == worst_of_reports(rs),
        exit_code_spec(worst_of_reports(rs)) == exit_code_spec(overall_of(all_checks(rs))),
    decreases rs.len(),
{
    if rs.len() == 0 {
        assert(count_verdict(Seq::<CheckResult>::empty(), Verdict::Fail) == 0);
    } else {
        law_multi_overall(rs.drop_last());
        law_overall_concat(all_checks(rs.drop_last()), rs.last().checks@);
    }
}

// ---------------------------------------------------------------------------
// Text helpers
// ---------------------------------------------------------------------------

/// ASCII lower-casing of one character.
pub open spec fn ascii_lower(c: char) -> char {
    if 'A' <= c && c <= 'Z' {
        ((c as u32) + 32) as char
    } else {
        c
    }
}

/// ASCII lower-casing (`str::to_ascii_lowercase`).
pub open spec fn ascii_lowercase(s: Seq<char>) -> Seq<char> {
    s.map_values(|c: char| ascii_lower(c))
}

/// ASCII lower-cased copy of `s`.
pub fn to_ascii_lowercase(s: &[char]) -> (r: Vec<char>)
    ensures
        r@ == ascii_lowercase(s@),
{
    let mut r: Vec<char> = Vec::new();
    let mut i: usize = 0;
    while i < s.len()
        invariant
            0 <= i <= s@.len(),
            r@ == ascii_lowercase(s@.subrange(0, i as int)),
        decreases s@.len() - i,
    {
        let c = s[i];
        let l = if 'A' <= c && c <= 'Z' {
            let b: u8 = (c as u32 + 32) as u8;
            b as char
        } else {
            c
        };
        r.push(l);
        i = i + 1;
        assert(r@ =~= ascii_lowercase(s@.subrange(0, i as int)));
    }
    assert(s@.subrange(0, s@.len() as int) =~= s@);
    r
}


/// Character classes trimmed by the manifest reader.
#[derive(Clone, Copy, Debug, PartialEq, Eq, Structural)]
pub enum CharClass {
    /// `=` or white space.
    EqOrSpace,
    /// White space or `,`.
    SpaceOrComma,
    /// `"`.
    Quote,
}

/// Membership of `c` in class `k`.
pub open spec fn in_class(k: CharClass, c: char) -> bool {
    match k {
        CharClass::EqOrSpace => c == '=' || is_ws(c),
        CharClass::SpaceOrComma => is_ws(c) || c == ',',
        CharClass::Quote => c == '"',
    }
}

fn in_class_exec(k: CharClass, c: char) -> (b: bool)
    ensures
        b == in_class(k, c),
{
    match k {
        CharClass::EqOrSpace => c == '=' || is_whitespace(c),
        CharClass::SpaceOrComma => is_whitespace(c) || c == ',',
        CharClass::Quote => c == '"',
    }
}

/// `s` without its leading characters of class `k`.
pub open spec fn trim_start_by(s: Seq<char>, k: CharClass) -> Seq<char>
    decreases s.len(),
{
    if s.len() > 0 && in_class(k, s[0]) {
        trim_start_by(s.drop_first(), k)
    } else {
        s
    }
}

/// `s` without its trailing characters of class `k`.
pub open spec fn trim_end_by(s: Seq<char>, k: CharClass) -> Seq<char>
    decreases s.len(),
{
    if s.len() > 0 && in_class(k, s.last()) {
        trim_end_by(s.drop_last(), k)
    } else {
        s
    }
}

/// `trim_start_by` on a vector.
fn trim_start_class(s: &[char], k: CharClass) -> (r: Vec<char>)
    ensures
        r@ == trim_start_by(s@, k),
{
    let n = s.len();
    let mut i: usize = 0;
    assert(s@.subrange(0, n as int) =~= s@);
    while i < n && in_class_exec(k, s[i])
        invariant
            0 <= i <= n == s@.len(),
            trim_start_by(s@, k) == trim_start_by(s@.subrange(i as int, n as int), k),
        decreases n - i,
    {
        assert(s@.subrange(i as int, n as int).drop_first() =~= s@.subrange(i as int + 1, n as int));
        i = i + 1;
    }
    copy_range(s, i, n)
}

/// `trim_end_by` on a vector.
fn trim_end_class(s: &[char], k: CharClass) -> (r: Vec<char>)
    ensures
        r@ == trim_end_by(s@, k),
{
    let mut j: usize = s.len();
    assert(s@.subrange(0, j as int) =~= s@);
    while j > 0 && in_class_exec(k, s[j - 1])
        invariant
            j <= s@.len(),
            trim_end_by(s@, k) == trim_end_by(s@.subrange(0, j as int), k),
        decreases j,
    {
        assert(s@.subrange(0, j as int).drop_last() =~= s@.subrange(0, j as int - 1));
        j = j - 1;
    }
    copy_range(s, 0, j)
}

/// The quoted value after a manifest key: leading `=` and white space,
/// trailing white space and `,`, then surrounding `"` removed; none when
/// nothing is left.
pub open spec fn extract_quoted_spec(s: Seq<char>) -> Option<Seq<char>> {
    let t = trim_end_by(trim_start_by(s, CharClass::EqOrSpace), CharClass::SpaceOrComma);
    let u = trim_end_by(trim_start_by(t, CharClass::Quote), CharClass::Quote);
    if u.len() == 0 {
        None
    } else {
        Some(u)
    }
}

/// The quoted value after a manifest key (see `extract_quoted_spec`).
pub fn extract_quoted(s: &[char]) -> (r: Option<Vec<char>>)
    ensures
        match extract_quoted_spec(s@) {
            Some(v) => r matches Some(x) && x@ == v,
            None => r is None,
        },
{
    let a = trim_start_class(s, CharClass::EqOrSpace);
    let b = trim_end_class(a.as_slice(), CharClass::SpaceOrComma);
    let c = trim_start_class(b.as_slice(), CharClass::Quote);
    let d = trim_end_class(c.as_slice(), CharClass::Quote);
    if d.len() == 0 {
        None
    } else {
        Some(d)
    }
}

/// A component name in its short form: trimmed, ASCII lower-cased, and
/// without a leading `dev-`.
pub open spec fn normalize_component_spec(name: Seq<char>) -> Seq<char> {
    let lower = ascii_lowercase(trim(name));
    if has_prefix(lower, "dev-"@) {
        lower.skip("dev-"@.len() as int)
    } else {
        lower
    }
}

/// The short form of a component name (see `normalize_component_spec`).
pub fn normalize_component(name: &str) -> (r: String)
    ensures
        r@ == normalize_component_spec(name@),
{
    let cs = chars_of(name);
    let t = trim_chars(cs.as_slice());
    let lower = to_ascii_lowercase(t.as_slice());
    let prefix = chars_of("dev-");
    if starts_with(lower.as_slice(), prefix.as_slice()) {
        let rest = copy_range(lower.as_slice(), prefix.len(), lower.len());
        string_of(rest.as_slice())
    } else {
        string_of(lower.as_slice())
    }
}

/// ASCII lower-casing keeps white space and non-white space apart.
pub proof fn lemma_lower_is_ws(c: char)
    ensures
        is_ws(ascii_lower(c)) == is_ws(c),
{
}

/// ASCII lower-casing keeps white space apart and is idempotent.
proof fn lemma_lower_ws(c: char)
    ensures
        is_ws(ascii_lower(c)) == is_ws(c),
        ascii_lower(ascii_lower(c)) == ascii_lower(c),
{
}

/// Lower-casing commutes with dropping leading white space.
proof fn lemma_lower_trim_start(s: Seq<char>)
    ensures
        trim_start(ascii_lowercase(s)) == ascii_lowercase(trim_start(s)),
    decreases s.len(),
{
    if s.len() > 0 {
        lemma_lower_ws(s[0]);
        assert(ascii_lowercase(s).drop_first() =~= ascii_lowercase(s.drop_first()));
        lemma_lower_trim_start(s.drop_first());
    }
}

/// Lower-casing commutes with dropping trailing white space.
proof fn lemma_lower_trim_end(s: Seq<char>)
    ensures
        trim_end(ascii_lowercase(s)) == ascii_lowercase(trim_end(s)),
    decreases s.len(),
{
    if s.len() > 0 {
        lemma_lower_ws(s.last());
        assert(ascii_lowercase(s).drop_last() =~= ascii_lowercase(s.drop_last()));
        lemma_lower_trim_end(s.drop_last());
    }
}

/// Dropping trailing white space after a prefix that ends in a
/// non-white-space character keeps the prefix.
proof fn lemma_trim_end_after(p: Seq<char>, s: Seq<char>)
    requires
        p.len() > 0,
        !is_ws(p.last()),
    ensures
        trim_end(p + s) == p + trim_end(s),
    decreases s.len(),
{
    if s.len() == 0 {
        assert(p + s =~= p);
        assert(p + trim_end(s) =~= p);
    } else {
        assert((p + s).drop_last() =~= p + s.drop_last());
        lemma_trim_end_after(p, s.drop_last());
    }
}

/// Component names are case-insensitive: a name and its ASCII lower-case
/// form have the same short form.
pub proof fn law_normalize_ignores_case(name: Seq<char>)
    ensures
        normalize_component_spec(ascii_lowercase(name)) == normalize_component_spec(name),
{
    lemma_lower_trim_start(name);
    lemma_lower_trim_end(trim_start(name));
    let t = trim(name);
    assert(ascii_lowercase(ascii_lowercase(t)) =~= ascii_lowercase(t)) by {
        assert forall|i: int| 0 <= i < t.len() implies ascii_lowercase(ascii_lowercase(t))[i] == ascii_lowercase(t)[i] by {
            lemma_lower_ws(t[i]);
        }
    }
}

/// A name and the same name with the `dev-` crate prefix select the same
/// component: `coverage` and `dev-coverage` have the same short form (for
/// a name without leading white space that does not itself start with
/// `dev-`, up to case).
pub proof fn law_normalize_dev_prefix(name: Seq<char>)
    requires
        name.len() == 0 || !is_ws(name[0]),
        !has_prefix(ascii_lowercase(trim(name)), "dev-"@),
    ensures
        normalize_component_spec("dev-"@ + name) == normalize_component_spec(name),
{
    reveal_strlit("dev-");
    let p = "dev-"@;
    let full = p + name;
    assert(trim_start(full) == full);
    assert(trim_start(name) == name);
    lemma_trim_end_after(p, name);
    let t = trim_end(name);
    assert(trim(full) == p + t);
    assert(ascii_lowercase(p + t) =~= p + ascii_lowercase(t));
    assert((p + ascii_lowercase(t)).subrange(0, 4) =~= p);
    assert((p + ascii_lowercase(t)).skip(4) =~= ascii_lowercase(t));
}

/// Name and version of a package manifest.
#[derive(Clone, Debug)]
pub struct CargoMeta {
    /// `[package] name`.
    pub name: String,
    /// `[package] version`.
    pub version: String,
}

/// State of the manifest reader: inside `[package]`, name and version so far.
pub type ManifestState = (bool, Option<Seq<char>>, Option<Seq<char>>);

/// The rest of a manifest line after the key `key`, when the line sets
/// exactly that key: the key, then optional white space and `=`. A dotted
/// key such as `version.workspace` or a longer name such as `namespace`
/// does not set `key`.
pub open spec fn key_rest(t: Seq<char>, key: Seq<char>) -> Option<Seq<char>> {
    if has_prefix(t, key) {
        let rest = t.skip(key.len() as int);
        let r = trim_start(rest);
        if r.len() > 0 && r[0] == '=' {
            Some(rest)
        } else {
            None
        }
    } else {
        None
    }
}

/// One manifest line: a `[` line opens a table (`[package]` or another);
/// inside `[package]`, a line setting the key `name` or `version` sets that
/// field to its quoted value (or clears it when there is none).
pub open spec fn manifest_step(st: ManifestState, line: Seq<char>) -> ManifestState {
    let t = trim(line);
    if t.len() > 0 && t[0] == '[' {
        (t == "[package]"@, st.1, st.2)
    } else if !st.0 {
        st
    } else {
        match key_rest(t, "name"@) {
            Some(rest) => (st.0, extract_quoted_spec(rest), st.2),
            None => match key_rest(t, "version"@) {
                Some(rest) => (st.0, st.1, extract_quoted_spec(rest)),
                None => st,
            },
        }
    }
}

/// The reader's state after the lines `ls`.
pub open spec fn manifest_fold(ls: Seq<Seq<char>>) -> ManifestState
    decreases ls.len(),
{
    if ls.len() == 0 {
        (false, None, None)
    } else {
        manifest_step(manifest_fold(ls.drop_last()), ls.last())
    }
}

/// The `[package]` name read from a manifest's text, if found.
pub open spec fn manifest_name(text: Seq<char>) -> Option<Seq<char>> {
    manifest_fold(lines(text)).1
}

/// The `[package]` version read from a manifest's text, if found.
pub open spec fn manifest_version(text: Seq<char>) -> Option<Seq<char>> {
    manifest_fold(lines(text)).2
}

/// Name and version read from a manifest's text, when both are found.
pub open spec fn manifest_meta(text: Seq<char>) -> Option<(Seq<char>, Seq<char>)> {
    match (manifest_name(text), manifest_version(text)) {
        (Some(n), Some(v)) => Some((n, v)),
        _ => None,
    }
}

/// The rest of the trimmed line `t` after `key`, when `t` sets that key
/// (see `key_rest`).
fn key_rest_of(t: &[char], key: &str) -> (r: Option<Vec<char>>)
    ensures
        match key_rest(t@, key@) {
            Some(rest) => r matches Some(x) && x@ == rest,
            None => r is None,
        },
{
    let k = chars_of(key);
    if !starts_with(t, k.as_slice()) {
        return None;
    }
    let rest = copy_range(t, k.len(), t.len());
    assert(rest@ =~= t@.skip(key@.len() as int));
    let (i, _j) = trim_bounds(rest.as_slice());
    if i < rest.len() && rest[i] == '=' {
        Some(rest)
    } else {
        None
    }
}

/// Reads the `[package]` name and version from a manifest's text.
fn read_manifest(text: &str) -> (r: (Option<Vec<char>>, Option<Vec<char>>))
    ensures
        match manifest_name(text@) {
            Some(n) => r.0 matches Some(x) && x@ == n,
            None => r.0 is None,
        },
        match manifest_version(text@) {
            Some(v) => r.1 matches Some(x) && x@ == v,
            None => r.1 is None,
        },
{
    let cs = chars_of(text);
    let ls = split_lines(cs.as_slice());
    let ghost all = lines(text@);
    let mut in_package = false;
    let mut name: Option<Vec<char>> = None;
    let mut version: Option<Vec<char>> = None;
    let mut i: usize = 0;
    while i < ls.len()
        invariant
            0 <= i <= ls@.len() == all.len(),
            all == lines(text@),
            forall|k: int| 0 <= k < ls@.len() ==> #[trigger] ls@[k]@ == all[k],
            manifest_fold(all.subrange(0, i as int)).0 == in_package,
            manifest_fold(all.subrange(0, i as int)).1 == match name {
                Some(x) => Some(x@),
                None => None::<Seq<char>>,
            },
            manifest_fold(all.subrange(0, i as int)).2 == match version {
                Some(x) => Some(x@),
                None => None::<Seq<char>>,
            },
        decreases ls@.len() - i,
    {
        proof {
            assert(all.subrange(0, i as int + 1).drop_last() =~= all.subrange(0, i as int));
        }
        let t = trim_chars(ls[i].as_slice());
        if t.len() > 0 && t[0] == '[' {
            in_package = chars_eq_str(t.as_slice(), "[package]");
        } else if !in_package {
        } else {
            match key_rest_of(t.as_slice(), "name") {
                Some(rest) => {
                    name = extract_quoted(rest.as_slice());
                },
                None => match key_rest_of(t.as_slice(), "version") {
                    Some(rest) => {
                        version = extract_quoted(rest.as_slice());
                    },
                    None => {},
                },
            }
        }
        i = i + 1;
    }
    assert(all.subrange(0, all.len() as int) =~= all);
    (name, version)
}

/// Reads `[package]` name and version from a manifest's text; none unless
/// both are found.
pub fn parse_cargo_manifest(text: &str) -> (r: Option<CargoMeta>)
    ensures
        match manifest_meta(text@) {
            Some((n, v)) => r matches Some(m) && m.name@ == n && m.version@ == v,
            None => r is None,
        },
{
    match read_manifest(text) {
        (Some(n), Some(v)) => Some(
            CargoMeta { name: string_of(n.as_slice()), version: string_of(v.as_slice()) },
        ),
        _ => None,
    }
}

/// The subject to report on: the one given, else the manifest's package
/// name, else `unknown`.
pub open spec fn resolved_subject_spec(subject: Option<Seq<char>>, manifest: Option<Seq<char>>) -> Seq<char> {
    match subject {
        Some(s) => s,
        None => match manifest {
            Some(t) => match manifest_name(t) {
                Some(n) => n,
                None => "unknown"@,
            },
            None => "unknown"@,
        },
    }
}

/// The subject's version: the one given, else the manifest's package
/// version, else `0.0.0`.
pub open spec fn resolved_version_spec(version: Option<Seq<char>>, manifest: Option<Seq<char>>) -> Seq<char> {
    match version {
        Some(s) => s,
        None => match manifest {
            Some(t) => match manifest_version(t) {
                Some(v) => v,
                None => "0.0.0"@,
            },
            None => "0.0.0"@,
        },
    }
}

/// The subject to report on (see `resolved_subject_spec`); `manifest` is the
/// text of `Cargo.toml` when it could be read.
pub fn resolved_subject(subject: &Option<String>, manifest: Option<&str>) -> (r: String)
    ensures
        r@ == resolved_subject_spec(
            match subject {
                Some(s) => Some(s@),
                None => None,
            },
            match manifest {
                Some(t) => Some(t@),
                None => None,
            },
        ),
{
    match subject {
        Some(s) => s.clone(),
        None => match manifest {
            Some(t) => match read_manifest(t).0 {
                Some(n) => string_of(n.as_slice()),
                None => "unknown".to_owned(),
            },
            None => "unknown".to_owned(),
        },
    }
}

/// The subject's version (see `resolved_version_spec`).
pub fn resolved_version(version: &Option<String>, manifest: Option<&str>) -> (r: String)
    ensures
        r@ == resolved_version_spec(
            match version {
                Some(s) => Some(s@),
                None => None,
            },
            match manifest {
                Some(t) => Some(t@),
                None => None,
            },
        ),
{
    match version {
        Some(s) => s.clone(),
        None => match manifest {
            Some(t) => match read_manifest(t).1 {
                Some(v) => string_of(v.as_slice()),
                None => "0.0.0".to_owned(),
            },
            None => "0.0.0".to_owned(),
        },
    }
}

// ---------------------------------------------------------------------------
// ANSI painting
// ---------------------------------------------------------------------------

/// Reset all attributes.
pub const C_RESET: &'static str = "\x1b[0m";
/// Bold.
pub const C_BOLD: &'static str = "\x1b[1m";
/// Dim.
pub const C_DIM: &'static str = "\x1b[2m";
/// Green.
pub const C_GREEN: &'static str = "\x1b[32m";
/// Red.
pub const C_RED: &'static str = "\x1b[31m";
/// Yellow.
pub const C_YELLOW: &'static str = "\x1b[33m";
/// Cyan.
pub const C_CYAN: &'static str = "\x1b[36m";
/// Gray.
pub const C_GRAY: &'static str = "\x1b[90m";

/// `s` wrapped in `color` and a reset when `enabled`, else `s` unchanged.
pub open spec fn paint_spec(s: Seq<char>, color: Seq<char>, enabled: bool) -> Seq<char> {
    if enabled {
        color + s + C_RESET@
    } else {
        s
    }
}

/// Wraps `s` in an ANSI color when `enabled`.
pub fn paint(s: &str, color: &str, enabled: bool) -> (r: String)
    ensures
        r@ == paint_spec(s@, color@, enabled),
{
    let mut r = String::new();
    if enabled {
        push_str(&mut r, color);
        push_str(&mut r, s);
        push_str(&mut r, C_RESET);
    } else {
        push_str(&mut r, s);
    }
    assert(r@ =~= paint_spec(s@, color@, enabled));
    r
}

/// Appends `paint(s, color, enabled)`.
pub fn push_painted(out: &mut String, s: &[char], color: &str, enabled: bool)
    ensures
        final(out)@ == old(out)@ + paint_spec(s@, color@, enabled),
{
    let ghost start = out@;
    if enabled {
        push_str(out, color);
        push_chars(out, s);
        push_str(out, C_RESET);
    } else {
        push_chars(out, s);
    }
    assert(out@ =~= start + paint_spec(s@, color@, enabled));
}

/// Glyph, color and label of a verdict in terminal output.
pub open spec fn glyph_spec(v: Verdict) -> (Seq<char>, Seq<char>, Seq<char>) {
    match v {
        Verdict::Pass => ("✓"@, C_GREEN@, "pass"@),
        Verdict::Fail => ("✗"@, C_RED@, "fail"@),
        Verdict::Warn => ("⚠"@, C_YELLOW@, "warn"@),
        Verdict::Skip => ("⊘"@, C_GRAY@, "skip"@),
    }
}

/// Glyph, color and label of a verdict.
pub fn verdict_glyph_color(v: Verdict) -> (r: (&'static str, &'static str, &'static str))
    ensures
        (r.0@, r.1@, r.2@) == glyph_spec(v),
{
    match v {
        Verdict::Pass => ("✓", C_GREEN, "pass"),
        Verdict::Fail => ("✗", C_RED, "fail"),
        Verdict::Warn => ("⚠", C_YELLOW, "warn"),
        Verdict::Skip => ("⊘", C_GRAY, "skip"),
    }
}

/// Upper-case label of a verdict (the label of `glyph_spec`, upper-cased).
pub open spec fn upper_label(v: Verdict) -> Seq<char> {
    match v {
        Verdict::Pass => "PASS"@,
        Verdict::Fail => "FAIL"@,
        Verdict::Warn => "WARN"@,
        Verdict::Skip => "SKIP"@,
    }
}

fn upper_label_str(v: Verdict) -> (r: &'static str)
    ensures
        r@ == upper_label(v),
{
    match v {
        Verdict::Pass => "PASS",
        Verdict::Fail => "FAIL",
        Verdict::Warn => "WARN",
        Verdict::Skip => "SKIP",
    }
}

// ---------------------------------------------------------------------------
// Small subcommand decisions
// ---------------------------------------------------------------------------

/// The first `n` lines of `s`, joined by newlines.
pub open spec fn first_lines_spec(s: Seq<char>, n: nat) -> Seq<char> {
    let ls = lines(s);
    crate::text::join(if ls.len() <= n { ls } else { ls.take(n as int) }, "\n"@)
}

/// The first `n` lines of `s`, joined by newlines.
pub fn first_lines(s: &str, n: usize) -> (r: String)
    ensures
        r@ == first_lines_spec(s@, n as nat),
{
    let cs = chars_of(s);
    let ls = split_lines(cs.as_slice());
    let mut taken: Vec<Vec<char>> = Vec::new();
    let mut i: usize = 0;
    while i < ls.len() && i < n
        invariant
            0 <= i <= ls@.len(),
            i <= n,
            ls@.len() == lines(s@).len(),
            forall|k: int| 0 <= k < ls@.len() ==> #[trigger] ls@[k]@ == lines(s@)[k],
            taken@.len() == i,
            forall|k: int| 0 <= k < i ==> #[trigger] taken@[k]@ == lines(s@)[k],
        decreases ls@.len() - i,
    {
        taken.push(copy_range(ls[i].as_slice(), 0, ls[i].len()));
        proof {
            assert(ls@[i as int]@.subrange(0, ls@[i as int]@.len() as int) =~= ls@[i as int]@);
        }
        i = i + 1;
    }
    let mut r = String::new();
    crate::text::push_joined(&mut r, taken.as_slice(), "\n");
    proof {
        let ls_spec = lines(s@);
        let want = if ls_spec.len() <= n { ls_spec } else { ls_spec.take(n as int) };
        assert(taken@.map_values(|l: Vec<char>| l@) =~= want);
    }
    assert(r@ =~= first_lines_spec(s@, n as nat));
    r
}

/// `c` is the check of a `cargo bench` run: `cargo::bench` passing, or
/// failing with severity `Error` and the first 20 lines of standard error.
pub open spec fn is_bench_check(c: CheckResult, success: bool, stderr: Seq<char>) -> bool {
    &&& c.name@ == "cargo::bench"@
    &&& c.duration_ms is None
    &&& c.evidence@.len() == 0
    &&& if success {
        c.verdict == Verdict::Pass && c.severity is None && c.detail is None
    } else {
        &&& c.verdict == Verdict::Fail
        &&& c.severity == Some(Severity::Error)
        &&& c.detail matches Some(d) && d@ == first_lines_spec(stderr, 20)
    }
}

/// The check of a `cargo bench` run.
pub fn bench_check(success: bool, stderr: &str) -> (c: CheckResult)
    ensures
        is_bench_check(c, success, stderr@),
{
    if success {
        CheckResult::pass("cargo::bench")
    } else {
        CheckResult::fail("cargo::bench", Severity::Error).with_detail(first_lines(stderr, 20))
    }
}

/// The arguments of `cargo bench`: `bench`, then `--workspace` when asked
/// for, then `--features <list>` when a list is given.
pub open spec fn bench_args_spec(workspace: bool, features: Option<Seq<char>>) -> Seq<Seq<char>> {
    let base = if workspace { seq!["bench"@, "--workspace"@] } else { seq!["bench"@] };
    match features {
        Some(f) => base + seq!["--features"@, f],
        None => base,
    }
}

/// The arguments of `cargo bench` (see `bench_args_spec`).
pub fn bench_args(workspace: bool, features: Option<&str>) -> (r: Vec<String>)
    ensures
        r@.map_values(|a: String| a@) == bench_args_spec(
            workspace,
            match features {
                Some(f) => Some(f@),
                None => None,
            },
        ),
{
    let mut r: Vec<String> = Vec::new();
    r.push("bench".to_owned());
    if workspace {
        r.push("--workspace".to_owned());
    }
    match features {
        Some(f) => {
            r.push("--features".to_owned());
            r.push(f.to_owned());
        },
        None => {},
    }
    assert(r@.map_values(|a: String| a@) =~= bench_args_spec(
        workspace,
        match features {
            Some(f) => Some(f@),
            None => None,
        },
    ));
    r
}

/// Index of the first `,` in `s`, or `s.len()`.
pub open spec fn first_comma(s: Seq<char>) -> nat
    decreases s.len(),
{
    if s.len() == 0 {
        0
    } else if s[0] == ',' {
        0
    } else {
        1 + first_comma(s.drop_first())
    }
}

proof fn lemma_first_comma(s: Seq<char>, k: int)
    requires
        0 <= k <= s.len(),
        forall|i: int| 0 <= i < k ==> s[i] != ',',
        k == s.len() || s[k] == ',',
    ensures
        first_comma(s) == k,
    decreases k,
{
    if k > 0 {
        lemma_first_comma(s.drop_first(), k - 1);
    }
}

/// The pieces of `s` between commas (`str::split(',')`).
pub open spec fn split_commas(s: Seq<char>) -> Seq<Seq<char>>
    decreases s.len(),
{
    let k = first_comma(s);
    if k < s.len() {
        seq![s.subrange(0, k as int)] + split_commas(s.subrange(k as int + 1, s.len() as int))
    } else {
        seq![s]
    }
}

/// The trimmed, non-empty pieces of `ps`, in order.
pub open spec fn nonempty_trimmed(ps: Seq<Seq<char>>) -> Seq<Seq<char>>
    decreases ps.len(),
{
    if ps.len() == 0 {
        Seq::empty()
    } else {
        let prev = nonempty_trimmed(ps.drop_last());
        let t = trim(ps.last());
        if t.len() == 0 { prev } else { prev.push(t) }
    }
}

/// The feature names of a comma-separated list: trimmed, empty ones dropped.
pub open spec fn feature_names(list: Seq<char>) -> Seq<Seq<char>> {
    nonempty_trimmed(split_commas(list))
}

/// The feature names of a comma-separated list (see `feature_names`).
pub fn split_features(list: &str) -> (r: Vec<String>)
    ensures
        r@.len() == feature_names(list@).len(),
        forall|i: int| 0 <= i < r@.len() ==> #[trigger] r@[i]@ == feature_names(list@)[i],
{
    let cs = chars_of(list);
    let n = cs.len();
    let mut r: Vec<String> = Vec::new();
    let ghost mut done: Seq<Seq<char>> = Seq::empty();
    let mut start: usize = 0;
    let mut i: usize = 0;
    assert(cs@.subrange(0, n as int) =~= cs@);
    assert(split_commas(cs@) =~= done + split_commas(cs@.subrange(0, n as int)));
    while i < n
        invariant
            0 <= start <= i <= n == cs@.len(),
            cs@ == list@,
            forall|k: int| start <= k < i ==> cs@[k] != ',',
            split_commas(list@) == done + split_commas(cs@.subrange(start as int, n as int)),
            r@.len() == nonempty_trimmed(done).len(),
            forall|k: int| 0 <= k < r@.len() ==> #[trigger] r@[k]@ == nonempty_trimmed(done)[k],
        decreases n - i,
    {
        if cs[i] == ',' {
            let ghost rest = cs@.subrange(start as int, n as int);
            proof {
                lemma_first_comma(rest, i - start);
                assert(rest.subrange(0, i - start) =~= cs@.subrange(start as int, i as int));
                assert(rest.subrange(i - start + 1, rest.len() as int) =~= cs@.subrange(
                    i as int + 1,
                    n as int,
                ));
            }
            let piece = copy_range(cs.as_slice(), start, i);
            let t = trim_chars(piece.as_slice());
            proof {
                let d2 = done.push(piece@);
                assert(d2.drop_last() =~= done);
                assert(split_commas(list@) =~= d2 + split_commas(cs@.subrange(i as int + 1, n as int)));
                done = d2;
            }
            if t.len() > 0 {
                r.push(string_of(t.as_slice()));
            }
            start = i + 1;
        }
        i = i + 1;
    }
    let ghost rest = cs@.subrange(start as int, n as int);
    proof {
        lemma_first_comma(rest, rest.len() as int);
    }
    let piece = copy_range(cs.as_slice(), start, n);
    let t = trim_chars(piece.as_slice());
    proof {
        let d2 = done.push(piece@);
        assert(d2.drop_last() =~= done);
        assert(split_commas(list@) =~= d2);
        done = d2;
    }
    if t.len() > 0 {
        r.push(string_of(t.as_slice()));
    }
    r
}

/// Which dependency checks to run.
#[derive(Clone, Copy, Debug, PartialEq, Eq, Structural)]
pub enum DepScopeChoice {
    /// Unused and outdated.
    All,
    /// Unused only.
    Unused,
    /// Outdated only.
    Outdated,
}

/// The dependency scope for `--unused-only` / `--outdated-only`; unused wins.
pub fn dep_scope(unused_only: bool, outdated_only: bool) -> (r: DepScopeChoice)
    ensures
        r == (if unused_only {
            DepScopeChoice::Unused
        } else if outdated_only {
            DepScopeChoice::Outdated
        } else {
            DepScopeChoice::All
        }),
{
    if unused_only {
        DepScopeChoice::Unused
    } else if outdated_only {
        DepScopeChoice::Outdated
    } else {
        DepScopeChoice::All
    }
}

/// A fuzzing sanitizer.
#[derive(Clone, Copy, Debug, PartialEq, Eq, Structural)]
pub enum SanitizerChoice {
    /// AddressSanitizer.
    Address,
    /// ThreadSanitizer.
    Thread,
    /// MemorySanitizer.
    Memory,
    /// LeakSanitizer.
    Leak,
    /// No sanitizer.
    NoSanitizer,
}

/// The sanitizer a name selects, if any.
pub open spec fn sanitizer_of(name: Seq<char>) -> Option<SanitizerChoice> {
    if name == "address"@ {
        Some(SanitizerChoice::Address)
    } else if name == "thread"@ {
        Some(SanitizerChoice::Thread)
    } else if name == "memory"@ {
        Some(SanitizerChoice::Memory)
    } else if name == "leak"@ {
        Some(SanitizerChoice::Leak)
    } else if name == "none"@ {
        Some(SanitizerChoice::NoSanitizer)
    } else {
        None
    }
}

/// The sanitizer named `name`, or the error `unknown sanitizer: <name>`.
pub fn parse_sanitizer(name: &str) -> (r: Result<SanitizerChoice, String>)
    ensures
        match sanitizer_of(name@) {
            Some(s) => r == Ok::<SanitizerChoice, String>(s),
            None => r matches Err(e) && e@ == "unknown sanitizer: "@ + name@,
        },
{
    let cs = chars_of(name);
    if chars_eq_str(cs.as_slice(), "address") {
        Ok(SanitizerChoice::Address)
    } else if chars_eq_str(cs.as_slice(), "thread") {
        Ok(SanitizerChoice::Thread)
    } else if chars_eq_str(cs.as_slice(), "memory") {
        Ok(SanitizerChoice::Memory)
    } else if chars_eq_str(cs.as_slice(), "leak") {
        Ok(SanitizerChoice::Leak)
    } else if chars_eq_str(cs.as_slice(), "none") {
        Ok(SanitizerChoice::NoSanitizer)
    } else {
        let mut e = String::new();
        push_str(&mut e, "unknown sanitizer: ");
        push_str(&mut e, name);
        Err(e)
    }
}


// ---------------------------------------------------------------------------
// Terminal rendering of a report
// ---------------------------------------------------------------------------

/// The horizontal rule of the terminal renderings.
pub const RULE: &'static str = "  ─────────────────────────────────────────────────────────";

/// Bold cyan, the title color.
pub open spec fn bold_cyan() -> Seq<char> {
    C_BOLD@ + C_CYAN@
}

/// `s` padded with spaces on the right to `w` characters.
pub open spec fn pad_right(s: Seq<char>, w: nat) -> Seq<char> {
    if s.len() < w { s + repeat_char(' ', (w - s.len()) as nat) } else { s }
}

/// `s` padded with spaces on the left to `w` characters.
pub open spec fn pad_left(s: Seq<char>, w: nat) -> Seq<char> {
    if s.len() < w { repeat_char(' ', (w - s.len()) as nat) + s } else { s }
}

/// The longest check name, in bytes (0 for no check).
pub open spec fn max_name_len(cs: Seq<CheckResult>) -> nat
    decreases cs.len(),
{
    if cs.len() == 0 {
        0
    } else {
        let m = max_name_len(cs.drop_last());
        let l = utf8_len(cs.last().name@);
        if l > m { l } else { m }
    }
}

/// Width of the name column: the longest name in bytes, kept within 20..=60.
pub open spec fn name_width(cs: Seq<CheckResult>) -> nat {
    let m = max_name_len(cs);
    if m < 20 { 20 } else if m > 60 { 60 } else { m }
}

/// The title lines of a report: subject and version, then its producer.
pub open spec fn report_head(r: Report, color: bool) -> Seq<char> {
    "\n"@ + paint_spec("  dev · "@ + r.subject@ + " "@ + r.subject_version@, bold_cyan(), color)
        + "\n"@ + producer_line(r.producer, color) + "\n"@
}

/// The producer line of a report's title, when it has a producer.
pub open spec fn producer_line(p: Option<String>, color: bool) -> Seq<char> {
    match p {
        Some(p) => paint_spec("  via "@ + p@, C_DIM@, color) + "\n"@,
        None => Seq::empty(),
    }
}

/// The duration column of a check: right-aligned milliseconds, or blanks.
pub open spec fn duration_text(d: Option<u64>, color: bool) -> Seq<char> {
    match d {
        Some(ms) => paint_spec(pad_left(decimal(ms as nat), 7) + "ms"@, C_DIM@, color),
        None => "         "@,
    }
}

/// The detail lines of a check, indented and dimmed.
pub open spec fn detail_lines(ls: Seq<Seq<char>>, color: bool) -> Seq<char>
    decreases ls.len(),
{
    if ls.len() == 0 {
        Seq::empty()
    } else {
        detail_lines(ls.drop_last(), color) + "      "@ + paint_spec(ls.last(), C_DIM@, color) + "\n"@
    }
}

/// The lines of one check: glyph, padded name and duration, then its detail.
pub open spec fn check_line(c: CheckResult, width: nat, color: bool) -> Seq<char> {
    let g = glyph_spec(c.verdict);
    "  "@ + paint_spec(g.0, g.1, color) + " "@ + pad_right(c.name@, width) + "  "@ + duration_text(
        c.duration_ms,
        color,
    ) + "\n"@ + detail_part(c.detail, color)
}

/// The detail lines of a check, when it has a detail.
pub open spec fn detail_part(d: Option<String>, color: bool) -> Seq<char> {
    match d {
        Some(d) => detail_lines(lines(d@), color),
        None => Seq::empty(),
    }
}

/// The lines of a sequence of checks, in order.
pub open spec fn check_lines(cs: Seq<CheckResult>, width: nat, color: bool) -> Seq<char>
    decreases cs.len(),
{
    if cs.len() == 0 {
        Seq::empty()
    } else {
        check_lines(cs.drop_last(), width, color) + check_line(cs.last(), width, color)
    }
}

/// The summary of a report's checks: rule, total and the four counts.
pub open spec fn report_summary(cs: Seq<CheckResult>, color: bool) -> Seq<char> {
    let c = counts_of(cs);
    "\n"@ + paint_spec(RULE@, C_DIM@, color) + "\n"@ + "  "@ + decimal(cs.len()) + " checks "@
        + paint_spec("· "@ + decimal(c.0) + " pass"@, C_GREEN@, color) + " "@ + paint_spec(
        "· "@ + decimal(c.1) + " fail"@,
        C_RED@,
        color,
    ) + " "@ + paint_spec("· "@ + decimal(c.2) + " warn"@, C_YELLOW@, color) + " "@ + paint_spec(
        "· "@ + decimal(c.3) + " skip"@,
        C_GRAY@,
        color,
    ) + "\n"@
}

/// The overall line of a report: glyph and upper-case verdict, then the
/// total time when the report is finished.
pub open spec fn overall_line(r: Report, color: bool) -> Seq<char> {
    let v = overall_of(r.checks@);
    let g = glyph_spec(v);
    "  "@ + paint_spec(g.0 + " Overall: "@ + upper_label(v), C_BOLD@ + g.1, color) + (match r.finished_at {
        Some(e) => paint_spec(
            "   · "@ + signed_decimal(
                elapsed_millis(r.started_at.secs, r.started_at.nanos, e.secs, e.nanos) as int,
            ) + "ms total"@,
            C_DIM@,
            color,
        ),
        None => Seq::empty(),
    }) + "\n"@ + "\n"@
}

/// The terminal rendering of a report.
pub open spec fn pretty_report_spec(r: Report, color: bool) -> Seq<char> {
    report_head(r, color) + check_lines(r.checks@, name_width(r.checks@), color) + report_summary(
        r.checks@,
        color,
    ) + overall_line(r, color)
}

/// Regrouping a report's rendering around its summary line.
proof fn lemma_regroup_summary_line(
    p: Seq<char>,
    h1: Seq<char>,
    h2: Seq<char>,
    h3: Seq<char>,
    x1: Seq<char>,
    x2: Seq<char>,
    x3: Seq<char>,
    x4: Seq<char>,
    x5: Seq<char>,
    x6: Seq<char>,
    x7: Seq<char>,
    x8: Seq<char>,
    x9: Seq<char>,
    x10: Seq<char>,
    e: Seq<char>,
    o: Seq<char>,
)
    ensures
        p + (h1 + h2 + h3 + x1 + x2 + x3 + x4 + x5 + x6 + x7 + x8 + x9 + x10 + e) + o == (p + h1 + h2
            + h3) + (x1 + x2 + x3 + x4 + x5 + x6 + x7 + x8 + x9 + x10) + e + o,
{
    assert(p + (h1 + h2 + h3 + x1 + x2 + x3 + x4 + x5 + x6 + x7 + x8 + x9 + x10 + e) + o =~= (p + h1
        + h2 + h3) + (x1 + x2 + x3 + x4 + x5 + x6 + x7 + x8 + x9 + x10) + e + o);
}

/// The summary line of a report's terminal rendering: the number of
/// checks, then how many pass, fail, warn and are skipped, each count
/// next to its own verdict's word and painted in its color.
pub proof fn law_report_summary_counts(r: Report, color: bool)
    ensures
        ({
            let cs = r.checks@;
            let line = "  "@ + decimal(cs.len()) + " checks "@ + paint_spec(
                "· "@ + decimal(count_verdict(cs, Verdict::Pass)) + " pass"@,
                C_GREEN@,
                color,
            ) + " "@ + paint_spec("· "@ + decimal(count_verdict(cs, Verdict::Fail)) + " fail"@, C_RED@, color)
                + " "@ + paint_spec(
                "· "@ + decimal(count_verdict(cs, Verdict::Warn)) + " warn"@,
                C_YELLOW@,
                color,
            ) + " "@ + paint_spec("· "@ + decimal(count_verdict(cs, Verdict::Skip)) + " skip"@, C_GRAY@, color);
            exists|a: Seq<char>, b: Seq<char>| pretty_report_spec(r, color) == a + line + "\n"@ + b
        }),
{
    let cs = r.checks@;
    let line = "  "@ + decimal(cs.len()) + " checks "@ + paint_spec(
        "· "@ + decimal(count_verdict(cs, Verdict::Pass)) + " pass"@,
        C_GREEN@,
        color,
    ) + " "@ + paint_spec("· "@ + decimal(count_verdict(cs, Verdict::Fail)) + " fail"@, C_RED@, color)
        + " "@ + paint_spec(
        "· "@ + decimal(count_verdict(cs, Verdict::Warn)) + " warn"@,
        C_YELLOW@,
        color,
    ) + " "@ + paint_spec("· "@ + decimal(count_verdict(cs, Verdict::Skip)) + " skip"@, C_GRAY@, color);
    let p = report_head(r, color) + check_lines(cs, name_width(cs), color);
    lemma_regroup_summary_line(
        p,
        "\n"@,
        paint_spec(RULE@, C_DIM@, color),
        "\n"@,
        "  "@,
        decimal(cs.len()),
        " checks "@,
        paint_spec("· "@ + decimal(count_verdict(cs, Verdict::Pass)) + " pass"@, C_GREEN@, color),
        " "@,
        paint_spec("· "@ + decimal(count_verdict(cs, Verdict::Fail)) + " fail"@, C_RED@, color),
        " "@,
        paint_spec("· "@ + decimal(count_verdict(cs, Verdict::Warn)) + " warn"@, C_YELLOW@, color),
        " "@,
        paint_spec("· "@ + decimal(count_verdict(cs, Verdict::Skip)) + " skip"@, C_GRAY@, color),
        "\n"@,
        overall_line(r, color),
    );
}

/// The check lines of concatenated checks are those of the parts, in order.
pub proof fn lemma_check_lines_add(a: Seq<CheckResult>, b: Seq<CheckResult>, w: nat, color: bool)
    ensures
        check_lines(a + b, w, color) == check_lines(a, w, color) + check_lines(b, w, color),
    decreases b.len(),
{
    if b.len() == 0 {
        assert(a + b =~= a);
        assert(check_lines(a, w, color) + check_lines(b, w, color) =~= check_lines(a, w, color));
    } else {
        assert((a + b).drop_last() =~= a + b.drop_last());
        lemma_check_lines_add(a, b.drop_last(), w, color);
        assert(check_lines(a, w, color) + check_lines(b.drop_last(), w, color) + check_line(
            b.last(),
            w,
            color,
        ) =~= check_lines(a, w, color) + (check_lines(b.drop_last(), w, color) + check_line(
            b.last(),
            w,
            color,
        )));
    }
}

/// The terminal rendering of a report lists every check in order, one
/// block per check: before the `i`-th check's lines come exactly those of
/// the checks before it, and its lines are its glyph, its name padded to a
/// column of 20 to 60 characters, its duration (`{:>7}ms`, or 9 blanks),
/// then each line of its detail indented by 6. The summary's four counts
/// add up to the number of checks, and the total time is shown exactly
/// when the report is finished.
pub proof fn law_pretty_report_layout(r: Report, i: int)
    requires
        0 <= i < r.checks@.len(),
    ensures
        ({
            let cs = r.checks@;
            let w = name_width(cs);
            let c = cs[i];
            let g = glyph_spec(c.verdict);
            &&& 20 <= w <= 60
            &&& check_lines(cs, w, false) == check_lines(cs.take(i), w, false) + check_line(c, w, false)
                + check_lines(cs.skip(i + 1), w, false)
            &&& check_line(c, w, false) == "  "@ + g.0 + " "@ + pad_right(c.name@, w) + "  "@ + (
            match c.duration_ms {
                Some(ms) => pad_left(decimal(ms as nat), 7) + "ms"@,
                None => "         "@,
            }) + "\n"@ + match c.detail {
                Some(d) => detail_lines(lines(d@), false),
                None => Seq::empty(),
            }
            &&& counts_of(cs).0 + counts_of(cs).1 + counts_of(cs).2 + counts_of(cs).3 == cs.len()
            &&& overall_line(r, false) == "  "@ + glyph_spec(overall_of(cs)).0 + " Overall: "@
                + upper_label(overall_of(cs)) + (match r.finished_at {
                Some(e) => "   · "@ + signed_decimal(
                    elapsed_millis(r.started_at.secs, r.started_at.nanos, e.secs, e.nanos) as int,
                ) + "ms total"@,
                None => Seq::empty(),
            }) + "\n"@ + "\n"@
        }),
{
    let cs = r.checks@;
    let w = name_width(cs);
    crate::model::lemma_counts_sum(cs);
    assert(cs =~= cs.take(i) + seq![cs[i]] + cs.skip(i + 1));
    lemma_check_lines_add(cs.take(i) + seq![cs[i]], cs.skip(i + 1), w, false);
    lemma_check_lines_add(cs.take(i), seq![cs[i]], w, false);
    assert(seq![cs[i]].drop_last() =~= Seq::<CheckResult>::empty());
    let one = seq![cs[i]];
    assert(one.last() == cs[i]);
    assert(check_lines(one.drop_last(), w, false) == Seq::<char>::empty());
    assert(check_lines(one, w, false) =~= check_line(cs[i], w, false));
    assert(check_lines(cs, w, false) == check_lines(cs.take(i), w, false) + check_line(cs[i], w, false)
        + check_lines(cs.skip(i + 1), w, false));
    let c = cs[i];
    let gc = glyph_spec(c.verdict);
    assert(check_line(c, w, false) =~= "  "@ + gc.0 + " "@ + pad_right(c.name@, w) + "  "@ + (
    match c.duration_ms {
        Some(ms) => pad_left(decimal(ms as nat), 7) + "ms"@,
        None => "         "@,
    }) + "\n"@ + match c.detail {
        Some(d) => detail_lines(lines(d@), false),
        None => Seq::empty(),
    });
    let v = overall_of(cs);
    let g = glyph_spec(v);
    assert(overall_line(r, false) =~= "  "@ + g.0 + " Overall: "@ + upper_label(v) + (
    match r.finished_at {
        Some(e) => "   · "@ + signed_decimal(
            elapsed_millis(r.started_at.secs, r.started_at.nanos, e.secs, e.nanos) as int,
        ) + "ms total"@,
        None => Seq::empty(),
    }) + "\n"@ + "\n"@);
}

/// Appends `paint(s, color, enabled)` for a string.
pub fn push_painted_str(out: &mut String, s: &str, color: &str, enabled: bool)
    ensures
        final(out)@ == old(out)@ + paint_spec(s@, color@, enabled),
{
    let cs = chars_of(s);
    push_painted(out, cs.as_slice(), color, enabled);
}

fn bold_cyan_str() -> (r: String)
    ensures
        r@ == bold_cyan(),
{
    let mut c = String::new();
    push_str(&mut c, C_BOLD);
    push_str(&mut c, C_CYAN);
    c
}

fn bold_with(color: &str) -> (r: String)
    ensures
        r@ == C_BOLD@ + color@,
{
    let mut c = String::new();
    push_str(&mut c, C_BOLD);
    push_str(&mut c, color);
    c
}

fn write_report_head(out: &mut String, r: &Report, color: bool)
    ensures
        final(out)@ == old(out)@ + report_head(*r, color),
{
    let ghost start = out@;
    push_str(out, "\n");
    let mut title = String::new();
    push_str(&mut title, "  dev · ");
    push_str(&mut title, r.subject.as_str());
    push_str(&mut title, " ");
    push_str(&mut title, r.subject_version.as_str());
    let bc = bold_cyan_str();
    push_painted_str(out, title.as_str(), bc.as_str(), color);
    push_str(out, "\n");
    let ghost mid = out@;
    match &r.producer {
        Some(p) => {
            let mut via = String::new();
            push_str(&mut via, "  via ");
            push_str(&mut via, p.as_str());
            push_painted_str(out, via.as_str(), C_DIM, color);
            push_str(out, "\n");
        },
        None => {},
    }
    push_str(out, "\n");
    assert(out@ =~= mid + producer_line(r.producer, color) + "\n"@);
    assert(out@ =~= start + report_head(*r, color));
}

/// The width of the name column for `checks` (see `name_width`).
pub fn name_width_of(checks: &[CheckResult]) -> (w: usize)
    ensures
        w == name_width(checks@),
{
    let mut m: usize = 0;
    let mut i: usize = 0;
    while i < checks.len()
        invariant
            0 <= i <= checks@.len(),
            m == if max_name_len(checks@.subrange(0, i as int)) <= 60 {
                max_name_len(checks@.subrange(0, i as int))
            } else {
                61
            },
        decreases checks@.len() - i,
    {
        assert(checks@.subrange(0, i as int + 1).drop_last() =~= checks@.subrange(0, i as int));
        let cs = chars_of(checks[i].name.as_str());
        let l = utf8_len_of(cs.as_slice());
        let l = if l > 60 { 61 } else { l };
        if l > m {
            m = l;
        }
        i = i + 1;
    }
    assert(checks@.subrange(0, checks@.len() as int) =~= checks@);
    if m < 20 {
        20
    } else if m > 60 {
        60
    } else {
        m
    }
}

fn push_pad_right(out: &mut String, s: &[char], w: usize)
    ensures
        final(out)@ == old(out)@ + pad_right(s@, w as nat),
{
    let ghost start = out@;
    push_chars(out, s);
    if s.len() < w {
        push_repeat(out, ' ', w - s.len());
    }
    assert(out@ =~= start + pad_right(s@, w as nat));
}

fn write_duration_text(out: &mut String, d: Option<u64>, color: bool)
    ensures
        final(out)@ == old(out)@ + duration_text(d, color),
{
    match d {
        Some(ms) => {
            let mut digits = String::new();
            push_decimal(&mut digits, ms);
            let dc = chars_of(digits.as_str());
            let mut t = String::new();
            if dc.len() < 7 {
                push_repeat(&mut t, ' ', 7 - dc.len());
            }
            push_chars(&mut t, dc.as_slice());
            push_str(&mut t, "ms");
            assert(t@ =~= pad_left(decimal(ms as nat), 7) + "ms"@);
            push_painted_str(out, t.as_str(), C_DIM, color);
        },
        None => push_str(out, "         "),
    }
}

fn write_detail_lines(out: &mut String, d: &str, color: bool)
    ensures
        final(out)@ == old(out)@ + detail_lines(lines(d@), color),
{
    let cs = chars_of(d);
    let ls = split_lines(cs.as_slice());
    let ghost all = lines(d@);
    let ghost start = out@;
    let mut i: usize = 0;
    while i < ls.len()
        invariant
            0 <= i <= ls@.len() == all.len(),
            all == lines(d@),
            forall|k: int| 0 <= k < ls@.len() ==> #[trigger] ls@[k]@ == all[k],
            out@ == start + detail_lines(all.subrange(0, i as int), color),
        decreases ls@.len() - i,
    {
        assert(all.subrange(0, i as int + 1).drop_last() =~= all.subrange(0, i as int));
        push_str(out, "      ");
        push_painted(out, ls[i].as_slice(), C_DIM, color);
        push_str(out, "\n");
        i = i + 1;
        assert(out@ =~= start + detail_lines(all.subrange(0, i as int), color));
    }
    assert(all.subrange(0, all.len() as int) =~= all);
}

fn write_check_line(out: &mut String, c: &CheckResult, width: usize, color: bool)
    ensures
        final(out)@ == old(out)@ + check_line(*c, width as nat, color),
{
    let ghost start = out@;
    let (glyph, gcolor, _label) = verdict_glyph_color(c.verdict);
    push_str(out, "  ");
    push_painted_str(out, glyph, gcolor, color);
    push_str(out, " ");
    let name = chars_of(c.name.as_str());
    push_pad_right(out, name.as_slice(), width);
    push_str(out, "  ");
    write_duration_text(out, c.duration_ms, color);
    push_str(out, "\n");
    let ghost mid = out@;
    match &c.detail {
        Some(d) => write_detail_lines(out, d.as_str(), color),
        None => {},
    }
    assert(out@ =~= mid + detail_part(c.detail, color));
    assert(out@ =~= start + check_line(*c, width as nat, color));
}

#[verifier::spinoff_prover]
fn write_report_summary(out: &mut String, checks: &[CheckResult], color: bool)
    ensures
        final(out)@ == old(out)@ + report_summary(checks@, color),
{
    let (p, f, w, s) = crate::model::verdict_counts_of(checks);
    let ghost start = out@;
    push_str(out, "\n");
    push_painted_str(out, RULE, C_DIM, color);
    push_str(out, "\n");
    push_str(out, "  ");
    push_decimal(out, checks.len() as u64);
    push_str(out, " checks ");
    let mut t = String::new();
    push_str(&mut t, "· ");
    push_decimal(&mut t, p as u64);
    push_str(&mut t, " pass");
    push_painted_str(out, t.as_str(), C_GREEN, color);
    push_str(out, " ");
    let mut t = String::new();
    push_str(&mut t, "· ");
    push_decimal(&mut t, f as u64);
    push_str(&mut t, " fail");
    push_painted_str(out, t.as_str(), C_RED, color);
    push_str(out, " ");
    let mut t = String::new();
    push_str(&mut t, "· ");
    push_decimal(&mut t, w as u64);
    push_str(&mut t, " warn");
    push_painted_str(out, t.as_str(), C_YELLOW, color);
    push_str(out, " ");
    let mut t = String::new();
    push_str(&mut t, "· ");
    push_decimal(&mut t, s as u64);
    push_str(&mut t, " skip");
    push_painted_str(out, t.as_str(), C_GRAY, color);
    push_str(out, "\n");
    assert(out@ =~= start + report_summary(checks@, color));
}

#[verifier::spinoff_prover]
fn write_overall_line(out: &mut String, r: &Report, color: bool)
    requires
        r.started_at.wf(),
        r.finished_at matches Some(e) ==> e.wf(),
    ensures
        final(out)@ == old(out)@ + overall_line(*r, color),
{
    let v = r.overall_verdict();
    let (glyph, gcolor, _label) = verdict_glyph_color(v);
    let ghost start = out@;
    push_str(out, "  ");
    let mut t = String::new();
    push_str(&mut t, glyph);
    push_str(&mut t, " Overall: ");
    push_str(&mut t, upper_label_str(v));
    let bc = bold_with(gcolor);
    push_painted_str(out, t.as_str(), bc.as_str(), color);
    let ghost mid = out@;
    match &r.finished_at {
        Some(end) => {
            let ms = crate::model::elapsed_ms(&r.started_at, end);
            let mut u = String::new();
            push_str(&mut u, "   · ");
            push_signed_decimal(&mut u, ms);
            push_str(&mut u, "ms total");
            push_painted_str(out, u.as_str(), C_DIM, color);
        },
        None => {},
    }
    let ghost fin = out@;
    push_str(out, "\n");
    push_str(out, "\n");
    proof {
        let tail: Seq<char> = match r.finished_at {
            Some(e) => paint_spec(
                "   · "@ + signed_decimal(
                    elapsed_millis(r.started_at.secs, r.started_at.nanos, e.secs, e.nanos) as int,
                ) + "ms total"@,
                C_DIM@,
                color,
            ),
            None => Seq::empty(),
        };
        assert(fin =~= mid + tail);
    }
    assert(out@ =~= start + overall_line(*r, color));
}

/// The terminal rendering of `r`: title, one line per check with its
/// detail, the counts, and the overall verdict (colored when `color`).
pub fn pretty_report(r: &Report, color: bool) -> (out: String)
    requires
        r.started_at.wf(),
        r.finished_at matches Some(e) ==> e.wf(),
    ensures
        out@ == pretty_report_spec(*r, color),
{
    let mut out = String::new();
    write_report_head(&mut out, r, color);
    let ghost head = out@;
    let width = name_width_of(r.checks.as_slice());
    let mut i: usize = 0;
    while i < r.checks.len()
        invariant
            0 <= i <= r.checks@.len(),
            width == name_width(r.checks@),
            out@ == head + check_lines(r.checks@.subrange(0, i as int), width as nat, color),
        decreases r.checks@.len() - i,
    {
        assert(r.checks@.subrange(0, i as int + 1).drop_last() =~= r.checks@.subrange(0, i as int));
        write_check_line(&mut out, &r.checks[i], width, color);
        i = i + 1;
        assert(out@ =~= head + check_lines(r.checks@.subrange(0, i as int), width as nat, color));
    }
    assert(r.checks@.subrange(0, r.checks@.len() as int) =~= r.checks@);
    write_report_summary(&mut out, r.checks.as_slice(), color);
    write_overall_line(&mut out, r, color);
    assert(out@ =~= pretty_report_spec(*r, color));
    out
}


// ---------------------------------------------------------------------------
// Terminal rendering of a multi-report
// ---------------------------------------------------------------------------

/// The title lines of a multi-report: subject, version, producer count.
pub open spec fn multi_head(m: MultiReport, color: bool) -> Seq<char> {
    let n = m.reports@.len();
    "\n"@ + paint_spec("  dev · "@ + m.subject@ + " "@ + m.subject_version@, bold_cyan(), color)
        + "\n"@ + paint_spec("  "@ + decimal(n) + " producer"@ + crate::html::plural(n), C_DIM@, color)
        + "\n"@
}

/// The first line of a detail, or the whole detail when it has no line.
pub open spec fn first_line_or_all(d: Seq<char>) -> Seq<char> {
    if lines(d).len() > 0 { lines(d)[0] } else { d }
}

/// A failing or warning check's line under its producer: glyph, name and
/// the first line of its detail; nothing for other checks.
pub open spec fn issue_line(c: CheckResult, color: bool) -> Seq<char> {
    if c.verdict == Verdict::Fail || c.verdict == Verdict::Warn {
        let g = glyph_spec(c.verdict);
        "    "@ + paint_spec(g.0, g.1, color) + " "@ + c.name@ + issue_detail(c.detail, color) + "\n"@
    } else {
        Seq::empty()
    }
}

/// The dimmed first line of an issue's detail, when it has one.
pub open spec fn issue_detail(d: Option<String>, color: bool) -> Seq<char> {
    match d {
        Some(d) => paint_spec(" — "@ + first_line_or_all(d@), C_DIM@, color),
        None => Seq::empty(),
    }
}

/// The issue lines of a sequence of checks, in order.
pub open spec fn issue_lines(cs: Seq<CheckResult>, color: bool) -> Seq<char>
    decreases cs.len(),
{
    if cs.len() == 0 {
        Seq::empty()
    } else {
        issue_lines(cs.drop_last(), color) + issue_line(cs.last(), color)
    }
}

/// A producer's name in the terminal rendering.
pub open spec fn unnamed_label(p: Option<String>) -> Seq<char> {
    match p {
        Some(p) => p@,
        None => "(unnamed)"@,
    }
}

/// The counts of a report under a multi-report.
pub open spec fn block_counts(c: (nat, nat, nat, nat)) -> Seq<char> {
    "   "@ + decimal(c.0) + " pass · "@ + decimal(c.1) + " fail · "@ + decimal(c.2) + " warn · "@
        + decimal(c.3) + " skip"@
}

/// The line of a report under a multi-report: overall glyph, producer, counts.
pub open spec fn multi_block_line(r: Report, color: bool) -> Seq<char> {
    let g = glyph_spec(overall_of(r.checks@));
    "\n"@ + "  "@ + paint_spec(g.0, g.1, color) + " "@ + paint_spec(unnamed_label(r.producer), C_BOLD@, color)
        + paint_spec(block_counts(counts_of(r.checks@)), C_DIM@, color) + "\n"@
}

/// One report under a multi-report: its line, then the lines of its
/// failing and warning checks.
pub open spec fn multi_block(r: Report, color: bool) -> Seq<char> {
    multi_block_line(r, color) + issue_lines(r.checks@, color)
}

/// The blocks of a sequence of reports, in order.
pub open spec fn multi_blocks(rs: Seq<Report>, color: bool) -> Seq<char>
    decreases rs.len(),
{
    if rs.len() == 0 {
        Seq::empty()
    } else {
        multi_blocks(rs.drop_last(), color) + multi_block(rs.last(), color)
    }
}

/// The totals line of a multi-report.
pub open spec fn tail_totals(c: (nat, nat, nat, nat), color: bool) -> Seq<char> {
    "\n"@ + paint_spec(RULE@, C_DIM@, color) + "\n"@ + "  totals: "@ + decimal(c.0) + " pass · "@
        + decimal(c.1) + " fail · "@ + decimal(c.2) + " warn · "@ + decimal(c.3) + " skip\n"@
}

/// The overall line of a multi-report.
pub open spec fn tail_overall(v: Verdict, color: bool) -> Seq<char> {
    let g = glyph_spec(v);
    "  "@ + paint_spec(g.0 + " Overall: "@ + upper_label(v), C_BOLD@ + g.1, color) + "\n\n"@
}

/// The totals and overall verdict of a multi-report.
pub open spec fn multi_tail(m: MultiReport, color: bool) -> Seq<char> {
    let cs = all_checks(m.reports@);
    tail_totals(counts_of(cs), color) + tail_overall(overall_of(cs), color)
}

/// The terminal rendering of a multi-report.
pub open spec fn pretty_multi_spec(m: MultiReport, color: bool) -> Seq<char> {
    multi_head(m, color) + multi_blocks(m.reports@, color) + multi_tail(m, color)
}

/// The number of checks with verdict `v`, summed report by report.
pub open spec fn sum_counts(rs: Seq<Report>, v: Verdict) -> nat
    decreases rs.len(),
{
    if rs.len() == 0 {
        0
    } else {
        sum_counts(rs.drop_last(), v) + count_verdict(rs.last().checks@, v)
    }
}

/// Counting over all checks is summing the reports' own counts.
proof fn lemma_sum_counts(rs: Seq<Report>, v: Verdict)
    ensures
        count_verdict(all_checks(rs), v) == sum_counts(rs, v),
    decreases rs.len(),
{
    if rs.len() == 0 {
        assert(count_verdict(Seq::<CheckResult>::empty(), v) == 0);
    } else {
        lemma_sum_counts(rs.drop_last(), v);
        lemma_count_verdict_add(all_checks(rs.drop_last()), rs.last().checks@, v);
    }
}

/// The blocks of two runs of reports, one after the other.
proof fn lemma_multi_blocks_add(a: Seq<Report>, b: Seq<Report>, color: bool)
    ensures
        multi_blocks(a + b, color) == multi_blocks(a, color) + multi_blocks(b, color),
    decreases b.len(),
{
    if b.len() == 0 {
        assert(a + b =~= a);
        assert(multi_blocks(a, color) + multi_blocks(b, color) =~= multi_blocks(a, color));
    } else {
        assert((a + b).drop_last() =~= a + b.drop_last());
        lemma_multi_blocks_add(a, b.drop_last(), color);
        assert(multi_blocks(a + b, color) =~= multi_blocks(a, color) + multi_blocks(b, color));
    }
}

/// The blocks of `rs` around its `k`-th report.
proof fn lemma_multi_block_at(rs: Seq<Report>, k: int, color: bool)
    requires
        0 <= k < rs.len(),
    ensures
        multi_blocks(rs, color) == multi_blocks(rs.take(k), color) + multi_block(rs[k], color)
            + multi_blocks(rs.skip(k + 1), color),
{
    let one = seq![rs[k]];
    assert(one.drop_last() =~= Seq::<Report>::empty());
    assert(multi_blocks(Seq::<Report>::empty(), color) == Seq::<char>::empty());
    assert(one.last() == rs[k]);
    assert(multi_blocks(one, color) =~= multi_block(rs[k], color));
    lemma_multi_blocks_add(rs.take(k), one, color);
    lemma_multi_blocks_add(rs.take(k) + one, rs.skip(k + 1), color);
    assert(rs.take(k) + one + rs.skip(k + 1) =~= rs);
}

/// Regrouping the line of a report under a multi-report.
proof fn lemma_regroup_block_line(
    a: Seq<char>,
    b: Seq<char>,
    c: Seq<char>,
    d: Seq<char>,
    e: Seq<char>,
    f: Seq<char>,
    g: Seq<char>,
)
    ensures
        a + b + c + d + e + f + g == a + (b + c + d + e + f + g),
{
    assert(a + b + c + d + e + f + g =~= a + (b + c + d + e + f + g));
}

/// Regrouping a multi-report's rendering around one report's line.
proof fn lemma_regroup_multi(
    h: Seq<char>,
    b1: Seq<char>,
    nl: Seq<char>,
    line: Seq<char>,
    i: Seq<char>,
    b2: Seq<char>,
    t: Seq<char>,
)
    ensures
        h + (b1 + ((nl + line) + i) + b2) + t == (h + b1 + nl) + line + (i + b2 + t),
{
    assert(h + (b1 + ((nl + line) + i) + b2) + t =~= (h + b1 + nl) + line + (i + b2 + t));
}

/// Under a multi-report, the line of each report shows its overall glyph,
/// its producer, then how many of its own checks pass, fail, warn and are
/// skipped, each count next to its own verdict's word.
pub proof fn law_multi_report_line_counts(m: MultiReport, k: int, color: bool)
    requires
        0 <= k < m.reports@.len(),
    ensures
        ({
            let r = m.reports@[k];
            let cs = r.checks@;
            let g = glyph_spec(overall_of(cs));
            let line = "  "@ + paint_spec(g.0, g.1, color) + " "@ + paint_spec(
                unnamed_label(r.producer),
                C_BOLD@,
                color,
            ) + paint_spec(
                "   "@ + decimal(count_verdict(cs, Verdict::Pass)) + " pass · "@ + decimal(
                    count_verdict(cs, Verdict::Fail),
                ) + " fail · "@ + decimal(count_verdict(cs, Verdict::Warn)) + " warn · "@ + decimal(
                    count_verdict(cs, Verdict::Skip),
                ) + " skip"@,
                C_DIM@,
                color,
            ) + "\n"@;
            exists|a: Seq<char>, b: Seq<char>| pretty_multi_spec(m, color) == a + line + b
        }),
{
    let rs = m.reports@;
    let r = rs[k];
    let cs = r.checks@;
    let g = glyph_spec(overall_of(cs));
    let line = "  "@ + paint_spec(g.0, g.1, color) + " "@ + paint_spec(
        unnamed_label(r.producer),
        C_BOLD@,
        color,
    ) + paint_spec(
        "   "@ + decimal(count_verdict(cs, Verdict::Pass)) + " pass · "@ + decimal(
            count_verdict(cs, Verdict::Fail),
        ) + " fail · "@ + decimal(count_verdict(cs, Verdict::Warn)) + " warn · "@ + decimal(
            count_verdict(cs, Verdict::Skip),
        ) + " skip"@,
        C_DIM@,
        color,
    ) + "\n"@;
    lemma_multi_block_at(rs, k, color);
    assert(multi_block_line(r, color) == "\n"@ + line) by {
        lemma_regroup_block_line(
            "\n"@,
            "  "@,
            paint_spec(g.0, g.1, color),
            " "@,
            paint_spec(unnamed_label(r.producer), C_BOLD@, color),
            paint_spec(block_counts(counts_of(cs)), C_DIM@, color),
            "\n"@,
        );
    }
    lemma_regroup_multi(
        multi_head(m, color),
        multi_blocks(rs.take(k), color),
        "\n"@,
        line,
        issue_lines(cs, color),
        multi_blocks(rs.skip(k + 1), color),
        multi_tail(m, color),
    );
}

/// The terminal rendering of a multi-report (without color) opens with the
/// title and the producer count (`1 producer`, `n producers`), and closes
/// with the totals, which add up the reports' own counts, and the overall
/// verdict over every check.
pub proof fn law_pretty_multi_frame(m: MultiReport)
    ensures
        ({
            let rs = m.reports@;
            let n = rs.len();
            let v = overall_of(all_checks(rs));
            let g = glyph_spec(v);
            let head = "\n"@ + "  dev · "@ + m.subject@ + " "@ + m.subject_version@ + "\n"@ + "  "@
                + decimal(n) + " producer"@ + crate::html::plural(n) + "\n"@;
            let tail = "\n"@ + RULE@ + "\n  totals: "@ + decimal(sum_counts(rs, Verdict::Pass))
                + " pass · "@ + decimal(sum_counts(rs, Verdict::Fail)) + " fail · "@ + decimal(
                sum_counts(rs, Verdict::Warn),
            ) + " warn · "@ + decimal(sum_counts(rs, Verdict::Skip)) + " skip\n"@ + "  "@ + g.0
                + " Overall: "@ + upper_label(v) + "\n\n"@;
            pretty_multi_spec(m, false) == head + multi_blocks(rs, false) + tail
        }),
{
    let rs = m.reports@;
    lemma_sum_counts(rs, Verdict::Pass);
    lemma_sum_counts(rs, Verdict::Fail);
    lemma_sum_counts(rs, Verdict::Warn);
    lemma_sum_counts(rs, Verdict::Skip);
    let n = rs.len();
    let v = overall_of(all_checks(rs));
    let g = glyph_spec(v);
    assert(multi_head(m, false) =~= "\n"@ + "  dev · "@ + m.subject@ + " "@ + m.subject_version@
        + "\n"@ + "  "@ + decimal(n) + " producer"@ + crate::html::plural(n) + "\n"@);
    assert(multi_tail(m, false) =~= "\n"@ + RULE@ + "\n  totals: "@ + decimal(
        sum_counts(rs, Verdict::Pass),
    ) + " pass · "@ + decimal(sum_counts(rs, Verdict::Fail)) + " fail · "@ + decimal(
        sum_counts(rs, Verdict::Warn),
    ) + " warn · "@ + decimal(sum_counts(rs, Verdict::Skip)) + " skip\n"@ + "  "@ + g.0
        + " Overall: "@ + upper_label(v) + "\n\n"@) by {
        reveal_strlit("\n");
        reveal_strlit("\n  totals: ");
        reveal_strlit("  totals: ");
        reveal_strlit("  ");
        reveal_strlit("\n\n");
    }
}

/// Under each report, the terminal rendering of a multi-report lists
/// exactly that report's failing and warning checks, in order: the lines
/// of its checks are those of its failing and warning checks alone, and a
/// passing or skipped check gives no line.
pub proof fn law_pretty_multi_lists_issues(cs: Seq<CheckResult>, color: bool)
    ensures
        issue_lines(cs, color) == issue_lines(
            cs.filter(|c: CheckResult| c.verdict == Verdict::Fail || c.verdict == Verdict::Warn),
            color,
        ),
        forall|i: int|
            0 <= i < cs.len() && !(cs[i].verdict == Verdict::Fail || cs[i].verdict == Verdict::Warn)
                ==> #[trigger] issue_line(cs[i], color) == Seq::<char>::empty(),
    decreases cs.len(),
{
    reveal(Seq::filter);
    let pred = |c: CheckResult| c.verdict == Verdict::Fail || c.verdict == Verdict::Warn;
    if cs.len() > 0 {
        law_pretty_multi_lists_issues(cs.drop_last(), color);
        let f = cs.drop_last().filter(pred);
        if pred(cs.last()) {
            assert(f.push(cs.last()).drop_last() =~= f);
        } else {
            assert(issue_lines(cs, color) =~= issue_lines(cs.drop_last(), color));
        }
    }
}

fn write_multi_head(out: &mut String, m: &MultiReport, color: bool)
    ensures
        final(out)@ == old(out)@ + multi_head(*m, color),
{
    let ghost start = out@;
    push_str(out, "\n");
    let mut title = String::new();
    push_str(&mut title, "  dev · ");
    push_str(&mut title, m.subject.as_str());
    push_str(&mut title, " ");
    push_str(&mut title, m.subject_version.as_str());
    let bc = bold_cyan_str();
    push_painted_str(out, title.as_str(), bc.as_str(), color);
    push_str(out, "\n");
    let n = m.reports.len() as u64;
    let mut t = String::new();
    push_str(&mut t, "  ");
    push_decimal(&mut t, n);
    push_str(&mut t, " producer");
    if n == 1 {
        push_str(&mut t, "");
    } else {
        push_str(&mut t, "s");
    }
    push_painted_str(out, t.as_str(), C_DIM, color);
    push_str(out, "\n");
    assert(out@ =~= start + multi_head(*m, color));
}

fn write_issue_line(out: &mut String, c: &CheckResult, color: bool)
    ensures
        final(out)@ == old(out)@ + issue_line(*c, color),
{
    let ghost start = out@;
    match c.verdict {
        Verdict::Fail | Verdict::Warn => {
            let (g, gc, _l) = verdict_glyph_color(c.verdict);
            push_str(out, "    ");
            push_painted_str(out, g, gc, color);
            push_str(out, " ");
            push_str(out, c.name.as_str());
            let ghost mid = out@;
            match &c.detail {
                Some(d) => {
                    let dc = chars_of(d.as_str());
                    let first = match first_line(dc.as_slice()) {
                        Some(l) => l,
                        None => dc,
                    };
                    let mut t = String::new();
                    push_str(&mut t, " — ");
                    push_chars(&mut t, first.as_slice());
                    push_painted_str(out, t.as_str(), C_DIM, color);
                },
                None => {},
            }
            assert(out@ =~= mid + issue_detail(c.detail, color));
            push_str(out, "\n");
        },
        _ => {},
    }
    assert(out@ =~= start + issue_line(*c, color));
}

fn write_block_counts(out: &mut String, p: usize, f: usize, w: usize, s: usize, color: bool)
    ensures
        final(out)@ == old(out)@ + paint_spec(
            block_counts((p as nat, f as nat, w as nat, s as nat)),
            C_DIM@,
            color,
        ),
{
    let mut t = String::new();
    push_str(&mut t, "   ");
    push_decimal(&mut t, p as u64);
    push_str(&mut t, " pass · ");
    push_decimal(&mut t, f as u64);
    push_str(&mut t, " fail · ");
    push_decimal(&mut t, w as u64);
    push_str(&mut t, " warn · ");
    push_decimal(&mut t, s as u64);
    push_str(&mut t, " skip");
    assert(t@ =~= block_counts((p as nat, f as nat, w as nat, s as nat)));
    push_painted_str(out, t.as_str(), C_DIM, color);
}

fn write_multi_block_line(out: &mut String, r: &Report, color: bool)
    ensures
        final(out)@ == old(out)@ + multi_block_line(*r, color),
{
    let ghost start = out@;
    let v = r.overall_verdict();
    let (g, gc, _l) = verdict_glyph_color(v);
    push_str(out, "\n");
    push_str(out, "  ");
    push_painted_str(out, g, gc, color);
    push_str(out, " ");
    match &r.producer {
        Some(p) => push_painted_str(out, p.as_str(), C_BOLD, color),
        None => push_painted_str(out, "(unnamed)", C_BOLD, color),
    }
    let (p, f, w, s) = r.verdict_counts();
    write_block_counts(out, p, f, w, s, color);
    push_str(out, "\n");
    assert(out@ =~= start + multi_block_line(*r, color));
}

fn write_multi_block(out: &mut String, r: &Report, color: bool)
    ensures
        final(out)@ == old(out)@ + multi_block(*r, color),
{
    let ghost start = out@;
    write_multi_block_line(out, r, color);
    let ghost head = out@;
    let mut i: usize = 0;
    while i < r.checks.len()
        invariant
            0 <= i <= r.checks@.len(),
            out@ == head + issue_lines(r.checks@.subrange(0, i as int), color),
        decreases r.checks@.len() - i,
    {
        assert(r.checks@.subrange(0, i as int + 1).drop_last() =~= r.checks@.subrange(0, i as int));
        write_issue_line(out, &r.checks[i], color);
        i = i + 1;
        assert(out@ =~= head + issue_lines(r.checks@.subrange(0, i as int), color));
    }
    assert(r.checks@.subrange(0, r.checks@.len() as int) =~= r.checks@);
    assert(out@ =~= start + multi_block(*r, color));
}

#[verifier::spinoff_prover]
fn write_tail_totals(out: &mut String, p: usize, f: usize, w: usize, s: usize, color: bool)
    ensures
        final(out)@ == old(out)@ + tail_totals((p as nat, f as nat, w as nat, s as nat), color),
{
    let ghost start = out@;
    push_str(out, "\n");
    push_painted_str(out, RULE, C_DIM, color);
    push_str(out, "\n");
    push_str(out, "  totals: ");
    push_decimal(out, p as u64);
    push_str(out, " pass · ");
    push_decimal(out, f as u64);
    push_str(out, " fail · ");
    push_decimal(out, w as u64);
    push_str(out, " warn · ");
    push_decimal(out, s as u64);
    push_str(out, " skip\n");
    assert(out@ =~= start + tail_totals((p as nat, f as nat, w as nat, s as nat), color));
}

fn write_tail_overall(out: &mut String, v: Verdict, color: bool)
    ensures
        final(out)@ == old(out)@ + tail_overall(v, color),
{
    let ghost start = out@;
    let (g, gc, _l) = verdict_glyph_color(v);
    push_str(out, "  ");
    let mut t = String::new();
    push_str(&mut t, g);
    push_str(&mut t, " Overall: ");
    push_str(&mut t, upper_label_str(v));
    let bc = bold_with(gc);
    push_painted_str(out, t.as_str(), bc.as_str(), color);
    push_str(out, "\n\n");
    assert(out@ =~= start + tail_overall(v, color));
}

fn write_multi_tail(out: &mut String, m: &MultiReport, color: bool)
    requires
        m.counts_fit(),
    ensures
        final(out)@ == old(out)@ + multi_tail(*m, color),
{
    let ghost start = out@;
    let (p, f, w, s) = m.verdict_counts();
    let v = if f > 0 {
        Verdict::Fail
    } else if w > 0 {
        Verdict::Warn
    } else if p > 0 {
        Verdict::Pass
    } else {
        Verdict::Skip
    };
    assert(v == overall_of(all_checks(m.reports@)));
    write_tail_totals(out, p, f, w, s, color);
    write_tail_overall(out, v, color);
    assert(out@ =~= start + multi_tail(*m, color));
}

/// The terminal rendering of `m`: title, one block per report listing its
/// failing and warning checks, totals, and the overall verdict.
pub fn pretty_multi(m: &MultiReport, color: bool) -> (out: String)
    requires
        m.counts_fit(),
    ensures
        out@ == pretty_multi_spec(*m, color),
{
    let mut out = String::new();
    write_multi_head(&mut out, m, color);
    let ghost head = out@;
    let mut i: usize = 0;
    while i < m.reports.len()
        invariant
            0 <= i <= m.reports@.len(),
            out@ == head + multi_blocks(m.reports@.subrange(0, i as int), color),
        decreases m.reports@.len() - i,
    {
        assert(m.reports@.subrange(0, i as int + 1).drop_last() =~= m.reports@.subrange(0, i as int));
        write_multi_block(&mut out, &m.reports[i], color);
        i = i + 1;
        assert(out@ =~= head + multi_blocks(m.reports@.subrange(0, i as int), color));
    }
    assert(m.reports@.subrange(0, m.reports@.len() as int) =~= m.reports@);
    write_multi_tail(&mut out, m, color);
    assert(out@ =~= pretty_multi_spec(*m, color));
    out
}

} // verus!
