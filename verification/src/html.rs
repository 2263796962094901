//! The HTML meta-report: one self-contained document (inline CSS, inline
//! SVG charts, no scripts or external assets) rendering a multi-report.
//! The output is a function of the multi-report alone.

use vstd::prelude::*;

use crate::brand;
use crate::model::{
    CheckResult, MultiReport, Report, Severity, Verdict, all_checks, count_verdict, counts_of,
    lemma_count_verdict_pos, lemma_counts_sum, overall_of, rfc3339_text,
};
use crate::text::{decimal, escape_html, has_prefix, push_decimal, push_html_escaped_str, push_str};

verus! {

/// The style rules after the color custom properties.
pub const INLINE_CSS_RULES: &'static str = "
* { box-sizing: border-box; }
html, body {
    margin: 0;
    padding: 0;
    background: var(--color-bg);
    color: var(--color-fg);
    font-family: -apple-system, BlinkMacSystemFont, \"Segoe UI\", system-ui, sans-serif;
    line-height: 1\x2E5;
}
main {
    max-width: 1100px;
    margin: 0 auto;
    padding: 2rem 1\x2E5rem 4rem;
}
header.page {
    border-bottom: 1px solid var(--color-border);
    padding-bottom: 1\x2E5rem;
    margin-bottom: 2rem;
}
header.page h1 {
    margin: 0 0 .25rem;
    font-size: 1\x2E6rem;
    font-weight: 600;
}
header.page .subtitle {
    color: var(--color-muted);
    font-size: .95rem;
}
.verdict-badge {
    display: inline-block;
    padding: .35rem .9rem;
    border-radius: 4px;
    font-size: .8rem;
    font-weight: 700;
    letter-spacing: .08em;
    text-transform: uppercase;
    margin-top: .85rem;
    color: #fff;
}
.verdict-pass  { background: var(--color-pass); }
.verdict-fail  { background: var(--color-fail); }
.verdict-warn  { background: var(--color-warn); color: #1a1a1a; }
.verdict-skip  { background: var(--color-muted); }
section { margin: 2rem 0; }
section > h2 {
    font-size: 1\x2E1rem;
    font-weight: 600;
    margin: 0 0 .9rem;
    padding-bottom: .35rem;
    border-bottom: 1px solid var(--color-border);
}
.counts {
    display: flex;
    flex-wrap: wrap;
    gap: 1rem;
    margin: .5rem 0 1\x2E2rem;
}
.count {
    flex: 1 1 6rem;
    background: var(--color-surface);
    border: 1px solid var(--color-border);
    border-left: 4px solid var(--color-muted);
    padding: .7rem 1rem;
    border-radius: 3px;
}
.count.pass { border-left-color: var(--color-pass); }
.count.fail { border-left-color: var(--color-fail); }
.count.warn { border-left-color: var(--color-warn); }
.count.skip { border-left-color: var(--color-muted); }
.count .value { font-size: 1\x2E4rem; font-weight: 700; display: block; }
.count .label { font-size: .8rem; color: var(--color-muted); text-transform: uppercase; letter-spacing: .06em; }
svg.bar-chart, svg.histogram {
    width: 100%;
    height: auto;
    background: var(--color-surface);
    border: 1px solid var(--color-border);
    border-radius: 3px;
    padding: .25rem;
}
details.producer {
    background: var(--color-surface);
    border: 1px solid var(--color-border);
    border-radius: 3px;
    margin: .5rem 0;
    padding: 0;
}
details.producer > summary {
    cursor: pointer;
    padding: .75rem 1rem;
    font-weight: 600;
    user-select: none;
    list-style: none;
}
details.producer > summary::-webkit-details-marker { display: none; }
details.producer > summary::before {
    content: \"▸ \";
    color: var(--color-muted);
    font-weight: 400;
    transition: transform .15s ease;
    display: inline-block;
    width: 1em;
}
details.producer[open] > summary::before { content: \"▾ \"; }
details.producer summary .producer-meta {
    color: var(--color-muted);
    font-weight: 400;
    margin-left: .5rem;
    font-size: .9rem;
}
table.checks {
    width: 100%;
    border-collapse: collapse;
    font-size: .9rem;
}
table.checks th, table.checks td {
    text-align: left;
    padding: .45rem .75rem;
    border-top: 1px solid var(--color-border);
    vertical-align: top;
}
table.checks th {
    background: var(--color-bg);
    color: var(--color-muted);
    text-transform: uppercase;
    font-size: .72rem;
    letter-spacing: .06em;
    font-weight: 600;
}
table.checks td.verdict {
    font-weight: 600;
    white-space: nowrap;
    width: 6ch;
}
table.checks td.verdict.pass { color: var(--color-pass); }
table.checks td.verdict.fail { color: var(--color-fail); }
table.checks td.verdict.warn { color: var(--color-warn); }
table.checks td.verdict.skip { color: var(--color-muted); }
table.checks td.duration { color: var(--color-muted); white-space: nowrap; width: 8ch; text-align: right; }
table.checks td.severity { color: var(--color-muted); white-space: nowrap; }
table.checks td.detail { color: var(--color-fg); }
table.checks td.detail .empty { color: var(--color-muted); }
footer.page {
    margin-top: 3rem;
    padding-top: 1rem;
    border-top: 1px solid var(--color-border);
    color: var(--color-muted);
    font-size: .85rem;
    text-align: center;
}
@media print {
    body { background: #fff; color: #000; }
    main { max-width: none; padding: 0; }
    details.producer { border: 1px solid #ccc; }
    details.producer[open] > summary::before, details.producer > summary::before { content: \"\"; }
    details.producer > div.producer-body { display: block !important; }
}
";

/// Appends the HTML-escaped text of `s` (`&`, `<`, `>`, `"`, `'` as entities).
pub fn write_html_text(out: &mut String, s: &str)
    ensures
        final(out)@ == old(out)@ + escape_html(s@),
{
    push_html_escaped_str(out, s);
}

/// One color custom property line.
pub open spec fn css_var_line(name: Seq<char>, value: Seq<char>) -> Seq<char> {
    "    --color-"@ + name + ": "@ + value + ";\n"@
}

/// The `<style>` element: the brand colors as custom properties, the
/// fixed muted, surface and border colors, then the style rules.
pub open spec fn inline_css() -> Seq<char> {
    "<style>\n:root {\n"@ + css_var_line("accent"@, brand::COLOR_ACCENT@) + css_var_line(
        "pass"@,
        brand::COLOR_PASS@,
    ) + css_var_line("fail"@, brand::COLOR_FAIL@) + css_var_line("warn"@, brand::COLOR_WARN@)
        + css_var_line("lint"@, brand::COLOR_LINT@) + css_var_line("bg"@, brand::COLOR_BG@)
        + css_var_line("fg"@, brand::COLOR_FG@) + "    --color-muted: #888;\n"@
        + "    --color-surface: #1a1f26;\n"@ + "    --color-border: #2a3038;\n"@ + "}\n"@
        + INLINE_CSS_RULES@ + "</style>\n"@
}

fn write_css_var(out: &mut String, name: &str, value: &str)
    ensures
        final(out)@ == old(out)@ + css_var_line(name@, value@),
{
    let ghost start = out@;
    push_str(out, "    --color-");
    push_str(out, name);
    push_str(out, ": ");
    push_str(out, value);
    push_str(out, ";\n");
    assert(out@ =~= start + css_var_line(name@, value@));
}

/// Appends the `<style>` element (see `inline_css`).
#[verifier::spinoff_prover]
pub fn write_inline_css(out: &mut String)
    ensures
        final(out)@ == old(out)@ + inline_css(),
{
    let ghost start = out@;
    push_str(out, "<style>\n:root {\n");
    write_css_var(out, "accent", brand::COLOR_ACCENT);
    write_css_var(out, "pass", brand::COLOR_PASS);
    write_css_var(out, "fail", brand::COLOR_FAIL);
    write_css_var(out, "warn", brand::COLOR_WARN);
    write_css_var(out, "lint", brand::COLOR_LINT);
    write_css_var(out, "bg", brand::COLOR_BG);
    write_css_var(out, "fg", brand::COLOR_FG);
    push_str(out, "    --color-muted: #888;\n");
    push_str(out, "    --color-surface: #1a1f26;\n");
    push_str(out, "    --color-border: #2a3038;\n");
    push_str(out, "}\n");
    push_str(out, INLINE_CSS_RULES);
    push_str(out, "</style>\n");
    assert(out@ =~= start + inline_css());
}

/// The page footer: the brand footer line, escaped, closing `<main>`.
#[verifier::opaque]
pub open spec fn footer() -> Seq<char> {
    "<footer class=\"page\">"@ + escape_html(brand::FOOTER@) + "</footer>\n</main>\n"@
}

/// Appends the page footer (see `footer`).
pub fn write_footer(out: &mut String)
    ensures
        final(out)@ == old(out)@ + footer(),
{
    reveal(footer);
    let ghost start = out@;
    push_str(out, "<footer class=\"page\">");
    write_html_text(out, brand::FOOTER);
    push_str(out, "</footer>\n</main>\n");
    assert(out@ =~= start + footer());
}

/// Display label of a verdict.
pub open spec fn verdict_label(v: Verdict) -> Seq<char> {
    match v {
        Verdict::Pass => "Pass"@,
        Verdict::Fail => "Fail"@,
        Verdict::Warn => "Warn"@,
        Verdict::Skip => "Skip"@,
    }
}

/// Display label of a verdict.
pub fn verdict_label_str(v: Verdict) -> (r: &'static str)
    ensures
        r@ == verdict_label(v),
{
    match v {
        Verdict::Pass => "Pass",
        Verdict::Fail => "Fail",
        Verdict::Warn => "Warn",
        Verdict::Skip => "Skip",
    }
}

/// Display label of a severity.
pub open spec fn severity_label(s: Severity) -> Seq<char> {
    match s {
        Severity::Info => "Info"@,
        Severity::Warning => "Warning"@,
        Severity::Error => "Error"@,
        Severity::Critical => "Critical"@,
    }
}

/// Display label of a severity.
pub fn severity_label_str(s: Severity) -> (r: &'static str)
    ensures
        r@ == severity_label(s),
{
    match s {
        Severity::Info => "Info",
        Severity::Warning => "Warning",
        Severity::Error => "Error",
        Severity::Critical => "Critical",
    }
}

/// `""` for one, `"s"` otherwise.
pub open spec fn plural(n: nat) -> Seq<char> {
    if n == 1 { ""@ } else { "s"@ }
}

fn push_plural(out: &mut String, n: u64)
    ensures
        final(out)@ == old(out)@ + plural(n as nat),
{
    if n == 1 {
        push_str(out, "");
    } else {
        push_str(out, "s");
    }
}

// ---------------------------------------------------------------------------
// Summary: counts and the stacked verdict bar
// ---------------------------------------------------------------------------

/// Width of a bar segment: `1000 * count / total`, rounded half up.
pub open spec fn segment_width(count: nat, total: nat) -> nat {
    ((2000 * count + total) / (2 * total)) as nat
}

/// One segment of the verdict bar starting at `x`: its `<rect>` and the
/// next `x`; nothing for a zero count or a zero width.
pub open spec fn bar_segment(x: nat, count: nat, total: nat, color: Seq<char>, label: Seq<char>) -> (Seq<char>, nat) {
    let w = segment_width(count, total);
    if count == 0 || w == 0 {
        (Seq::empty(), x)
    } else {
        (
            "        <rect x=\""@ + decimal(x) + "\" y=\"0\" width=\""@ + decimal(w)
                + "\" height=\"40\" fill=\""@ + color + "\"><title>"@ + label + " — "@
                + decimal(count) + "</title></rect>\n"@,
            x + w,
        )
    }
}

/// The rectangle filling the bar from `x` to its end, if `x < 1000`.
pub open spec fn bar_fill(x: nat) -> Seq<char> {
    if x < 1000 {
        "        <rect x=\""@ + decimal(x) + "\" y=\"0\" width=\""@ + decimal((1000 - x) as nat)
            + "\" height=\"40\" fill=\"var(--color-muted)\"/>\n"@
    } else {
        Seq::empty()
    }
}

/// The opening `<svg>` tag of the verdict bar.
pub open spec fn bar_header(pass: nat, fail: nat, warn: nat, skip: nat) -> Seq<char> {
    "    <svg class=\"bar-chart\" viewBox=\"0 0 1000 40\" preserveAspectRatio=\"none\" aria-label=\"Verdict distribution: "@
        + decimal(pass) + " pass, "@ + decimal(fail) + " fail, "@ + decimal(warn) + " warn, "@
        + decimal(skip) + " skip\">\n"@
}

/// The segments of the verdict bar, then the filling rectangle.
pub open spec fn bar_body(pass: nat, fail: nat, warn: nat, skip: nat) -> Seq<char> {
    let total = pass + fail + warn + skip;
    let s1 = bar_segment(0, pass, total, "var(--color-pass)"@, "Pass"@);
    let s2 = bar_segment(s1.1, fail, total, "var(--color-fail)"@, "Fail"@);
    let s3 = bar_segment(s2.1, warn, total, "var(--color-warn)"@, "Warn"@);
    let s4 = bar_segment(s3.1, skip, total, "var(--color-muted)"@, "Skip"@);
    s1.0 + s2.0 + s3.0 + s4.0 + bar_fill(s4.1)
}

/// The stacked verdict bar (pass | fail | warn | skip) as an SVG, or nothing
/// when there is no check.
pub open spec fn bar_chart(pass: nat, fail: nat, warn: nat, skip: nat) -> Seq<char> {
    if pass + fail + warn + skip == 0 {
        Seq::empty()
    } else {
        bar_header(pass, fail, warn, skip) + bar_body(pass, fail, warn, skip) + "    </svg>\n"@
    }
}

fn write_bar_segment(
    out: &mut String,
    x: u64,
    count: u64,
    total: u64,
    color: &str,
    label: &str,
) -> (nx: u64)
    requires
        count <= total,
        x <= 3000,
    ensures
        final(out)@ == old(out)@ + bar_segment(x as nat, count as nat, total as nat, color@, label@).0,
        nx as nat == bar_segment(x as nat, count as nat, total as nat, color@, label@).1,
        nx <= x + 1000,
{
    if count == 0 {
        return x;
    }
    let w128: u128 = (2000 * (count as u128) + (total as u128)) / (2 * (total as u128));
    assert(w128 <= 1000) by (nonlinear_arith)
        requires
            w128 == (2000 * (count as u128) + (total as u128)) / (2 * (total as u128)),
            count <= total,
            count > 0,
    ;
    let w = w128 as u64;
    if w == 0 {
        return x;
    }
    let ghost start = out@;
    push_str(out, "        <rect x=\"");
    push_decimal(out, x);
    push_str(out, "\" y=\"0\" width=\"");
    push_decimal(out, w);
    push_str(out, "\" height=\"40\" fill=\"");
    push_str(out, color);
    push_str(out, "\"><title>");
    push_str(out, label);
    push_str(out, " — ");
    push_decimal(out, count);
    push_str(out, "</title></rect>\n");
    assert(out@ =~= start + bar_segment(x as nat, count as nat, total as nat, color@, label@).0);
    x + w
}

fn write_bar_header(out: &mut String, pass: usize, fail: usize, warn: usize, skip: usize)
    ensures
        final(out)@ == old(out)@ + bar_header(pass as nat, fail as nat, warn as nat, skip as nat),
{
    let ghost start = out@;
    push_str(
        out,
        "    <svg class=\"bar-chart\" viewBox=\"0 0 1000 40\" preserveAspectRatio=\"none\" aria-label=\"Verdict distribution: ",
    );
    push_decimal(out, pass as u64);
    push_str(out, " pass, ");
    push_decimal(out, fail as u64);
    push_str(out, " fail, ");
    push_decimal(out, warn as u64);
    push_str(out, " warn, ");
    push_decimal(out, skip as u64);
    push_str(out, " skip\">\n");
    assert(out@ =~= start + bar_header(pass as nat, fail as nat, warn as nat, skip as nat));
}

fn write_bar_fill(out: &mut String, x: u64)
    ensures
        final(out)@ == old(out)@ + bar_fill(x as nat),
{
    let ghost start = out@;
    if x < 1000 {
        push_str(out, "        <rect x=\"");
        push_decimal(out, x);
        push_str(out, "\" y=\"0\" width=\"");
        push_decimal(out, 1000 - x);
        push_str(out, "\" height=\"40\" fill=\"var(--color-muted)\"/>\n");
    }
    assert(out@ =~= start + bar_fill(x as nat));
}

#[verifier::spinoff_prover]
#[verifier::rlimit(40)]
fn write_bar_body(out: &mut String, pass: usize, fail: usize, warn: usize, skip: usize)
    requires
        pass + fail + warn + skip <= usize::MAX,
        pass + fail + warn + skip > 0,
    ensures
        final(out)@ == old(out)@ + bar_body(pass as nat, fail as nat, warn as nat, skip as nat),
{
    let t = (pass + fail + warn + skip) as u64;
    let ghost start = out@;
    let x1 = write_bar_segment(out, 0, pass as u64, t, "var(--color-pass)", "Pass");
    let ghost o1 = out@;
    let x2 = write_bar_segment(out, x1, fail as u64, t, "var(--color-fail)", "Fail");
    let ghost o2 = out@;
    let x3 = write_bar_segment(out, x2, warn as u64, t, "var(--color-warn)", "Warn");
    let ghost o3 = out@;
    let x4 = write_bar_segment(out, x3, skip as u64, t, "var(--color-muted)", "Skip");
    let ghost o4 = out@;
    write_bar_fill(out, x4);
    proof {
        let total = (pass + fail + warn + skip) as nat;
        let s1 = bar_segment(0, pass as nat, total, "var(--color-pass)"@, "Pass"@);
        let s2 = bar_segment(s1.1, fail as nat, total, "var(--color-fail)"@, "Fail"@);
        let s3 = bar_segment(s2.1, warn as nat, total, "var(--color-warn)"@, "Warn"@);
        let s4 = bar_segment(s3.1, skip as nat, total, "var(--color-muted)"@, "Skip"@);
        assert(o1 == start + s1.0);
        assert(o2 == o1 + s2.0);
        assert(o3 == o2 + s3.0);
        assert(o4 == o3 + s4.0);
        assert(out@ == o4 + bar_fill(s4.1));
        assert(out@ =~= start + (s1.0 + s2.0 + s3.0 + s4.0 + bar_fill(s4.1)));
    }
}

/// Appends the verdict bar (see `bar_chart`).
pub fn write_bar_chart(out: &mut String, pass: usize, fail: usize, warn: usize, skip: usize)
    requires
        pass + fail + warn + skip <= usize::MAX,
    ensures
        final(out)@ == old(out)@ + bar_chart(pass as nat, fail as nat, warn as nat, skip as nat),
{
    let total = pass + fail + warn + skip;
    if total == 0 {
        assert(out@ =~= old(out)@ + bar_chart(pass as nat, fail as nat, warn as nat, skip as nat));
        return;
    }
    let ghost start = out@;
    write_bar_header(out, pass, fail, warn, skip);
    write_bar_body(out, pass, fail, warn, skip);
    push_str(out, "    </svg>\n");
    assert(out@ =~= start + bar_chart(pass as nat, fail as nat, warn as nat, skip as nat));
}

/// `(2 * n + d) / (2 * d)` is `n / d` rounded half up.
proof fn lemma_round_half_up(n: int, d: int)
    requires
        0 <= n,
        0 < d,
    ensures
        2 * d * ((2 * n + d) / (2 * d)) <= 2 * n + d,
        2 * n + d < 2 * d * ((2 * n + d) / (2 * d)) + 2 * d,
        (2 * n + d) / (2 * d) >= 0,
{
    let x = 2 * n + d;
    let dd = 2 * d;
    vstd::arithmetic::div_mod::lemma_fundamental_div_mod(x, dd);
    vstd::arithmetic::div_mod::lemma_mod_pos_bound(x, dd);
    assert(x / dd >= 0) by (nonlinear_arith)
        requires
            x >= 0,
            dd > 0,
    ;
}

/// Where the segments of the verdict bar end: the sum of their widths.
pub open spec fn bar_end(pass: nat, fail: nat, warn: nat, skip: nat) -> nat {
    let t = pass + fail + warn + skip;
    segment_width(pass, t) + segment_width(fail, t) + segment_width(warn, t) + segment_width(skip, t)
}

/// A segment of the verdict bar is as wide as `segment_width` says (nothing
/// for a zero count), and the next one starts where it ends.
proof fn lemma_bar_segment_end(x: nat, count: nat, total: nat, color: Seq<char>, label: Seq<char>)
    requires
        total > 0,
    ensures
        bar_segment(x, count, total, color, label).1 == x + segment_width(count, total),
        count == 0 ==> bar_segment(x, count, total, color, label).0 == Seq::<char>::empty(),
{
    if count == 0 {
        assert(total / (2 * total) == 0) by (nonlinear_arith)
            requires
                total > 0,
        ;
    }
}

/// The layout of the verdict bar. Nothing is drawn when there is no check.
/// Otherwise, after the `<svg>` tag, the pass, fail, warn and skip
/// segments follow in that order, each starting where the previous one
/// ends (at the running sum of the widths) and each `1000 * count / total`
/// wide, rounded half up; a zero count draws nothing. When the widths add
/// up to less than 1000, a muted rectangle fills the bar to its end.
#[verifier::spinoff_prover]
#[verifier::rlimit(40)]
pub proof fn law_bar_chart_layout(pass: nat, fail: nat, warn: nat, skip: nat)
    ensures
        pass + fail + warn + skip == 0 ==> bar_chart(pass, fail, warn, skip) == Seq::<char>::empty(),
        pass + fail + warn + skip > 0 ==> {
            let t = pass + fail + warn + skip;
            let x1 = segment_width(pass, t);
            let x2 = x1 + segment_width(fail, t);
            let x3 = x2 + segment_width(warn, t);
            &&& bar_chart(pass, fail, warn, skip) == bar_header(pass, fail, warn, skip)
                + bar_segment(0, pass, t, "var(--color-pass)"@, "Pass"@).0
                + bar_segment(x1, fail, t, "var(--color-fail)"@, "Fail"@).0
                + bar_segment(x2, warn, t, "var(--color-warn)"@, "Warn"@).0
                + bar_segment(x3, skip, t, "var(--color-muted)"@, "Skip"@).0
                + bar_fill(bar_end(pass, fail, warn, skip)) + "    </svg>\n"@
            &&& x3 + segment_width(skip, t) == bar_end(pass, fail, warn, skip)
            &&& forall|c: nat| #![trigger segment_width(c, t)]
                2 * t * segment_width(c, t) <= 2000 * c + t && 2000 * c < 2 * t * segment_width(c, t) + t
        },
        bar_fill(bar_end(pass, fail, warn, skip)).len() > 0 <==> bar_end(pass, fail, warn, skip) < 1000,
{
    let t = pass + fail + warn + skip;
    if t > 0 {
        let x1 = segment_width(pass, t);
        let x2 = x1 + segment_width(fail, t);
        let x3 = x2 + segment_width(warn, t);
        lemma_bar_segment_end(0, pass, t, "var(--color-pass)"@, "Pass"@);
        lemma_bar_segment_end(x1, fail, t, "var(--color-fail)"@, "Fail"@);
        lemma_bar_segment_end(x2, warn, t, "var(--color-warn)"@, "Warn"@);
        lemma_bar_segment_end(x3, skip, t, "var(--color-muted)"@, "Skip"@);
        assert forall|c: nat| #![trigger segment_width(c, t)]
            2 * t * segment_width(c, t) <= 2000 * c + t && 2000 * c < 2 * t * segment_width(c, t) + t by {
            lemma_round_half_up((1000 * c) as int, t as int);
        }
        let body = bar_body(pass, fail, warn, skip);
        assert(bar_chart(pass, fail, warn, skip) == bar_header(pass, fail, warn, skip) + body + "    </svg>\n"@);
    }
    let e = bar_end(pass, fail, warn, skip);
    if e < 1000 {
        reveal_strlit("        <rect x=\"");
        let head = "        <rect x=\""@;
        assert(head.len() > 0);
        assert(bar_fill(e).len() >= head.len());
    }
}

/// One count box of the summary.
pub open spec fn count_box(class: Seq<char>, count: nat, label: Seq<char>) -> Seq<char> {
    "        <div class=\"count "@ + class + "\"><span class=\"value\">"@ + decimal(count)
        + "</span><span class=\"label\">"@ + label + "</span></div>\n"@
}

/// The summary section: the four count boxes and the verdict bar.
#[verifier::opaque]
pub open spec fn summary_section(pass: nat, fail: nat, warn: nat, skip: nat) -> Seq<char> {
    "<section>\n    <h2>Summary</h2>\n    <div class=\"counts\">\n"@ + count_box("pass"@, pass, "Pass"@)
        + count_box("fail"@, fail, "Fail"@) + count_box("warn"@, warn, "Warn"@) + count_box(
        "skip"@,
        skip,
        "Skip"@,
    ) + "    </div>\n"@ + bar_chart(pass, fail, warn, skip) + "</section>\n"@
}

fn write_count_box(out: &mut String, class: &str, count: usize, label: &str)
    ensures
        final(out)@ == old(out)@ + count_box(class@, count as nat, label@),
{
    let ghost start = out@;
    push_str(out, "        <div class=\"count ");
    push_str(out, class);
    push_str(out, "\"><span class=\"value\">");
    push_decimal(out, count as u64);
    push_str(out, "</span><span class=\"label\">");
    push_str(out, label);
    push_str(out, "</span></div>\n");
    assert(out@ =~= start + count_box(class@, count as nat, label@));
}

/// Appends the summary section (see `summary_section`).
pub fn write_summary_section(out: &mut String, pass: usize, fail: usize, warn: usize, skip: usize)
    requires
        pass + fail + warn + skip <= usize::MAX,
    ensures
        final(out)@ == old(out)@ + summary_section(pass as nat, fail as nat, warn as nat, skip as nat),
{
    reveal(summary_section);
    let ghost start = out@;
    push_str(out, "<section>\n    <h2>Summary</h2>\n    <div class=\"counts\">\n");
    write_count_box(out, "pass", pass, "Pass");
    write_count_box(out, "fail", fail, "Fail");
    write_count_box(out, "warn", warn, "Warn");
    write_count_box(out, "skip", skip, "Skip");
    push_str(out, "    </div>\n");
    write_bar_chart(out, pass, fail, warn, skip);
    push_str(out, "</section>\n");
    assert(out@ =~= start + summary_section(pass as nat, fail as nat, warn as nat, skip as nat));
}


// ---------------------------------------------------------------------------
// Duration distribution
// ---------------------------------------------------------------------------

/// The durations of the checks that have one, in order.
pub open spec fn check_durations(cs: Seq<CheckResult>) -> Seq<u64>
    decreases cs.len(),
{
    if cs.len() == 0 {
        Seq::empty()
    } else {
        let prev = check_durations(cs.drop_last());
        match cs.last().duration_ms {
            Some(d) => prev.push(d),
            None => prev,
        }
    }
}

/// Durations distribute over concatenation.
pub proof fn lemma_check_durations_add(a: Seq<CheckResult>, b: Seq<CheckResult>)
    ensures
        check_durations(a + b) == check_durations(a) + check_durations(b),
    decreases b.len(),
{
    if b.len() == 0 {
        assert(a + b =~= a);
        assert(check_durations(a) + check_durations(b) =~= check_durations(a));
    } else {
        assert((a + b).drop_last() =~= a + b.drop_last());
        lemma_check_durations_add(a, b.drop_last());
        match b.last().duration_ms {
            Some(d) => {
                assert(check_durations(a) + check_durations(b.drop_last()).push(d) =~= (
                check_durations(a) + check_durations(b.drop_last())).push(d));
            },
            None => {},
        }
    }
}

/// There are no more durations than checks.
pub proof fn lemma_check_durations_len(cs: Seq<CheckResult>)
    ensures
        check_durations(cs).len() <= cs.len(),
    decreases cs.len(),
{
    if cs.len() > 0 {
        lemma_check_durations_len(cs.drop_last());
    }
}

/// The smallest value of `ds` (0 for none).
pub open spec fn seq_min(ds: Seq<u64>) -> u64
    decreases ds.len(),
{
    if ds.len() == 0 {
        0
    } else if ds.len() == 1 {
        ds[0]
    } else {
        let m = seq_min(ds.drop_last());
        if ds.last() < m { ds.last() } else { m }
    }
}

/// The largest value of `ds` (0 for none).
pub open spec fn seq_max(ds: Seq<u64>) -> u64
    decreases ds.len(),
{
    if ds.len() == 0 {
        0
    } else if ds.len() == 1 {
        ds[0]
    } else {
        let m = seq_max(ds.drop_last());
        if ds.last() > m { ds.last() } else { m }
    }
}

/// `seq_min` and `seq_max` bound every value.
pub proof fn lemma_min_max_bound(ds: Seq<u64>)
    ensures
        forall|i: int| 0 <= i < ds.len() ==> seq_min(ds) <= #[trigger] ds[i] <= seq_max(ds),
    decreases ds.len(),
{
    if ds.len() > 1 {
        lemma_min_max_bound(ds.drop_last());
        assert forall|i: int| 0 <= i < ds.len() implies seq_min(ds) <= #[trigger] ds[i] <= seq_max(ds) by {
            if i < ds.len() - 1 {
                assert(ds[i] == ds.drop_last()[i]);
            }
        }
    }
}

/// Histogram bucket (0..=9) of `d` over `[lo, hi]`: `10 * (d - lo) / (hi - lo)`
/// rounded down and capped at 9; every value falls in bucket 0 when `lo == hi`.
pub open spec fn bucket_of(d: u64, lo: u64, hi: u64) -> nat {
    if hi == lo {
        0
    } else {
        let b = ((10 * (d - lo)) / ((hi - lo) as int)) as nat;
        if b > 9 { 9 } else { b }
    }
}

/// Bucket indices follow the durations: a longer duration never falls in
/// an earlier bucket, `lo` falls in the first bucket and, when `lo < hi`,
/// `hi` in the last.
pub proof fn law_bucket_order(d1: u64, d2: u64, lo: u64, hi: u64)
    requires
        lo <= d1 <= d2,
        lo <= hi,
    ensures
        bucket_of(d1, lo, hi) <= bucket_of(d2, lo, hi),
        bucket_of(lo, lo, hi) == 0,
        lo < hi ==> bucket_of(hi, lo, hi) == 9,
        lo == hi ==> bucket_of(d1, lo, hi) == 0,
{
    if hi != lo {
        let s: int = hi - lo;
        let a: int = 10 * (d1 - lo);
        let b: int = 10 * (d2 - lo);
        assert(a / s <= b / s) by (nonlinear_arith)
            requires
                0 <= a <= b,
                s > 0,
        ;
        assert(0int / s == 0) by (nonlinear_arith)
            requires
                s > 0,
        ;
        assert((10 * s) / s == 10) by (nonlinear_arith)
            requires
                s > 0,
        ;
    }
}

/// Number of values of `ds` in bucket `k`.
pub open spec fn bucket_count(ds: Seq<u64>, lo: u64, hi: u64, k: nat) -> nat
    decreases ds.len(),
{
    if ds.len() == 0 {
        0
    } else {
        bucket_count(ds.drop_last(), lo, hi, k) + (if bucket_of(ds.last(), lo, hi) == k { 1nat } else { 0nat })
    }
}

/// A bucket never holds more values than there are.
pub proof fn lemma_bucket_count_le(ds: Seq<u64>, lo: u64, hi: u64, k: nat)
    ensures
        bucket_count(ds, lo, hi, k) <= ds.len(),
    decreases ds.len(),
{
    if ds.len() > 0 {
        lemma_bucket_count_le(ds.drop_last(), lo, hi, k);
    }
}

/// Number of values of `ds` in buckets `0..k`.
pub open spec fn bucket_total(ds: Seq<u64>, lo: u64, hi: u64, k: nat) -> nat
    decreases k,
{
    if k == 0 {
        0
    } else {
        bucket_total(ds, lo, hi, (k - 1) as nat) + bucket_count(ds, lo, hi, (k - 1) as nat)
    }
}

/// Adding one value adds one to the buckets at or above its own.
proof fn lemma_bucket_total_push(ds: Seq<u64>, d: u64, lo: u64, hi: u64, k: nat)
    ensures
        bucket_total(ds.push(d), lo, hi, k) == bucket_total(ds, lo, hi, k) + (if bucket_of(d, lo, hi) < k { 1nat } else { 0nat }),
    decreases k,
{
    if k > 0 {
        lemma_bucket_total_push(ds, d, lo, hi, (k - 1) as nat);
        assert(ds.push(d).drop_last() =~= ds);
    }
}

/// Every duration falls in exactly one of the ten histogram buckets: the
/// bucket counts add up to the number of durations.
pub proof fn law_buckets_partition(ds: Seq<u64>, lo: u64, hi: u64)
    ensures
        bucket_total(ds, lo, hi, 10) == ds.len(),
    decreases ds.len(),
{
    if ds.len() == 0 {
        assert(forall|k: nat| #[trigger] bucket_count(ds, lo, hi, k) == 0);
        assert(bucket_total(ds, lo, hi, 10) == 0) by {
            reveal_with_fuel(bucket_total, 11);
        }
    } else {
        let pre = ds.drop_last();
        law_buckets_partition(pre, lo, hi);
        assert(pre.push(ds.last()) =~= ds);
        lemma_bucket_total_push(pre, ds.last(), lo, hi, 10);
    }
}

/// The largest count among buckets `0..k`, and at least 1.
pub open spec fn max_bin_upto(ds: Seq<u64>, lo: u64, hi: u64, k: nat) -> nat
    decreases k,
{
    if k == 0 {
        1
    } else {
        let m = max_bin_upto(ds, lo, hi, (k - 1) as nat);
        let c = bucket_count(ds, lo, hi, (k - 1) as nat);
        if c > m { c } else { m }
    }
}

/// The tallest bucket bounds every bucket among the first `k`.
pub proof fn lemma_max_bin(ds: Seq<u64>, lo: u64, hi: u64, k: nat)
    ensures
        max_bin_upto(ds, lo, hi, k) >= 1,
        forall|j: nat| j < k ==> #[trigger] bucket_count(ds, lo, hi, j) <= max_bin_upto(ds, lo, hi, k),
        max_bin_upto(ds, lo, hi, k) <= if ds.len() >= 1 { ds.len() } else { 1 },
    decreases k,
{
    if k > 0 {
        lemma_max_bin(ds, lo, hi, (k - 1) as nat);
        lemma_bucket_count_le(ds, lo, hi, (k - 1) as nat);
    }
}

/// Height of a bucket's bar: `150 * bin / max_bin`, rounded half up.
pub open spec fn bar_height(bin: nat, max_bin: nat) -> nat {
    ((300 * bin + max_bin) / (2 * max_bin)) as nat
}

/// Lower bound of bucket `i` in milliseconds.
pub open spec fn bucket_lo(lo: u64, hi: u64, i: nat) -> nat {
    if hi == lo { lo as nat } else { (lo + ((hi - lo) * i) / 10) as nat }
}

/// Upper bound of bucket `i` in milliseconds.
pub open spec fn bucket_hi(lo: u64, hi: u64, i: nat) -> nat {
    if hi == lo { hi as nat } else { (lo + ((hi - lo) * (i + 1)) / 10) as nat }
}

/// The bar of bucket `i`, holding `bin` values, the tallest holding `mb`.
pub open spec fn histogram_bar(i: nat, bin: nat, mb: nat, lo: u64, hi: u64) -> Seq<char> {
    let h = bar_height(bin, mb);
    "        <rect x=\""@ + decimal(i * 100 + 1) + "\" y=\""@ + decimal((160 - h) as nat)
        + "\" width=\"98\" height=\""@ + decimal(h) + "\" fill=\"var(--color-accent)\"><title>"@
        + decimal(bucket_lo(lo, hi, i)) + "\u{2013}"@ + decimal(bucket_hi(lo, hi, i)) + " ms — "@
        + decimal(bin) + " sample"@ + plural(bin) + "</title></rect>\n"@
}

/// The bars of buckets `0..k`.
pub open spec fn histogram_bars(ds: Seq<u64>, lo: u64, hi: u64, k: nat) -> Seq<char>
    decreases k,
{
    if k == 0 {
        Seq::empty()
    } else {
        histogram_bars(ds, lo, hi, (k - 1) as nat) + histogram_bar(
            (k - 1) as nat,
            bucket_count(ds, lo, hi, (k - 1) as nat),
            max_bin_upto(ds, lo, hi, 10),
            lo,
            hi,
        )
    }
}

/// The ten-bucket histogram of `ds` over `[lo, hi]` as an SVG.
pub open spec fn histogram(ds: Seq<u64>, lo: u64, hi: u64) -> Seq<char> {
    "    <svg class=\"histogram\" viewBox=\"0 0 1000 160\" preserveAspectRatio=\"none\" aria-label=\"Histogram of check durations\">\n"@
        + histogram_bars(ds, lo, hi, 10) + "    </svg>\n"@
}

/// With every bucket among `0..k` empty, those buckets hold no value.
proof fn lemma_bucket_total_empty(ds: Seq<u64>, lo: u64, hi: u64, k: nat)
    requires
        forall|j: nat| j < k ==> #[trigger] bucket_count(ds, lo, hi, j) == 0,
    ensures
        bucket_total(ds, lo, hi, k) == 0,
    decreases k,
{
    if k > 0 {
        lemma_bucket_total_empty(ds, lo, hi, (k - 1) as nat);
    }
}

/// The tallest bucket among `0..k` is one of them, unless the floor of 1
/// is taller than all.
proof fn lemma_max_bin_attained(ds: Seq<u64>, lo: u64, hi: u64, k: nat)
    ensures
        max_bin_upto(ds, lo, hi, k) == 1 || exists|j: nat|
            j < k && #[trigger] bucket_count(ds, lo, hi, j) == max_bin_upto(ds, lo, hi, k),
    decreases k,
{
    if k > 0 {
        lemma_max_bin_attained(ds, lo, hi, (k - 1) as nat);
    }
}

/// The histogram's bars are drawn to the scale of the fullest bucket: its
/// bar is 150 high, and the bar of a bucket holding `b` values is
/// `150 * b / mb` high, rounded half up, `mb` being the fullest bucket's
/// count (at least 1). The ten bucket counts add up to the number of values.
pub proof fn law_histogram_heights(ds: Seq<u64>, lo: u64, hi: u64)
    ensures
        bucket_total(ds, lo, hi, 10) == ds.len(),
        max_bin_upto(ds, lo, hi, 10) >= 1,
        forall|j: nat| j < 10 ==> #[trigger] bucket_count(ds, lo, hi, j) <= max_bin_upto(ds, lo, hi, 10),
        ds.len() > 0 ==> exists|j: nat|
            j < 10 && #[trigger] bucket_count(ds, lo, hi, j) == max_bin_upto(ds, lo, hi, 10),
        bar_height(max_bin_upto(ds, lo, hi, 10), max_bin_upto(ds, lo, hi, 10)) == 150,
        forall|b: nat| #![trigger bar_height(b, max_bin_upto(ds, lo, hi, 10))]
            b <= max_bin_upto(ds, lo, hi, 10) ==> {
                let mb = max_bin_upto(ds, lo, hi, 10);
                let h = bar_height(b, mb);
                &&& h <= 150
                &&& 2 * mb * h <= 300 * b + mb
                &&& 300 * b < 2 * mb * h + mb
            },
{
    let mb = max_bin_upto(ds, lo, hi, 10);
    law_buckets_partition(ds, lo, hi);
    lemma_max_bin(ds, lo, hi, 10);
    lemma_max_bin_attained(ds, lo, hi, 10);
    if ds.len() > 0 && !(exists|j: nat| j < 10 && #[trigger] bucket_count(ds, lo, hi, j) == mb) {
        assert forall|j: nat| j < 10 implies #[trigger] bucket_count(ds, lo, hi, j) == 0 by {
            if bucket_count(ds, lo, hi, j) != 0 {
                assert(bucket_count(ds, lo, hi, j) <= mb);
            }
        }
        lemma_bucket_total_empty(ds, lo, hi, 10);
    }
    assert forall|b: nat| #![trigger bar_height(b, mb)] b <= mb implies {
        let h = bar_height(b, mb);
        &&& h <= 150
        &&& 2 * mb * h <= 300 * b + mb
        &&& 300 * b < 2 * mb * h + mb
    } by {
        lemma_round_half_up((150 * b) as int, mb as int);
        let h = bar_height(b, mb);
        assert(h <= 150) by (nonlinear_arith)
            requires
                2 * mb * h <= 300 * b + mb,
                b <= mb,
                mb >= 1,
        ;
    }
    lemma_round_half_up((150 * mb) as int, mb as int);
    let h = bar_height(mb, mb);
    assert(h == 150) by (nonlinear_arith)
        requires
            2 * mb * h <= 300 * mb + mb,
            300 * mb + mb < 2 * mb * h + 2 * mb,
            mb >= 1,
    ;
}

/// The values fit the histogram: none below `lo`, and `lo <= hi` (a value
/// above `hi` falls in the last bucket).
pub open spec fn histogram_ok(ds: Seq<u64>, lo: u64, hi: u64) -> bool {
    &&& lo <= hi
    &&& forall|i: int| 0 <= i < ds.len() ==> lo <= #[trigger] ds[i]
}

fn bar_height_exec(bin: u64, mb: u64) -> (h: u64)
    requires
        1 <= mb,
        bin <= mb,
    ensures
        h == bar_height(bin as nat, mb as nat),
        h <= 150,
{
    let h128: u128 = (300 * (bin as u128) + (mb as u128)) / (2 * (mb as u128));
    assert(h128 <= 150) by (nonlinear_arith)
        requires
            h128 == (300 * (bin as u128) + (mb as u128)) / (2 * (mb as u128)),
            bin <= mb,
            mb >= 1,
    ;
    h128 as u64
}

fn bucket_bounds(i: u64, lo: u64, hi: u64) -> (r: (u64, u64))
    requires
        i < 10,
        lo <= hi,
    ensures
        r.0 == bucket_lo(lo, hi, i as nat),
        r.1 == bucket_hi(lo, hi, i as nat),
{
    if hi == lo {
        (lo, hi)
    } else {
        let span: u128 = (hi - lo) as u128;
        let i128: u128 = i as u128;
        assert(span * i128 <= span * 10 && span * (i128 + 1) <= span * 10) by (nonlinear_arith)
            requires
                i128 < 10,
        ;
        let a: u128 = span * i128 / 10;
        let b: u128 = span * (i128 + 1) / 10;
        assert(a <= span && b <= span) by (nonlinear_arith)
            requires
                a == span * i128 / 10,
                b == span * (i128 + 1) / 10,
                i128 < 10,
        ;
        (lo + a as u64, lo + b as u64)
    }
}

#[verifier::spinoff_prover]
fn write_histogram_bar(out: &mut String, i: u64, bin: u64, mb: u64, lo: u64, hi: u64)
    requires
        i < 10,
        1 <= mb,
        bin <= mb,
        lo <= hi,
    ensures
        final(out)@ == old(out)@ + histogram_bar(i as nat, bin as nat, mb as nat, lo, hi),
{
    let h = bar_height_exec(bin, mb);
    let (blo, bhi) = bucket_bounds(i, lo, hi);
    let ghost start = out@;
    push_str(out, "        <rect x=\"");
    push_decimal(out, i * 100 + 1);
    push_str(out, "\" y=\"");
    push_decimal(out, 160 - h);
    push_str(out, "\" width=\"98\" height=\"");
    push_decimal(out, h);
    push_str(out, "\" fill=\"var(--color-accent)\"><title>");
    push_decimal(out, blo);
    push_str(out, "\u{2013}");
    push_decimal(out, bhi);
    push_str(out, " ms — ");
    push_decimal(out, bin);
    push_str(out, " sample");
    push_plural(out, bin);
    push_str(out, "</title></rect>\n");
    assert(out@ =~= start + histogram_bar(i as nat, bin as nat, mb as nat, lo, hi));
}

fn bucket_exec(d: u64, lo: u64, hi: u64) -> (b: usize)
    requires
        lo <= d,
        lo <= hi,
    ensures
        b == bucket_of(d, lo, hi),
        b < 10,
{
    if hi == lo {
        0
    } else {
        let q: u128 = (10 * ((d - lo) as u128)) / ((hi - lo) as u128);
        if q > 9 {
            9
        } else {
            q as usize
        }
    }
}

/// Appends the histogram of `ds` (see `histogram`).
pub fn write_histogram(out: &mut String, ds: &[u64], lo: u64, hi: u64)
    requires
        histogram_ok(ds@, lo, hi),
    ensures
        final(out)@ == old(out)@ + histogram(ds@, lo, hi),
{
    let mut bins: Vec<u64> = Vec::new();
    let mut k: usize = 0;
    while k < 10
        invariant
            0 <= k <= 10,
            bins@.len() == k,
            forall|j: int| 0 <= j < k ==> bins@[j] == 0,
        decreases 10 - k,
    {
        bins.push(0);
        k = k + 1;
    }
    let mut i: usize = 0;
    while i < ds.len()
        invariant
            0 <= i <= ds@.len(),
            histogram_ok(ds@, lo, hi),
            bins@.len() == 10,
            forall|j: int|
                0 <= j < 10 ==> #[trigger] bins@[j] == bucket_count(
                    ds@.subrange(0, i as int),
                    lo,
                    hi,
                    j as nat,
                ),
        decreases ds@.len() - i,
    {
        let d = ds[i];
        let b = bucket_exec(d, lo, hi);
        proof {
            let t = ds@.subrange(0, i as int + 1);
            assert(t.drop_last() =~= ds@.subrange(0, i as int));
            lemma_bucket_count_le(ds@.subrange(0, i as int), lo, hi, b as nat);
        }
        let c = bins[b];
        bins.set(b, c + 1);
        i = i + 1;
    }
    assert(ds@.subrange(0, ds@.len() as int) =~= ds@);
    let mut mb: u64 = 1;
    let mut k: usize = 0;
    while k < 10
        invariant
            0 <= k <= 10,
            bins@.len() == 10,
            forall|j: int| 0 <= j < 10 ==> #[trigger] bins@[j] == bucket_count(ds@, lo, hi, j as nat),
            mb == max_bin_upto(ds@, lo, hi, k as nat),
        decreases 10 - k,
    {
        if bins[k] > mb {
            mb = bins[k];
        }
        k = k + 1;
    }
    proof {
        lemma_max_bin(ds@, lo, hi, 10);
    }
    let ghost start = out@;
    push_str(
        out,
        "    <svg class=\"histogram\" viewBox=\"0 0 1000 160\" preserveAspectRatio=\"none\" aria-label=\"Histogram of check durations\">\n",
    );
    let ghost head = out@;
    let mut k: usize = 0;
    while k < 10
        invariant
            0 <= k <= 10,
            bins@.len() == 10,
            histogram_ok(ds@, lo, hi),
            forall|j: int| 0 <= j < 10 ==> #[trigger] bins@[j] == bucket_count(ds@, lo, hi, j as nat),
            mb == max_bin_upto(ds@, lo, hi, 10),
            mb >= 1,
            forall|j: nat| j < 10 ==> #[trigger] bucket_count(ds@, lo, hi, j) <= mb,
            out@ == head + histogram_bars(ds@, lo, hi, k as nat),
        decreases 10 - k,
    {
        assert(bins@[k as int] == bucket_count(ds@, lo, hi, k as nat));
        write_histogram_bar(out, k as u64, bins[k], mb, lo, hi);
        k = k + 1;
    }
    push_str(out, "    </svg>\n");
    assert(out@ =~= start + histogram(ds@, lo, hi));
}


/// The durations of every check of every report, in order.
pub open spec fn report_durations(reports: Seq<Report>) -> Seq<u64> {
    check_durations(all_checks(reports))
}

/// Collects the durations of every check of every report, in order.
pub fn collect_durations(reports: &Vec<Report>) -> (r: Vec<u64>)
    ensures
        r@ == report_durations(reports@),
{
    let mut v: Vec<u64> = Vec::new();
    let mut i: usize = 0;
    while i < reports.len()
        invariant
            0 <= i <= reports@.len(),
            v@ == check_durations(all_checks(reports@.subrange(0, i as int))),
        decreases reports@.len() - i,
    {
        let checks = &reports[i].checks;
        let ghost pre = all_checks(reports@.subrange(0, i as int));
        let mut j: usize = 0;
        proof {
            assert(pre + checks@.subrange(0, 0) =~= pre);
        }
        while j < checks.len()
            invariant
                0 <= j <= checks@.len(),
                v@ == check_durations(pre + checks@.subrange(0, j as int)),
            decreases checks@.len() - j,
        {
            proof {
                assert((pre + checks@.subrange(0, j as int + 1)).drop_last() =~= pre
                    + checks@.subrange(0, j as int));
            }
            match checks[j].duration_ms {
                Some(d) => v.push(d),
                None => {},
            }
            j = j + 1;
        }
        proof {
            let nxt = reports@.subrange(0, i as int + 1);
            assert(nxt.drop_last() =~= reports@.subrange(0, i as int));
            assert(checks@.subrange(0, checks@.len() as int) =~= checks@);
        }
        i = i + 1;
    }
    assert(reports@.subrange(0, reports@.len() as int) =~= reports@);
    v
}

/// Smallest and largest of a non-empty sequence of durations.
pub fn min_max(ds: &[u64]) -> (r: (u64, u64))
    requires
        ds@.len() > 0,
    ensures
        r.0 == seq_min(ds@),
        r.1 == seq_max(ds@),
{
    let mut lo = ds[0];
    let mut hi = ds[0];
    let mut i: usize = 1;
    assert(ds@.subrange(0, 1).drop_last() =~= Seq::<u64>::empty());
    while i < ds.len()
        invariant
            1 <= i <= ds@.len(),
            lo == seq_min(ds@.subrange(0, i as int)),
            hi == seq_max(ds@.subrange(0, i as int)),
        decreases ds@.len() - i,
    {
        assert(ds@.subrange(0, i as int + 1).drop_last() =~= ds@.subrange(0, i as int));
        if ds[i] < lo {
            lo = ds[i];
        }
        if ds[i] > hi {
            hi = ds[i];
        }
        i = i + 1;
    }
    assert(ds@.subrange(0, ds@.len() as int) =~= ds@);
    (lo, hi)
}


/// The duration section: sample count, minimum, maximum and the histogram;
/// nothing when no check has a duration.
#[verifier::opaque]
pub open spec fn duration_section(ds: Seq<u64>) -> Seq<char> {
    if ds.len() == 0 {
        Seq::empty()
    } else {
        let lo = seq_min(ds);
        let hi = seq_max(ds);
        "<section>\n    <h2>Duration distribution</h2>\n"@
            + "    <div class=\"subtitle\" style=\"color:var(--color-muted);font-size:.85rem;margin-bottom:.5rem\">"@
            + decimal(ds.len()) + " sample"@ + plural(ds.len()) + ", "@ + decimal(lo as nat)
            + " ms min, "@ + decimal(hi as nat) + " ms max</div>\n"@ + histogram(ds, lo, hi)
            + "</section>\n"@
    }
}

/// The checks have no duration exactly when no check carries one.
proof fn lemma_check_durations_empty(cs: Seq<CheckResult>)
    ensures
        (check_durations(cs).len() == 0) <==> (forall|i: int| 0 <= i < cs.len() ==> (#[trigger] cs[i]).duration_ms is None),
    decreases cs.len(),
{
    if cs.len() > 0 {
        let pre = cs.drop_last();
        lemma_check_durations_empty(pre);
        if forall|i: int| 0 <= i < cs.len() ==> (#[trigger] cs[i]).duration_ms is None {
            assert forall|i: int| 0 <= i < pre.len() implies (#[trigger] pre[i]).duration_ms is None by {
                assert(pre[i] == cs[i]);
            }
            assert(cs[cs.len() - 1].duration_ms is None);
        } else {
            let i = choose|i: int| 0 <= i < cs.len() && !((#[trigger] cs[i]).duration_ms is None);
            if i < cs.len() - 1 {
                assert(pre[i] == cs[i]);
            }
        }
    }
}

/// The duration section appears exactly when at least one check carries a
/// duration.
pub proof fn law_duration_section_presence(cs: Seq<CheckResult>)
    ensures
        (duration_section(check_durations(cs)).len() > 0) <==> (exists|i: int| 0 <= i < cs.len() && (#[trigger] cs[i]).duration_ms is Some),
{
    lemma_check_durations_empty(cs);
    reveal(duration_section);
    let ds = check_durations(cs);
    if ds.len() > 0 {
        let head = "<section>\n    <h2>Duration distribution</h2>\n"@;
        reveal_strlit("<section>\n    <h2>Duration distribution</h2>\n");
        assert(head.len() > 0);
        let sec = duration_section(ds);
        assert(sec.subrange(0, head.len() as int) =~= head);
    } else {
        assert(duration_section(ds).len() == 0);
    }
    if exists|i: int| 0 <= i < cs.len() && (#[trigger] cs[i]).duration_ms is Some {
        let i = choose|i: int| 0 <= i < cs.len() && (#[trigger] cs[i]).duration_ms is Some;
        assert(!(cs[i].duration_ms is None));
    }
}

/// Appends the duration section for `ds` (see `duration_section`).
#[verifier::spinoff_prover]
pub fn write_duration_section(out: &mut String, ds: &[u64])
    ensures
        final(out)@ == old(out)@ + duration_section(ds@),
{
    reveal(duration_section);
    if ds.len() == 0 {
        assert(out@ =~= old(out)@ + duration_section(ds@));
        return;
    }
    let (lo, hi) = min_max(ds);
    proof {
        lemma_min_max_bound(ds@);
    }
    let n = ds.len() as u64;
    let ghost start = out@;
    push_str(out, "<section>\n    <h2>Duration distribution</h2>\n");
    push_str(
        out,
        "    <div class=\"subtitle\" style=\"color:var(--color-muted);font-size:.85rem;margin-bottom:.5rem\">",
    );
    push_decimal(out, n);
    push_str(out, " sample");
    push_plural(out, n);
    push_str(out, ", ");
    push_decimal(out, lo);
    push_str(out, " ms min, ");
    push_decimal(out, hi);
    push_str(out, " ms max</div>\n");
    write_histogram(out, ds, lo, hi);
    push_str(out, "</section>\n");
    assert(out@ =~= start + duration_section(ds@));
}

// ---------------------------------------------------------------------------
// Per-producer reports
// ---------------------------------------------------------------------------

/// CSS class of a verdict in the check table.
pub open spec fn verdict_class(v: Verdict) -> Seq<char> {
    match v {
        Verdict::Pass => "pass"@,
        Verdict::Fail => "fail"@,
        Verdict::Warn => "warn"@,
        Verdict::Skip => "skip"@,
    }
}

fn verdict_class_str(v: Verdict) -> (r: &'static str)
    ensures
        r@ == verdict_class(v),
{
    match v {
        Verdict::Pass => "pass",
        Verdict::Fail => "fail",
        Verdict::Warn => "warn",
        Verdict::Skip => "skip",
    }
}

/// The opening of a row: name and verdict cells, and the severity cell's tag.
pub open spec fn row_open(c: CheckResult) -> Seq<char> {
    "                    <tr>\n"@ + "                        <td>"@ + escape_html(c.name@) + "</td>\n"@
        + "                        <td class=\"verdict "@ + verdict_class(c.verdict) + "\">"@
        + verdict_label(c.verdict) + "</td>\n"@ + "                        <td class=\"severity\">"@
}

/// The severity cell's content, and the duration cell's tag.
pub open spec fn severity_cell(s: Option<Severity>) -> Seq<char> {
    (match s {
        Some(s) => severity_label(s),
        None => "—"@,
    }) + "</td>\n                        <td class=\"duration\">"@
}

/// The duration cell's content, and the detail cell's tag.
pub open spec fn duration_cell(d: Option<u64>) -> Seq<char> {
    (match d {
        Some(ms) => decimal(ms as nat) + " ms"@,
        None => "—"@,
    }) + "</td>\n                        <td class=\"detail\">"@
}

/// The detail cell's content, closing the row.
pub open spec fn detail_cell(d: Option<String>) -> Seq<char> {
    (match d {
        Some(d) => escape_html(d@),
        None => "<span class=\"empty\">—</span>"@,
    }) + "</td>\n                    </tr>\n"@
}

/// One row of the check table: name, verdict, severity, duration and
/// detail; a dash for a missing severity, duration or detail.
pub open spec fn check_row(c: CheckResult) -> Seq<char> {
    row_open(c) + severity_cell(c.severity) + duration_cell(c.duration_ms) + detail_cell(c.detail)
}

/// The rows of a sequence of checks, in order.
pub open spec fn check_rows(cs: Seq<CheckResult>) -> Seq<char>
    decreases cs.len(),
{
    if cs.len() == 0 {
        Seq::empty()
    } else {
        check_rows(cs.drop_last()) + check_row(cs.last())
    }
}

/// The check table of a report.
pub open spec fn check_table(cs: Seq<CheckResult>) -> Seq<char> {
    "            <table class=\"checks\">\n"@
        + "                <thead><tr><th>Check</th><th>Verdict</th><th>Severity</th><th>Duration</th><th>Detail</th></tr></thead>\n"@
        + "                <tbody>\n"@ + check_rows(cs) + "                </tbody>\n            </table>\n"@
}

#[verifier::spinoff_prover]
fn write_row_open(out: &mut String, c: &CheckResult)
    ensures
        final(out)@ == old(out)@ + row_open(*c),
{
    let ghost start = out@;
    push_str(out, "                    <tr>\n");
    push_str(out, "                        <td>");
    write_html_text(out, c.name.as_str());
    push_str(out, "</td>\n");
    push_str(out, "                        <td class=\"verdict ");
    push_str(out, verdict_class_str(c.verdict));
    push_str(out, "\">");
    push_str(out, verdict_label_str(c.verdict));
    push_str(out, "</td>\n");
    push_str(out, "                        <td class=\"severity\">");
    assert(out@ =~= start + row_open(*c));
}

fn write_severity_cell(out: &mut String, s: Option<Severity>)
    ensures
        final(out)@ == old(out)@ + severity_cell(s),
{
    let ghost start = out@;
    match s {
        Some(s) => push_str(out, severity_label_str(s)),
        None => push_str(out, "—"),
    }
    push_str(out, "</td>\n                        <td class=\"duration\">");
    assert(out@ =~= start + severity_cell(s));
}

fn write_duration_cell(out: &mut String, d: Option<u64>)
    ensures
        final(out)@ == old(out)@ + duration_cell(d),
{
    let ghost start = out@;
    match d {
        Some(ms) => {
            push_decimal(out, ms);
            push_str(out, " ms");
        },
        None => push_str(out, "—"),
    }
    push_str(out, "</td>\n                        <td class=\"detail\">");
    assert(out@ =~= start + duration_cell(d));
}

fn write_detail_cell(out: &mut String, d: &Option<String>)
    ensures
        final(out)@ == old(out)@ + detail_cell(*d),
{
    let ghost start = out@;
    match d {
        Some(d) => write_html_text(out, d.as_str()),
        None => push_str(out, "<span class=\"empty\">—</span>"),
    }
    push_str(out, "</td>\n                    </tr>\n");
    assert(out@ =~= start + detail_cell(*d));
}

/// Appends the row of `c` (see `check_row`).
pub fn write_check_row(out: &mut String, c: &CheckResult)
    ensures
        final(out)@ == old(out)@ + check_row(*c),
{
    let ghost start = out@;
    write_row_open(out, c);
    write_severity_cell(out, c.severity);
    write_duration_cell(out, c.duration_ms);
    write_detail_cell(out, &c.detail);
    assert(out@ =~= start + check_row(*c));
}

/// Appends the check table of `checks` (see `check_table`).
pub fn write_check_table(out: &mut String, checks: &[CheckResult])
    ensures
        final(out)@ == old(out)@ + check_table(checks@),
{
    let ghost start = out@;
    push_str(out, "            <table class=\"checks\">\n");
    push_str(
        out,
        "                <thead><tr><th>Check</th><th>Verdict</th><th>Severity</th><th>Duration</th><th>Detail</th></tr></thead>\n",
    );
    push_str(out, "                <tbody>\n");
    let ghost head = out@;
    let mut i: usize = 0;
    while i < checks.len()
        invariant
            0 <= i <= checks@.len(),
            out@ == head + check_rows(checks@.subrange(0, i as int)),
        decreases checks@.len() - i,
    {
        assert(checks@.subrange(0, i as int + 1).drop_last() =~= checks@.subrange(0, i as int));
        write_check_row(out, &checks[i]);
        i = i + 1;
        assert(out@ =~= head + check_rows(checks@.subrange(0, i as int)));
    }
    assert(checks@.subrange(0, checks@.len() as int) =~= checks@);
    push_str(out, "                </tbody>\n            </table>\n");
    assert(out@ =~= start + check_table(checks@));
}

/// The name shown for a report's producer.
pub open spec fn producer_label(r: Report) -> Seq<char> {
    match r.producer {
        Some(p) => p@,
        None => "(unnamed producer)"@,
    }
}

/// ` open` when the checks hold a failure or a warning, else nothing: such a
/// producer's `<details>` is open by default.
pub open spec fn open_attr(cs: Seq<CheckResult>) -> Seq<char> {
    if count_verdict(cs, Verdict::Fail) > 0 || count_verdict(cs, Verdict::Warn) > 0 {
        " open"@
    } else {
        ""@
    }
}

/// The opening `<details>` tag of a producer's block.
pub open spec fn details_open(cs: Seq<CheckResult>) -> Seq<char> {
    "    <details class=\"producer\""@ + open_attr(cs) + ">\n"@
}

/// A producer's block is open by default exactly when the producer has a
/// failing or warning check, that is when its overall verdict is `Fail` or
/// `Warn`.
pub proof fn law_producer_open(cs: Seq<CheckResult>)
    ensures
        (open_attr(cs) == " open"@) <==> (overall_of(cs) == Verdict::Fail || overall_of(cs) == Verdict::Warn),
{
    reveal_strlit(" open");
    reveal_strlit("");
    assert(" open"@.len() == 5 && ""@.len() == 0);
}

/// The `<summary>` of a producer's block: its name and verdict counts.
pub open spec fn producer_summary(r: Report) -> Seq<char> {
    let cs = r.checks@;
    let c = counts_of(cs);
    "        <summary>"@ + escape_html(producer_label(r)) + "<span class=\"producer-meta\">— "@
        + decimal(c.0) + " pass · "@ + decimal(c.1) + " fail · "@ + decimal(c.2) + " warn · "@
        + decimal(c.3) + " skip · "@ + decimal(cs.len()) + " total</span>"@ + "</summary>\n"@
}

/// The body of a producer's block: its check table, or `No checks.`.
pub open spec fn producer_body(cs: Seq<CheckResult>) -> Seq<char> {
    "        <div class=\"producer-body\">\n"@ + (if cs.len() == 0 {
        "            <p style=\"padding:0 1rem 1rem;color:var(--color-muted)\">No checks.</p>\n"@
    } else {
        check_table(cs)
    }) + "        </div>\n    </details>\n"@
}

/// One producer's collapsible block: name, counts, and its check table.
pub open spec fn producer_block(r: Report) -> Seq<char> {
    details_open(r.checks@) + producer_summary(r) + producer_body(r.checks@)
}

#[verifier::spinoff_prover]
fn write_producer_summary(out: &mut String, r: &Report)
    ensures
        final(out)@ == old(out)@ + producer_summary(*r),
{
    let (p, f, w, s) = r.verdict_counts();
    let total = r.checks.len();
    let ghost start = out@;
    push_str(out, "        <summary>");
    match &r.producer {
        Some(name) => write_html_text(out, name.as_str()),
        None => write_html_text(out, "(unnamed producer)"),
    }
    push_str(out, "<span class=\"producer-meta\">— ");
    push_decimal(out, p as u64);
    push_str(out, " pass · ");
    push_decimal(out, f as u64);
    push_str(out, " fail · ");
    push_decimal(out, w as u64);
    push_str(out, " warn · ");
    push_decimal(out, s as u64);
    push_str(out, " skip · ");
    push_decimal(out, total as u64);
    push_str(out, " total</span>");
    push_str(out, "</summary>\n");
    assert(out@ =~= start + producer_summary(*r));
}

fn write_details_open(out: &mut String, r: &Report)
    ensures
        final(out)@ == old(out)@ + details_open(r.checks@),
{
    let (_p, f, w, _s) = r.verdict_counts();
    let ghost start = out@;
    push_str(out, "    <details class=\"producer\"");
    if f > 0 || w > 0 {
        push_str(out, " open");
    } else {
        push_str(out, "");
    }
    push_str(out, ">\n");
    assert(out@ =~= start + details_open(r.checks@));
}

fn write_producer_body(out: &mut String, checks: &[CheckResult])
    ensures
        final(out)@ == old(out)@ + producer_body(checks@),
{
    let ghost start = out@;
    push_str(out, "        <div class=\"producer-body\">\n");
    if checks.len() == 0 {
        push_str(
            out,
            "            <p style=\"padding:0 1rem 1rem;color:var(--color-muted)\">No checks.</p>\n",
        );
    } else {
        write_check_table(out, checks);
    }
    push_str(out, "        </div>\n    </details>\n");
    assert(out@ =~= start + producer_body(checks@));
}

/// Appends the block of one producer (see `producer_block`).
pub fn write_producer(out: &mut String, r: &Report)
    ensures
        final(out)@ == old(out)@ + producer_block(*r),
{
    let ghost start = out@;
    write_details_open(out, r);
    write_producer_summary(out, r);
    write_producer_body(out, r.checks.as_slice());
    assert(out@ =~= start + producer_block(*r));
}

/// The blocks of a sequence of reports, in order.
pub open spec fn producer_blocks(rs: Seq<Report>) -> Seq<char>
    decreases rs.len(),
{
    if rs.len() == 0 {
        Seq::empty()
    } else {
        producer_blocks(rs.drop_last()) + producer_block(rs.last())
    }
}

/// The per-producer section: one block per report, or `No reports.`.
#[verifier::opaque]
pub open spec fn producers_section(rs: Seq<Report>) -> Seq<char> {
    "<section>\n    <h2>Per-producer reports</h2>\n"@ + (if rs.len() == 0 {
        "    <p style=\"color:var(--color-muted)\">No reports.</p>\n"@
    } else {
        producer_blocks(rs)
    }) + "</section>\n"@
}

/// Appends the per-producer section (see `producers_section`).
pub fn write_producers_section(out: &mut String, reports: &Vec<Report>)
    ensures
        final(out)@ == old(out)@ + producers_section(reports@),
{
    reveal(producers_section);
    let ghost start = out@;
    push_str(out, "<section>\n    <h2>Per-producer reports</h2>\n");
    if reports.len() == 0 {
        push_str(out, "    <p style=\"color:var(--color-muted)\">No reports.</p>\n");
        push_str(out, "</section>\n");
        assert(out@ =~= start + producers_section(reports@));
        return;
    }
    let ghost head = out@;
    let mut i: usize = 0;
    while i < reports.len()
        invariant
            0 <= i <= reports@.len(),
            out@ == head + producer_blocks(reports@.subrange(0, i as int)),
        decreases reports@.len() - i,
    {
        assert(reports@.subrange(0, i as int + 1).drop_last() =~= reports@.subrange(0, i as int));
        write_producer(out, &reports[i]);
        i = i + 1;
        assert(out@ =~= head + producer_blocks(reports@.subrange(0, i as int)));
    }
    assert(reports@.subrange(0, reports@.len() as int) =~= reports@);
    push_str(out, "</section>\n");
    assert(out@ =~= start + producers_section(reports@));
}

/// The summary line of a producer's block names the producer and shows how
/// many of its checks pass, fail, warn and are skipped, each count next to
/// its own verdict's word, then the number of its checks.
pub proof fn law_producer_summary_counts(r: Report)
    ensures
        ({
            let cs = r.checks@;
            producer_block(r) == details_open(cs) + ("        <summary>"@ + escape_html(producer_label(r))
                + "<span class=\"producer-meta\">— "@ + decimal(count_verdict(cs, Verdict::Pass))
                + " pass · "@ + decimal(count_verdict(cs, Verdict::Fail)) + " fail · "@ + decimal(
                count_verdict(cs, Verdict::Warn),
            ) + " warn · "@ + decimal(count_verdict(cs, Verdict::Skip)) + " skip · "@ + decimal(cs.len())
                + " total</span>"@ + "</summary>\n"@) + producer_body(cs)
        }),
{
}

/// The blocks of two runs of reports, one after the other.
proof fn lemma_producer_blocks_add(a: Seq<Report>, b: Seq<Report>)
    ensures
        producer_blocks(a + b) == producer_blocks(a) + producer_blocks(b),
    decreases b.len(),
{
    if b.len() == 0 {
        assert(a + b =~= a);
        assert(producer_blocks(a) + producer_blocks(b) =~= producer_blocks(a));
    } else {
        assert((a + b).drop_last() =~= a + b.drop_last());
        lemma_producer_blocks_add(a, b.drop_last());
        assert(producer_blocks(a + b) =~= producer_blocks(a) + producer_blocks(b));
    }
}

/// A verdict that is counted belongs to some check.
proof fn lemma_count_verdict_witness(cs: Seq<CheckResult>, v: Verdict)
    requires
        count_verdict(cs, v) > 0,
    ensures
        exists|i: int| 0 <= i < cs.len() && (#[trigger] cs[i]).verdict == v,
    decreases cs.len(),
{
    if cs.last().verdict != v {
        lemma_count_verdict_witness(cs.drop_last(), v);
        let i = choose|i: int| 0 <= i < cs.drop_last().len() && (#[trigger] cs.drop_last()[i]).verdict == v;
        assert(cs[i] == cs.drop_last()[i]);
    } else {
        assert(cs[cs.len() - 1].verdict == v);
    }
}

/// The blocks of `rs` around its `k`-th report.
proof fn lemma_producer_block_at(rs: Seq<Report>, k: int)
    requires
        0 <= k < rs.len(),
    ensures
        producer_blocks(rs) == producer_blocks(rs.take(k)) + producer_block(rs[k]) + producer_blocks(
            rs.skip(k + 1),
        ),
{
    let one = seq![rs[k]];
    assert(one.drop_last() =~= Seq::<Report>::empty());
    assert(producer_blocks(Seq::<Report>::empty()) == Seq::<char>::empty());
    assert(one.last() == rs[k]);
    assert(producer_blocks(one) =~= producer_block(rs[k]));
    lemma_producer_blocks_add(rs.take(k), one);
    lemma_producer_blocks_add(rs.take(k) + one, rs.skip(k + 1));
    assert(rs.take(k) + one + rs.skip(k + 1) =~= rs);
}

/// A report's block opens with its `<details>` tag, open exactly when the
/// report has a failing or warning check.
proof fn lemma_producer_block_open(r: Report)
    ensures
        has_prefix(producer_block(r), details_open(r.checks@)),
        (open_attr(r.checks@) == " open"@) <==> (exists|i: int|
            0 <= i < r.checks@.len() && ((#[trigger] r.checks@[i]).verdict == Verdict::Fail
                || r.checks@[i].verdict == Verdict::Warn)),
{
    let cs = r.checks@;
    let b = producer_block(r);
    let d = details_open(cs);
    assert(b.subrange(0, d.len() as int) =~= d);
    law_producer_open(cs);
    if count_verdict(cs, Verdict::Fail) > 0 {
        lemma_count_verdict_witness(cs, Verdict::Fail);
    } else if count_verdict(cs, Verdict::Warn) > 0 {
        lemma_count_verdict_witness(cs, Verdict::Warn);
    }
    if exists|i: int|
        0 <= i < cs.len() && ((#[trigger] cs[i]).verdict == Verdict::Fail || cs[i].verdict == Verdict::Warn) {
        let i = choose|i: int|
            0 <= i < cs.len() && ((#[trigger] cs[i]).verdict == Verdict::Fail || cs[i].verdict
                == Verdict::Warn);
        lemma_count_verdict_pos(cs, i);
    }
}

/// The per-producer section holds one collapsible block per report, in the
/// order of the reports, or reads `No reports.` when there is none. Each
/// block opens with its `<details class="producer">` tag, which carries
/// ` open` exactly when the report has a failing or warning check.
pub proof fn law_producer_blocks(rs: Seq<Report>)
    ensures
        producers_section(rs) == "<section>\n    <h2>Per-producer reports</h2>\n"@ + (if rs.len() == 0 {
            "    <p style=\"color:var(--color-muted)\">No reports.</p>\n"@
        } else {
            producer_blocks(rs)
        }) + "</section>\n"@,
        forall|k: int|
            0 <= k < rs.len() ==> producer_blocks(rs) == producer_blocks(rs.take(k)) + #[trigger] producer_block(
                rs[k],
            ) + producer_blocks(rs.skip(k + 1)),
        forall|k: int|
            0 <= k < rs.len() ==> has_prefix(
                producer_block(rs[k]),
                "    <details class=\"producer\""@ + open_attr(#[trigger] rs[k].checks@) + ">\n"@,
            ),
        forall|k: int|
            0 <= k < rs.len() ==> ((open_attr(#[trigger] rs[k].checks@) == " open"@) <==> (exists|i: int|
                0 <= i < rs[k].checks@.len() && ((#[trigger] rs[k].checks@[i]).verdict == Verdict::Fail
                    || rs[k].checks@[i].verdict == Verdict::Warn))),
{
    reveal(producers_section);
    assert forall|k: int| 0 <= k < rs.len() implies producer_blocks(rs) == producer_blocks(rs.take(k))
        + #[trigger] producer_block(rs[k]) + producer_blocks(rs.skip(k + 1)) by {
        lemma_producer_block_at(rs, k);
    }
    assert forall|k: int| 0 <= k < rs.len() implies has_prefix(
        producer_block(rs[k]),
        "    <details class=\"producer\""@ + open_attr(#[trigger] rs[k].checks@) + ">\n"@,
    ) by {
        lemma_producer_block_open(rs[k]);
    }
    assert forall|k: int| 0 <= k < rs.len() implies ((open_attr(#[trigger] rs[k].checks@) == " open"@)
        <==> (exists|i: int|
        0 <= i < rs[k].checks@.len() && ((#[trigger] rs[k].checks@[i]).verdict == Verdict::Fail
            || rs[k].checks@[i].verdict == Verdict::Warn))) by {
        lemma_producer_block_open(rs[k]);
    }
}

// ---------------------------------------------------------------------------
// Header and document
// ---------------------------------------------------------------------------

/// CSS class of the overall verdict badge.
pub open spec fn badge_class(v: Verdict) -> Seq<char> {
    match v {
        Verdict::Pass => "verdict-pass"@,
        Verdict::Fail => "verdict-fail"@,
        Verdict::Warn => "verdict-warn"@,
        Verdict::Skip => "verdict-skip"@,
    }
}

fn badge_class_str(v: Verdict) -> (r: &'static str)
    ensures
        r@ == badge_class(v),
{
    match v {
        Verdict::Pass => "verdict-pass",
        Verdict::Fail => "verdict-fail",
        Verdict::Warn => "verdict-warn",
        Verdict::Skip => "verdict-skip",
    }
}

/// The page title line of the header: subject and version.
pub open spec fn header_title(m: MultiReport) -> Seq<char> {
    "<main>\n<header class=\"page\">\n"@ + "    <h1>"@ + escape_html(m.subject@)
        + " <span class=\"version\">v"@ + escape_html(m.subject_version@) + "</span></h1>\n"@
}

/// The subtitle's times: start, and finish when there is one.
pub open spec fn subtitle_times(m: MultiReport) -> Seq<char> {
    "    <div class=\"subtitle\">started "@ + escape_html(rfc3339_text(m.started_at.secs, m.started_at.nanos))
        + (match m.finished_at {
        Some(e) => " · finished "@ + escape_html(rfc3339_text(e.secs, e.nanos)),
        None => Seq::empty(),
    })
}

/// The subtitle's counts: checks and producers.
pub open spec fn subtitle_counts(total: nat, producers: nat) -> Seq<char> {
    " · "@ + decimal(total) + " check"@ + plural(total) + " across "@ + decimal(producers)
        + " producer"@ + plural(producers) + "</div>\n"@
}

/// The subtitle: start and finish times, number of checks and of producers.
pub open spec fn header_subtitle(m: MultiReport, total: nat) -> Seq<char> {
    subtitle_times(m) + subtitle_counts(total, m.reports@.len())
}

/// The overall verdict badge, closing the header.
pub open spec fn header_badge(overall: Verdict) -> Seq<char> {
    "    <div class=\"verdict-badge "@ + badge_class(overall) + "\">"@ + verdict_label(overall)
        + "</div>\n</header>\n"@
}

/// The page header: title, subtitle and overall verdict badge.
#[verifier::opaque]
pub open spec fn header(m: MultiReport, overall: Verdict, total: nat) -> Seq<char> {
    header_title(m) + header_subtitle(m, total) + header_badge(overall)
}

/// The page header: the subject and its version; the start time, then
/// ` · finished ` and the finish time exactly when the aggregate has one;
/// the number of checks and of producers, each followed by its noun, in the
/// singular for exactly one; and the badge of the overall verdict, whose
/// class is `verdict-` and the verdict's lower-case name and whose text is
/// its capitalised name, closing the header.
pub proof fn law_header_layout(m: MultiReport, overall: Verdict, total: nat)
    ensures
        ({
            let started = "<main>\n<header class=\"page\">\n"@ + "    <h1>"@ + escape_html(m.subject@)
                + " <span class=\"version\">v"@ + escape_html(m.subject_version@) + "</span></h1>\n"@
                + "    <div class=\"subtitle\">started "@ + escape_html(
                rfc3339_text(m.started_at.secs, m.started_at.nanos),
            );
            let n = m.reports@.len();
            let rest = " · "@ + decimal(total) + " check"@ + plural(total) + " across "@ + decimal(n)
                + " producer"@ + plural(n) + "</div>\n"@ + "    <div class=\"verdict-badge "@
                + badge_class(overall) + "\">"@ + verdict_label(overall) + "</div>\n</header>\n"@;
            match m.finished_at {
                Some(e) => header(m, overall, total) == started + " · finished "@ + escape_html(
                    rfc3339_text(e.secs, e.nanos),
                ) + rest,
                None => header(m, overall, total) == started + rest,
            }
        }),
        (plural(total) == ""@) <==> (total == 1),
        total != 1 ==> plural(total) == "s"@,
        badge_class(overall) == "verdict-"@ + verdict_class(overall),
{
    reveal(header);
    reveal_strlit("");
    reveal_strlit("s");
    reveal_strlit("verdict-");
    reveal_strlit("verdict-pass");
    reveal_strlit("verdict-fail");
    reveal_strlit("verdict-warn");
    reveal_strlit("verdict-skip");
    reveal_strlit("pass");
    reveal_strlit("fail");
    reveal_strlit("warn");
    reveal_strlit("skip");
    assert(badge_class(overall) =~= "verdict-"@ + verdict_class(overall));
    assert(""@.len() != "s"@.len());
    let started = "<main>\n<header class=\"page\">\n"@ + "    <h1>"@ + escape_html(m.subject@)
        + " <span class=\"version\">v"@ + escape_html(m.subject_version@) + "</span></h1>\n"@
        + "    <div class=\"subtitle\">started "@ + escape_html(
        rfc3339_text(m.started_at.secs, m.started_at.nanos),
    );
    let n = m.reports@.len();
    let rest = " · "@ + decimal(total) + " check"@ + plural(total) + " across "@ + decimal(n)
        + " producer"@ + plural(n) + "</div>\n"@ + "    <div class=\"verdict-badge "@
        + badge_class(overall) + "\">"@ + verdict_label(overall) + "</div>\n</header>\n"@;
    match m.finished_at {
        Some(e) => {
            assert(header(m, overall, total) =~= started + " · finished "@ + escape_html(
                rfc3339_text(e.secs, e.nanos),
            ) + rest);
        },
        None => {
            assert(header(m, overall, total) =~= started + rest);
        },
    }
}

fn write_header_title(out: &mut String, m: &MultiReport)
    ensures
        final(out)@ == old(out)@ + header_title(*m),
{
    let ghost start = out@;
    push_str(out, "<main>\n<header class=\"page\">\n");
    push_str(out, "    <h1>");
    write_html_text(out, m.subject.as_str());
    push_str(out, " <span class=\"version\">v");
    write_html_text(out, m.subject_version.as_str());
    push_str(out, "</span></h1>\n");
    assert(out@ =~= start + header_title(*m));
}

fn write_subtitle_times(out: &mut String, m: &MultiReport)
    requires
        m.started_at.wf(),
        m.finished_at matches Some(e) ==> e.wf(),
    ensures
        final(out)@ == old(out)@ + subtitle_times(*m),
{
    let ghost start = out@;
    push_str(out, "    <div class=\"subtitle\">started ");
    let started = crate::model::to_rfc3339(&m.started_at);
    write_html_text(out, started.as_str());
    let ghost mid = out@;
    match &m.finished_at {
        Some(end) => {
            push_str(out, " · finished ");
            let finished = crate::model::to_rfc3339(end);
            write_html_text(out, finished.as_str());
        },
        None => {},
    }
    assert(out@ =~= start + subtitle_times(*m));
}

#[verifier::spinoff_prover]
fn write_subtitle_counts(out: &mut String, total: u64, producers: u64)
    ensures
        final(out)@ == old(out)@ + subtitle_counts(total as nat, producers as nat),
{
    let ghost start = out@;
    push_str(out, " · ");
    push_decimal(out, total);
    push_str(out, " check");
    push_plural(out, total);
    push_str(out, " across ");
    push_decimal(out, producers);
    push_str(out, " producer");
    push_plural(out, producers);
    push_str(out, "</div>\n");
    assert(out@ =~= start + subtitle_counts(total as nat, producers as nat));
}

fn write_header_subtitle(out: &mut String, m: &MultiReport, total: usize)
    requires
        m.started_at.wf(),
        m.finished_at matches Some(e) ==> e.wf(),
    ensures
        final(out)@ == old(out)@ + header_subtitle(*m, total as nat),
{
    let ghost start = out@;
    write_subtitle_times(out, m);
    write_subtitle_counts(out, total as u64, m.reports.len() as u64);
    assert(out@ =~= start + header_subtitle(*m, total as nat));
}

fn write_header_badge(out: &mut String, overall: Verdict)
    ensures
        final(out)@ == old(out)@ + header_badge(overall),
{
    let ghost start = out@;
    push_str(out, "    <div class=\"verdict-badge ");
    push_str(out, badge_class_str(overall));
    push_str(out, "\">");
    push_str(out, verdict_label_str(overall));
    push_str(out, "</div>\n</header>\n");
    assert(out@ =~= start + header_badge(overall));
}

/// Appends the page header (see `header`).
pub fn write_header(out: &mut String, m: &MultiReport, overall: Verdict, total: usize)
    requires
        m.started_at.wf(),
        m.finished_at matches Some(e) ==> e.wf(),
    ensures
        final(out)@ == old(out)@ + header(*m, overall, total as nat),
{
    reveal(header);
    let ghost start = out@;
    write_header_title(out, m);
    write_header_subtitle(out, m, total);
    write_header_badge(out, overall);
    assert(out@ =~= start + header(*m, overall, total as nat));
}

/// The document head: doctype, metadata, title and style.
#[verifier::opaque]
pub open spec fn doc_head(m: MultiReport) -> Seq<char> {
    "<!DOCTYPE html>\n"@ + "<html lang=\"en\">\n<head>\n"@ + "<meta charset=\"UTF-8\">\n"@
        + "<meta name=\"viewport\" content=\"width=device-width, initial-scale=1\">\n"@ + "<title>"@
        + escape_html(m.subject@) + " v"@ + escape_html(m.subject_version@)
        + " — dev-tools meta-report</title>\n"@ + inline_css() + "</head>\n<body>\n"@
}

/// The whole HTML document for `m`: head, header with the overall verdict
/// badge, summary with the stacked verdict bar, duration histogram (only
/// when some check has a duration), one block per producer, and footer.
pub open spec fn html_document(m: MultiReport) -> Seq<char> {
    let cs = all_checks(m.reports@);
    let c = counts_of(cs);
    doc_head(m) + header(m, overall_of(cs), c.0 + c.1 + c.2 + c.3) + summary_section(c.0, c.1, c.2, c.3)
        + duration_section(check_durations(cs)) + producers_section(m.reports@) + footer()
        + "</body>\n</html>\n"@
}

/// The document is a complete HTML page: it opens with the doctype and
/// ends by closing `body` and `html`.
pub proof fn law_html_document_frame(m: MultiReport)
    ensures
        has_prefix(html_document(m), "<!DOCTYPE html>\n"@),
        html_document(m).len() >= "</body>\n</html>\n"@.len(),
        html_document(m).skip(html_document(m).len() - "</body>\n</html>\n"@.len()) == "</body>\n</html>\n"@,
{
    reveal(doc_head);
    let d = html_document(m);
    let head = "<!DOCTYPE html>\n"@;
    let tail = "</body>\n</html>\n"@;
    let cs = all_checks(m.reports@);
    let c = counts_of(cs);
    let body = doc_head(m) + header(m, overall_of(cs), c.0 + c.1 + c.2 + c.3) + summary_section(c.0, c.1, c.2, c.3)
        + duration_section(check_durations(cs)) + producers_section(m.reports@) + footer();
    assert(d == body + tail);
    assert(d.subrange(0, head.len() as int) =~= head);
    assert(d.skip(d.len() - tail.len()) =~= tail);
}

/// Some check of the reports carries a duration exactly when one of their
/// collected checks does.
proof fn lemma_all_checks_duration(rs: Seq<Report>)
    ensures
        (exists|i: int| 0 <= i < all_checks(rs).len() && (#[trigger] all_checks(rs)[i]).duration_ms is Some)
            <==> (exists|k: int, j: int|
            0 <= k < rs.len() && 0 <= j < rs[k].checks@.len() && (#[trigger] rs[k].checks@[j]).duration_ms is Some),
    decreases rs.len(),
{
    if rs.len() > 0 {
        let pre = rs.drop_last();
        let last = rs.last().checks@;
        lemma_all_checks_duration(pre);
        let a = all_checks(rs);
        let ap = all_checks(pre);
        assert(a == ap + last);
        if exists|i: int| 0 <= i < a.len() && (#[trigger] a[i]).duration_ms is Some {
            let i = choose|i: int| 0 <= i < a.len() && (#[trigger] a[i]).duration_ms is Some;
            if i < ap.len() {
                assert(a[i] == ap[i]);
                let (k, j) = choose|k: int, j: int|
                    0 <= k < pre.len() && 0 <= j < pre[k].checks@.len() && (#[trigger] pre[k].checks@[j]).duration_ms is Some;
                assert(rs[k] == pre[k]);
                assert(rs[k].checks@[j].duration_ms is Some);
            } else {
                let j = i - ap.len();
                assert(a[i] == last[j]);
                assert(rs[rs.len() - 1].checks@[j].duration_ms is Some);
            }
        }
        if exists|k: int, j: int|
            0 <= k < rs.len() && 0 <= j < rs[k].checks@.len() && (#[trigger] rs[k].checks@[j]).duration_ms is Some {
            let (k, j) = choose|k: int, j: int|
                0 <= k < rs.len() && 0 <= j < rs[k].checks@.len() && (#[trigger] rs[k].checks@[j]).duration_ms is Some;
            if k < pre.len() {
                assert(rs[k] == pre[k]);
                assert(pre[k].checks@[j].duration_ms is Some);
                let i = choose|i: int| 0 <= i < ap.len() && (#[trigger] ap[i]).duration_ms is Some;
                assert(a[i] == ap[i]);
            } else {
                assert(a[ap.len() + j] == last[j]);
            }
        }
    }
}

/// The page holds its duration section between the summary and the
/// per-producer reports. The section is there exactly when some check of
/// some report carries a duration; it then opens with the heading
/// `Duration distribution`, gives the number of samples, their minimum and
/// maximum, and draws their histogram over that range.
pub proof fn law_page_durations(m: MultiReport)
    ensures
        ({
            let cs = all_checks(m.reports@);
            let c = counts_of(cs);
            html_document(m) == doc_head(m) + header(m, overall_of(cs), c.0 + c.1 + c.2 + c.3)
                + summary_section(c.0, c.1, c.2, c.3) + duration_section(check_durations(cs))
                + producers_section(m.reports@) + footer() + "</body>\n</html>\n"@
        }),
        (duration_section(check_durations(all_checks(m.reports@))).len() > 0) <==> (exists|k: int, j: int|
            0 <= k < m.reports@.len() && 0 <= j < m.reports@[k].checks@.len()
                && (#[trigger] m.reports@[k].checks@[j]).duration_ms is Some),
        ({
            let ds = check_durations(all_checks(m.reports@));
            ds.len() > 0 ==> duration_section(ds) == "<section>\n    <h2>Duration distribution</h2>\n"@
                + "    <div class=\"subtitle\" style=\"color:var(--color-muted);font-size:.85rem;margin-bottom:.5rem\">"@
                + decimal(ds.len()) + " sample"@ + plural(ds.len()) + ", "@ + decimal(seq_min(ds) as nat)
                + " ms min, "@ + decimal(seq_max(ds) as nat) + " ms max</div>\n"@ + histogram(
                ds,
                seq_min(ds),
                seq_max(ds),
            ) + "</section>\n"@
        }),
{
    let cs = all_checks(m.reports@);
    law_duration_section_presence(cs);
    lemma_all_checks_duration(m.reports@);
    reveal(duration_section);
}

/// Regrouping a concatenation around its middle part.
proof fn lemma_regroup(p: Seq<char>, h: Seq<char>, x: Seq<char>, t: Seq<char>, q: Seq<char>)
    ensures
        p + (h + x + t) + q == (p + h) + x + (t + q),
{
    assert(p + (h + x + t) + q =~= (p + h) + x + (t + q));
}

/// Regrouping the summary section's parts around its four boxes.
proof fn lemma_regroup_summary(
    h: Seq<char>,
    b1: Seq<char>,
    b2: Seq<char>,
    b3: Seq<char>,
    b4: Seq<char>,
    t1: Seq<char>,
    t2: Seq<char>,
    t3: Seq<char>,
)
    ensures
        h + b1 + b2 + b3 + b4 + t1 + t2 + t3 == h + (b1 + b2 + b3 + b4) + (t1 + t2 + t3),
{
    assert(h + b1 + b2 + b3 + b4 + t1 + t2 + t3 =~= h + (b1 + b2 + b3 + b4) + (t1 + t2 + t3));
}

/// The summary section around its four count boxes.
proof fn lemma_summary_boxes(pass: nat, fail: nat, warn: nat, skip: nat)
    ensures
        summary_section(pass, fail, warn, skip) == "<section>\n    <h2>Summary</h2>\n    <div class=\"counts\">\n"@
            + (("        <div class=\"count "@ + "pass"@ + "\"><span class=\"value\">"@ + decimal(pass)
                    + "</span><span class=\"label\">"@ + "Pass"@ + "</span></div>\n"@)
                + ("        <div class=\"count "@ + "fail"@ + "\"><span class=\"value\">"@ + decimal(fail)
                    + "</span><span class=\"label\">"@ + "Fail"@ + "</span></div>\n"@)
                + ("        <div class=\"count "@ + "warn"@ + "\"><span class=\"value\">"@ + decimal(warn)
                    + "</span><span class=\"label\">"@ + "Warn"@ + "</span></div>\n"@)
                + ("        <div class=\"count "@ + "skip"@ + "\"><span class=\"value\">"@ + decimal(skip)
                    + "</span><span class=\"label\">"@ + "Skip"@ + "</span></div>\n"@)) + ("    </div>\n"@
            + bar_chart(pass, fail, warn, skip) + "</section>\n"@),
{
    reveal(summary_section);
    lemma_regroup_summary(
        "<section>\n    <h2>Summary</h2>\n    <div class=\"counts\">\n"@,
        count_box("pass"@, pass, "Pass"@),
        count_box("fail"@, fail, "Fail"@),
        count_box("warn"@, warn, "Warn"@),
        count_box("skip"@, skip, "Skip"@),
        "    </div>\n"@,
        bar_chart(pass, fail, warn, skip),
        "</section>\n"@,
    );
}

/// The page's summary shows, in its four count boxes and in this order,
/// the number of checks (over every report) that pass, fail, warn and are
/// skipped, each box labelled with its own verdict; the verdict bar after
/// the boxes is drawn from those same four counts, and the header before
/// them shows the overall verdict of every check and their number.
pub proof fn law_summary_counts(m: MultiReport)
    ensures
        ({
            let cs = all_checks(m.reports@);
            let boxes = ("        <div class=\"count "@ + "pass"@ + "\"><span class=\"value\">"@ + decimal(count_verdict(cs, Verdict::Pass))
                    + "</span><span class=\"label\">"@ + "Pass"@ + "</span></div>\n"@)
                + ("        <div class=\"count "@ + "fail"@ + "\"><span class=\"value\">"@ + decimal(count_verdict(cs, Verdict::Fail))
                    + "</span><span class=\"label\">"@ + "Fail"@ + "</span></div>\n"@)
                + ("        <div class=\"count "@ + "warn"@ + "\"><span class=\"value\">"@ + decimal(count_verdict(cs, Verdict::Warn))
                    + "</span><span class=\"label\">"@ + "Warn"@ + "</span></div>\n"@)
                + ("        <div class=\"count "@ + "skip"@ + "\"><span class=\"value\">"@ + decimal(count_verdict(cs, Verdict::Skip))
                    + "</span><span class=\"label\">"@ + "Skip"@ + "</span></div>\n"@);
            exists|a: Seq<char>, b: Seq<char>|
                {
                    &&& html_document(m) == a + boxes + b
                    &&& has_prefix(a, doc_head(m) + header(m, overall_of(cs), cs.len()))
                    &&& has_prefix(
                        b,
                        "    </div>\n"@ + bar_chart(
                            count_verdict(cs, Verdict::Pass),
                            count_verdict(cs, Verdict::Fail),
                            count_verdict(cs, Verdict::Warn),
                            count_verdict(cs, Verdict::Skip),
                        ),
                    )
                }
        }),
{
    let cs = all_checks(m.reports@);
    let c = counts_of(cs);
    let boxes = ("        <div class=\"count "@ + "pass"@ + "\"><span class=\"value\">"@ + decimal(count_verdict(cs, Verdict::Pass))
            + "</span><span class=\"label\">"@ + "Pass"@ + "</span></div>\n"@)
        + ("        <div class=\"count "@ + "fail"@ + "\"><span class=\"value\">"@ + decimal(count_verdict(cs, Verdict::Fail))
            + "</span><span class=\"label\">"@ + "Fail"@ + "</span></div>\n"@)
        + ("        <div class=\"count "@ + "warn"@ + "\"><span class=\"value\">"@ + decimal(count_verdict(cs, Verdict::Warn))
            + "</span><span class=\"label\">"@ + "Warn"@ + "</span></div>\n"@)
        + ("        <div class=\"count "@ + "skip"@ + "\"><span class=\"value\">"@ + decimal(count_verdict(cs, Verdict::Skip))
            + "</span><span class=\"label\">"@ + "Skip"@ + "</span></div>\n"@);
    let h = "<section>\n    <h2>Summary</h2>\n    <div class=\"counts\">\n"@;
    let t = "    </div>\n"@ + bar_chart(c.0, c.1, c.2, c.3) + "</section>\n"@;
    lemma_summary_boxes(c.0, c.1, c.2, c.3);
    let p = doc_head(m) + header(m, overall_of(cs), c.0 + c.1 + c.2 + c.3);
    let q = duration_section(check_durations(cs)) + producers_section(m.reports@) + footer()
        + "</body>\n</html>\n"@;
    assert(html_document(m) == p + (h + boxes + t) + q);
    lemma_regroup(p, h, boxes, t, q);
    lemma_counts_sum(cs);
    let a = p + h;
    let b = t + q;
    assert(a.subrange(0, p.len() as int) =~= p);
    let t0 = "    </div>\n"@ + bar_chart(c.0, c.1, c.2, c.3);
    assert(b.subrange(0, t0.len() as int) =~= t0);
}

/// The document is byte-deterministic: equal aggregates render to equal
/// documents.
pub proof fn law_html_deterministic(a: MultiReport, b: MultiReport)
    requires
        a == b,
    ensures
        html_document(a) == html_document(b),
{
}

/// `m` can be rendered: representable timestamps and a check count that
/// fits a `usize`.
pub open spec fn renderable(m: MultiReport) -> bool {
    &&& m.started_at.wf()
    &&& (m.finished_at matches Some(e) ==> e.wf())
    &&& m.counts_fit()
}

#[verifier::spinoff_prover]
fn write_doc_head(out: &mut String, m: &MultiReport)
    ensures
        final(out)@ == old(out)@ + doc_head(*m),
{
    reveal(doc_head);
    let ghost start = out@;
    push_str(out, "<!DOCTYPE html>\n");
    push_str(out, "<html lang=\"en\">\n<head>\n");
    push_str(out, "<meta charset=\"UTF-8\">\n");
    push_str(out, "<meta name=\"viewport\" content=\"width=device-width, initial-scale=1\">\n");
    push_str(out, "<title>");
    write_html_text(out, m.subject.as_str());
    push_str(out, " v");
    write_html_text(out, m.subject_version.as_str());
    push_str(out, " — dev-tools meta-report</title>\n");
    write_inline_css(out);
    push_str(out, "</head>\n<body>\n");
    assert(out@ =~= start + doc_head(*m));
}

/// Appends the document for `m` (see `html_document`).
#[verifier::spinoff_prover]
#[verifier::rlimit(40)]
pub fn write_doc(out: &mut String, m: &MultiReport)
    requires
        renderable(*m),
    ensures
        final(out)@ == old(out)@ + html_document(*m),
{
    let ghost start = out@;
    let ghost cs = all_checks(m.reports@);
    let overall = m.overall_verdict();
    let (pass, fail, warn, skip) = m.verdict_counts();
    proof {
        lemma_counts_sum(cs);
    }
    let total = pass + fail + warn + skip;
    write_doc_head(out, m);
    let ghost o1 = out@;
    write_header(out, m, overall, total);
    let ghost o2 = out@;
    write_summary_section(out, pass, fail, warn, skip);
    let ghost o3 = out@;
    let ds = collect_durations(&m.reports);
    write_duration_section(out, ds.as_slice());
    let ghost o4 = out@;
    write_producers_section(out, &m.reports);
    let ghost o5 = out@;
    write_footer(out);
    push_str(out, "</body>\n</html>\n");
    proof {
        let c = counts_of(cs);
        assert(ds@ == check_durations(cs));
        assert(o1 == start + doc_head(*m));
        assert(o2 == o1 + header(*m, overall_of(cs), c.0 + c.1 + c.2 + c.3));
        assert(o3 == o2 + summary_section(c.0, c.1, c.2, c.3));
        assert(o4 == o3 + duration_section(check_durations(cs)));
        assert(o5 == o4 + producers_section(m.reports@));
        assert(out@ == o5 + footer() + "</body>\n</html>\n"@);
    }
    assert(out@ =~= start + html_document(*m));
}

/// Renders `m` as a self-contained HTML document (see `html_document`).
pub fn multi_report_to_html(m: &MultiReport) -> (r: String)
    requires
        renderable(*m),
    ensures
        r@ == html_document(*m),
{
    let mut out = String::new();
    write_doc(&mut out, m);
    assert(out@ =~= html_document(*m));
    out
}

/// Whether `m` can be rendered (see `renderable`).
pub fn is_renderable(m: &MultiReport) -> (b: bool)
    ensures
        b == renderable(*m),
{
    if !m.started_at.is_valid() {
        return false;
    }
    match &m.finished_at {
        Some(e) => {
            if !e.is_valid() {
                return false;
            }
        },
        None => {},
    }
    m.check_counts_fit()
}

} // verus!
