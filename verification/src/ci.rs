//! `dev ci`: the checks on the extra-job and path-dependency arguments,
//! and the workflow that `dev_ci::Generator` renders for them.

use vstd::prelude::*;

use dev_ci::Generator;

use crate::cli::{ascii_lowercase, lemma_lower_is_ws, to_ascii_lowercase};
use crate::text::{
    chars_eq_str, chars_of, copy_range, debug_str, debug_text, is_ws, push_str, string_of, trim,
    trim_chars, trim_end, trim_start,
};

verus! {

/// The workflow generator of `dev_ci`.
#[verifier::external_type_specification]
#[verifier::external_body]
pub struct ExGenerator(Generator);

/// The configuration a `dev_ci::Generator` holds, as plain values: the
/// workflow name, the branch filter, the OS matrix, the cache, workspace,
/// feature and build switches, the sibling path dependencies (name and
/// clone URL), and the extra jobs.
pub struct WorkflowSettings {
    /// The workflow's `name:`.
    pub workflow_name: Seq<char>,
    /// Branches of the `push` and `pull_request` filters.
    pub branches: Seq<Seq<char>>,
    /// Runners of the test job's matrix.
    pub matrix_os: Seq<Seq<char>>,
    /// Whether the cargo cache action is used.
    pub rust_cache: bool,
    /// Whether cargo runs with `--workspace`.
    pub workspace: bool,
    /// The `--features` list, if any.
    pub features: Option<Seq<char>>,
    /// Whether a `--no-default-features` build step is added.
    pub no_default_features_build: bool,
    /// Whether `--all-features` build and test steps are added.
    pub all_features_build: bool,
    /// Sibling path dependencies, as name and clone URL, in order.
    pub path_deps: Seq<(Seq<char>, Seq<char>)>,
    /// Whether the clippy job is added.
    pub clippy: bool,
    /// Whether the rustfmt job is added.
    pub fmt: bool,
    /// Whether the doc-build job is added.
    pub docs: bool,
    /// The MSRV job's toolchain, if the job is added.
    pub msrv: Option<Seq<char>>,
}

/// The configuration a generator holds; the builder methods below state
/// how each of them changes it.
pub uninterp spec fn generator_settings(g: Generator) -> WorkflowSettings;

/// The workflow document `Generator::generate` renders for a
/// configuration (deterministic for a given configuration).
pub uninterp spec fn workflow_yaml(s: WorkflowSettings) -> Seq<char>;

/// The configuration of `Generator::new()`.
pub open spec fn default_settings() -> WorkflowSettings {
    WorkflowSettings {
        workflow_name: "CI"@,
        branches: seq!["main"@],
        matrix_os: seq!["ubuntu-latest"@],
        rust_cache: true,
        workspace: false,
        features: None,
        no_default_features_build: false,
        all_features_build: false,
        path_deps: Seq::empty(),
        clippy: false,
        fmt: false,
        docs: false,
        msrv: None,
    }
}

/// `list` as given, or `fallback` alone when `list` is empty.
pub open spec fn or_single(list: Seq<Seq<char>>, fallback: Seq<char>) -> Seq<Seq<char>> {
    if list.len() == 0 {
        seq![fallback]
    } else {
        list
    }
}

/// The views of a list of strings.
pub open spec fn string_views(v: Seq<String>) -> Seq<Seq<char>> {
    v.map_values(|s: String| s@)
}

/// `Generator::new`: the default configuration.
#[verifier::external_body]
fn generator_new() -> (g: Generator)
    ensures
        generator_settings(g) == default_settings(),
{
    Generator::new()
}

/// `Generator::workflow_name`: sets the workflow name.
#[verifier::external_body]
fn generator_workflow_name(g: Generator, name: &str) -> (r: Generator)
    ensures
        generator_settings(r) == (WorkflowSettings {
            workflow_name: name@,
            ..generator_settings(g)
        }),
{
    g.workflow_name(name)
}

/// `Generator::branches`: sets the branch filter; an empty list stands
/// for `main`.
#[verifier::external_body]
fn generator_branches(g: Generator, branches: &Vec<String>) -> (r: Generator)
    ensures
        generator_settings(r) == (WorkflowSettings {
            branches: or_single(string_views(branches@), "main"@),
            ..generator_settings(g)
        }),
{
    g.branches(branches.clone())
}

/// `Generator::matrix_os`: sets the OS matrix; an empty list stands for
/// `ubuntu-latest`.
#[verifier::external_body]
fn generator_matrix_os(g: Generator, os_list: &Vec<String>) -> (r: Generator)
    ensures
        generator_settings(r) == (WorkflowSettings {
            matrix_os: or_single(string_views(os_list@), "ubuntu-latest"@),
            ..generator_settings(g)
        }),
{
    g.matrix_os(os_list.clone())
}

/// `Generator::with_clippy`: adds the clippy job.
#[verifier::external_body]
fn generator_with_clippy(g: Generator) -> (r: Generator)
    ensures
        generator_settings(r) == (WorkflowSettings { clippy: true, ..generator_settings(g) }),
{
    g.with_clippy()
}

/// `Generator::with_fmt`: adds the rustfmt job.
#[verifier::external_body]
fn generator_with_fmt(g: Generator) -> (r: Generator)
    ensures
        generator_settings(r) == (WorkflowSettings { fmt: true, ..generator_settings(g) }),
{
    g.with_fmt()
}

/// `Generator::with_docs`: adds the doc-build job.
#[verifier::external_body]
fn generator_with_docs(g: Generator) -> (r: Generator)
    ensures
        generator_settings(r) == (WorkflowSettings { docs: true, ..generator_settings(g) }),
{
    g.with_docs()
}

/// `Generator::with_msrv`: adds the MSRV job pinned to `version`.
#[verifier::external_body]
fn generator_with_msrv(g: Generator, version: &str) -> (r: Generator)
    ensures
        generator_settings(r) == (WorkflowSettings {
            msrv: Some(version@),
            ..generator_settings(g)
        }),
{
    g.with_msrv(version)
}

/// `Generator::with_path_dep` of `PathDep::new(name, url)`: appends a
/// sibling path dependency.
#[verifier::external_body]
fn generator_with_path_dep(g: Generator, name: &str, url: &str) -> (r: Generator)
    ensures
        generator_settings(r) == (WorkflowSettings {
            path_deps: generator_settings(g).path_deps.push((name@, url@)),
            ..generator_settings(g)
        }),
{
    g.with_path_dep(dev_ci::PathDep::new(name, url))
}

/// `Generator::generate`: renders the workflow document.
#[verifier::external_body]
fn generator_generate(g: &Generator) -> (r: String)
    ensures
        r@ == workflow_yaml(generator_settings(*g)),
{
    g.generate()
}

// ---------------------------------------------------------------------------
// Argument checks
// ---------------------------------------------------------------------------

/// An extra CI job that `--with` or `--msrv` asks for.
#[derive(Clone, Copy, Debug, PartialEq, Eq, Structural)]
pub enum CiJob {
    /// The clippy job.
    Clippy,
    /// The rustfmt job.
    Fmt,
    /// The doc-build job.
    Docs,
    /// The MSRV job, pinned to the `--msrv` version.
    Msrv,
}

/// A sibling path dependency from `--path-dep name=url`.
#[derive(Clone, Debug)]
pub struct PathDepArg {
    /// Sibling directory name.
    pub name: String,
    /// Clone URL.
    pub url: String,
}

/// The checked arguments of `dev ci`: the extra jobs in the order they
/// were asked for, the MSRV version, and the path dependencies in order.
#[derive(Clone, Debug)]
pub struct CiPlan {
    /// Extra jobs.
    pub jobs: Vec<CiJob>,
    /// The `--msrv` version, if given.
    pub msrv: Option<String>,
    /// Path dependencies.
    pub path_deps: Vec<PathDepArg>,
}

/// The message for `--with msrv` without `--msrv`.
pub const MSRV_MISSING: &'static str = "--with msrv requires --msrv <VERSION>";

/// The key of a `--with` entry: trimmed and ASCII lower-cased.
pub open spec fn job_key(entry: Seq<char>) -> Seq<char> {
    ascii_lowercase(trim(entry))
}

/// What one `--with` entry asks for: nothing (empty), a job, or an error
/// (an MSRV job without a version, or an unknown name).
pub open spec fn job_step(entry: Seq<char>, has_msrv: bool) -> Result<Option<CiJob>, Seq<char>> {
    let k = job_key(entry);
    if k == ""@ {
        Ok(None)
    } else if k == "clippy"@ {
        Ok(Some(CiJob::Clippy))
    } else if k == "fmt"@ {
        Ok(Some(CiJob::Fmt))
    } else if k == "docs"@ {
        Ok(Some(CiJob::Docs))
    } else if k == "msrv"@ {
        if has_msrv {
            Ok(Some(CiJob::Msrv))
        } else {
            Err(MSRV_MISSING@)
        }
    } else {
        Err("unknown job in --with: "@ + debug_text(k))
    }
}

/// The jobs of the `--with` entries, in order; the first failing entry's
/// error otherwise.
pub open spec fn with_jobs(entries: Seq<Seq<char>>, has_msrv: bool) -> Result<Seq<CiJob>, Seq<char>>
    decreases entries.len(),
{
    if entries.len() == 0 {
        Ok(Seq::empty())
    } else {
        match with_jobs(entries.drop_last(), has_msrv) {
            Err(e) => Err(e),
            Ok(js) => match job_step(entries.last(), has_msrv) {
                Err(e) => Err(e),
                Ok(None) => Ok(js),
                Ok(Some(j)) => Ok(js.push(j)),
            },
        }
    }
}

/// `entry` spells `msrv` up to ASCII case (`eq_ignore_ascii_case`).
pub open spec fn names_msrv(entry: Seq<char>) -> bool {
    ascii_lowercase(entry) == "msrv"@
}

/// All extra jobs: those of `--with`, then an MSRV job when `--msrv`
/// is given and no `--with` entry names it.
pub open spec fn planned_jobs(entries: Seq<Seq<char>>, msrv: Option<Seq<char>>) -> Result<
    Seq<CiJob>,
    Seq<char>,
> {
    match with_jobs(entries, msrv is Some) {
        Err(e) => Err(e),
        Ok(js) => if msrv is Some && !(exists|i: int| 0 <= i < entries.len() && #[trigger] names_msrv(entries[i])) {
            Ok(js.push(CiJob::Msrv))
        } else {
            Ok(js)
        },
    }
}

/// An MSRV job comes only from an MSRV entry with a version given.
proof fn lemma_with_jobs_msrv_needs_version(entries: Seq<Seq<char>>, has_msrv: bool)
    ensures
        with_jobs(entries, has_msrv) matches Ok(js) ==> (js.contains(CiJob::Msrv) ==> has_msrv),
    decreases entries.len(),
{
    if entries.len() > 0 {
        lemma_with_jobs_msrv_needs_version(entries.drop_last(), has_msrv);
        match with_jobs(entries.drop_last(), has_msrv) {
            Ok(pre) => match job_step(entries.last(), has_msrv) {
                Ok(Some(j)) => {
                    if pre.push(j).contains(CiJob::Msrv) {
                        let k = choose|k: int| 0 <= k < pre.push(j).len() && pre.push(j)[k] == CiJob::Msrv;
                        if k < pre.len() {
                            assert(pre[k] == CiJob::Msrv);
                        }
                    }
                },
                _ => {},
            },
            Err(_) => {},
        }
    }
}

/// An entry that spells `msrv` is its own key.
proof fn lemma_msrv_entry_key(entry: Seq<char>)
    requires
        names_msrv(entry),
    ensures
        job_key(entry) == "msrv"@,
{
    reveal_strlit("msrv");
    assert(ascii_lowercase(entry).len() == entry.len());
    assert(entry.len() == 4);
    assert forall|i: int| 0 <= i < entry.len() implies !is_ws(#[trigger] entry[i]) by {
        assert(ascii_lowercase(entry)[i] == "msrv"@[i]);
        lemma_lower_is_ws(entry[i]);
    }
    assert(trim_start(entry) == entry);
    assert(trim_end(entry) == entry);
}

/// With a version given, an entry spelling `msrv` yields the MSRV job.
proof fn lemma_with_jobs_msrv_entry(entries: Seq<Seq<char>>, i: int)
    requires
        0 <= i < entries.len(),
        names_msrv(entries[i]),
    ensures
        with_jobs(entries, true) matches Ok(js) ==> js.contains(CiJob::Msrv),
    decreases entries.len(),
{
    let pre = entries.drop_last();
    if i < entries.len() - 1 {
        assert(pre[i] == entries[i]);
        lemma_with_jobs_msrv_entry(pre, i);
        match with_jobs(pre, true) {
            Ok(js) => {
                if js.contains(CiJob::Msrv) {
                    let k = choose|k: int| 0 <= k < js.len() && js[k] == CiJob::Msrv;
                    match job_step(entries.last(), true) {
                        Ok(Some(j)) => {
                            assert(js.push(j)[k] == CiJob::Msrv);
                        },
                        _ => {},
                    }
                }
            },
            Err(_) => {},
        }
    } else {
        lemma_msrv_entry_key(entries.last());
        reveal_strlit("msrv");
        reveal_strlit("");
        reveal_strlit("clippy");
        reveal_strlit("fmt");
        reveal_strlit("docs");
        assert("msrv"@.len() == 4 && ""@.len() == 0 && "clippy"@.len() == 6);
        assert("msrv"@ != ""@);
        assert("msrv"@ != "clippy"@);
        assert("msrv"@ != "fmt"@);
        assert("msrv"@[0] != "docs"@[0]);
        assert(job_step(entries.last(), true) == Ok::<Option<CiJob>, Seq<char>>(Some(CiJob::Msrv)));
        match with_jobs(pre, true) {
            Ok(js) => {
                assert(js.push(CiJob::Msrv)[js.len() as int] == CiJob::Msrv);
            },
            Err(_) => {},
        }
    }
}

/// `dev ci` plans an MSRV job exactly when `--msrv` gives a version:
/// asked for by `--with msrv`, or added on its own.
pub proof fn law_msrv_job_iff_version(entries: Seq<Seq<char>>, msrv: Option<Seq<char>>)
    ensures
        planned_jobs(entries, msrv) matches Ok(js) ==> (js.contains(CiJob::Msrv) <==> msrv is Some),
{
    lemma_with_jobs_msrv_needs_version(entries, msrv is Some);
    match with_jobs(entries, msrv is Some) {
        Ok(js) => {
            if msrv is Some {
                if exists|i: int| 0 <= i < entries.len() && #[trigger] names_msrv(entries[i]) {
                    let i = choose|i: int| 0 <= i < entries.len() && #[trigger] names_msrv(entries[i]);
                    lemma_with_jobs_msrv_entry(entries, i);
                } else {
                    assert(js.push(CiJob::Msrv)[js.len() as int] == CiJob::Msrv);
                }
            }
        },
        Err(_) => {},
    }
}

/// Index of the first `=` of `s`, or `s.len()`.
pub open spec fn first_eq(s: Seq<char>) -> nat
    decreases s.len(),
{
    if s.len() == 0 {
        0
    } else if s[0] == '=' {
        0
    } else {
        1 + first_eq(s.drop_first())
    }
}

/// `first_eq` is the first `=`.
pub proof fn lemma_first_eq(s: Seq<char>, k: int)
    requires
        0 <= k <= s.len(),
        forall|i: int| 0 <= i < k ==> s[i] != '=',
        k == s.len() || s[k] == '=',
    ensures
        first_eq(s) == k,
    decreases k,
{
    if k > 0 {
        lemma_first_eq(s.drop_first(), k - 1);
    }
}

/// A `--path-dep` value split at its first `=` into name and URL; the
/// error names the value when it has no `=`.
pub open spec fn split_path_dep(raw: Seq<char>) -> Result<(Seq<char>, Seq<char>), Seq<char>> {
    let k = first_eq(raw);
    if k < raw.len() {
        Ok((raw.take(k as int), raw.skip(k as int + 1)))
    } else {
        Err("--path-dep must be name=url; got "@ + debug_text(raw))
    }
}

/// All path dependencies, in order; the first malformed value's error
/// otherwise.
pub open spec fn planned_path_deps(raws: Seq<Seq<char>>) -> Result<Seq<(Seq<char>, Seq<char>)>, Seq<char>>
    decreases raws.len(),
{
    if raws.len() == 0 {
        Ok(Seq::empty())
    } else {
        match planned_path_deps(raws.drop_last()) {
            Err(e) => Err(e),
            Ok(ds) => match split_path_dep(raws.last()) {
                Err(e) => Err(e),
                Ok(d) => Ok(ds.push(d)),
            },
        }
    }
}

/// The view of a checked path dependency.
pub open spec fn path_dep_view(d: PathDepArg) -> (Seq<char>, Seq<char>) {
    (d.name@, d.url@)
}

/// `plan` holds the jobs and path dependencies of the arguments.
pub open spec fn plan_matches(
    plan: CiPlan,
    jobs: Seq<CiJob>,
    msrv: Option<Seq<char>>,
    deps: Seq<(Seq<char>, Seq<char>)>,
) -> bool {
    &&& plan.jobs@ == jobs
    &&& match msrv {
        Some(v) => plan.msrv matches Some(m) && m@ == v,
        None => plan.msrv is None,
    }
    &&& plan.path_deps@.map_values(|d: PathDepArg| path_dep_view(d)) == deps
}

/// The view of an optional string.
pub open spec fn opt_view(o: Option<&str>) -> Option<Seq<char>> {
    match o {
        Some(s) => Some(s@),
        None => None,
    }
}

/// Once a prefix of the `--with` entries fails, every longer prefix fails
/// with the same error.
proof fn lemma_with_jobs_err_extends(entries: Seq<Seq<char>>, n: int, b: bool)
    requires
        0 <= n <= entries.len(),
        with_jobs(entries.subrange(0, n), b) is Err,
    ensures
        with_jobs(entries, b) == with_jobs(entries.subrange(0, n), b),
    decreases entries.len() - n,
{
    if n == entries.len() {
        assert(entries.subrange(0, n) =~= entries);
    } else {
        assert(entries.subrange(0, n + 1).drop_last() =~= entries.subrange(0, n));
        lemma_with_jobs_err_extends(entries, n + 1, b);
    }
}

/// Once a prefix of the `--path-dep` values fails, every longer prefix
/// fails with the same error.
proof fn lemma_path_deps_err_extends(raws: Seq<Seq<char>>, n: int)
    requires
        0 <= n <= raws.len(),
        planned_path_deps(raws.subrange(0, n)) is Err,
    ensures
        planned_path_deps(raws) == planned_path_deps(raws.subrange(0, n)),
    decreases raws.len() - n,
{
    if n == raws.len() {
        assert(raws.subrange(0, n) =~= raws);
    } else {
        assert(raws.subrange(0, n + 1).drop_last() =~= raws.subrange(0, n));
        lemma_path_deps_err_extends(raws, n + 1);
    }
}

fn job_of(entry: &String, has_msrv: bool) -> (r: Result<Option<CiJob>, String>)
    ensures
        match job_step(entry@, has_msrv) {
            Ok(j) => r == Ok::<Option<CiJob>, String>(j),
            Err(m) => r matches Err(e) && e@ == m,
        },
{
    proof {
        reveal_strlit("");
    }
    let cs = chars_of(entry.as_str());
    let t = trim_chars(cs.as_slice());
    let k = to_ascii_lowercase(t.as_slice());
    if k.len() == 0 {
        assert(k@ =~= ""@);
        Ok(None)
    } else if chars_eq_str(k.as_slice(), "clippy") {
        Ok(Some(CiJob::Clippy))
    } else if chars_eq_str(k.as_slice(), "fmt") {
        Ok(Some(CiJob::Fmt))
    } else if chars_eq_str(k.as_slice(), "docs") {
        Ok(Some(CiJob::Docs))
    } else if chars_eq_str(k.as_slice(), "msrv") {
        if has_msrv {
            Ok(Some(CiJob::Msrv))
        } else {
            Err(string_of(chars_of(MSRV_MISSING).as_slice()))
        }
    } else {
        let mut m = String::new();
        push_str(&mut m, "unknown job in --with: ");
        let ks = string_of(k.as_slice());
        let d = debug_str(ks.as_str());
        push_str(&mut m, d.as_str());
        Err(m)
    }
}

fn split_dep(raw: &String) -> (r: Result<PathDepArg, String>)
    ensures
        match split_path_dep(raw@) {
            Ok(d) => r matches Ok(p) && path_dep_view(p) == d,
            Err(m) => r matches Err(e) && e@ == m,
        },
{
    let cs = chars_of(raw.as_str());
    let mut k: usize = 0;
    while k < cs.len() && cs[k] != '='
        invariant
            0 <= k <= cs@.len(),
            cs@ == raw@,
            forall|i: int| 0 <= i < k ==> cs@[i] != '=',
        decreases cs@.len() - k,
    {
        k = k + 1;
    }
    proof {
        lemma_first_eq(raw@, k as int);
    }
    if k < cs.len() {
        let name = copy_range(cs.as_slice(), 0, k);
        let url = copy_range(cs.as_slice(), k + 1, cs.len());
        assert(name@ =~= raw@.take(k as int));
        assert(url@ =~= raw@.skip(k as int + 1));
        Ok(PathDepArg { name: string_of(name.as_slice()), url: string_of(url.as_slice()) })
    } else {
        let mut m = String::new();
        push_str(&mut m, "--path-dep must be name=url; got ");
        let d = debug_str(raw.as_str());
        push_str(&mut m, d.as_str());
        Err(m)
    }
}

fn is_msrv_entry(entry: &String) -> (b: bool)
    ensures
        b == names_msrv(entry@),
{
    let cs = chars_of(entry.as_str());
    let l = to_ascii_lowercase(cs.as_slice());
    chars_eq_str(l.as_slice(), "msrv")
}

/// Checks the `--with`, `--msrv` and `--path-dep` arguments of `dev ci`:
/// `Ok` with the planned jobs (see `planned_jobs`) and path dependencies
/// (see `planned_path_deps`) when both succeed, the first error
/// otherwise, the `--with` entries being checked first.
pub fn plan_ci(with: &Vec<String>, msrv: Option<&str>, path_deps: &Vec<String>) -> (r: Result<
    CiPlan,
    String,
>)
    ensures
        match planned_jobs(string_views(with@), opt_view(msrv)) {
            Err(m) => r matches Err(e) && e@ == m,
            Ok(jobs) => match planned_path_deps(string_views(path_deps@)) {
                Err(m) => r matches Err(e) && e@ == m,
                Ok(deps) => r matches Ok(p) && plan_matches(p, jobs, opt_view(msrv), deps),
            },
        },
{
    let ghost entries = string_views(with@);
    let has_msrv = msrv.is_some();
    let mut jobs: Vec<CiJob> = Vec::new();
    let mut i: usize = 0;
    while i < with.len()
        invariant
            0 <= i <= with@.len(),
            entries == string_views(with@),
            has_msrv == opt_view(msrv) is Some,
            with_jobs(entries.subrange(0, i as int), has_msrv) == Ok::<Seq<CiJob>, Seq<char>>(
                jobs@,
            ),
        decreases with@.len() - i,
    {
        assert(entries.subrange(0, i as int + 1).drop_last() =~= entries.subrange(0, i as int));
        assert(entries.subrange(0, i as int + 1).last() == with@[i as int]@);
        match job_of(&with[i], has_msrv) {
            Err(e) => {
                proof {
                    lemma_with_jobs_err_extends(entries, i as int + 1, has_msrv);
                }
                return Err(e);
            },
            Ok(None) => {},
            Ok(Some(j)) => {
                jobs.push(j);
            },
        }
        i = i + 1;
    }
    assert(entries.subrange(0, with@.len() as int) =~= entries);
    let mut named = false;
    let mut n: usize = 0;
    while n < with.len()
        invariant
            0 <= n <= with@.len(),
            entries == string_views(with@),
            named == exists|m: int| 0 <= m < n && #[trigger] names_msrv(entries[m]),
        decreases with@.len() - n,
    {
        if is_msrv_entry(&with[n]) {
            assert(names_msrv(entries[n as int]));
            named = true;
        }
        n = n + 1;
    }
    let msrv_owned: Option<String> = match msrv {
        Some(v) => {
            if !named {
                jobs.push(CiJob::Msrv);
            }
            Some(string_of(chars_of(v).as_slice()))
        },
        None => None,
    };
    assert(planned_jobs(entries, opt_view(msrv)) == Ok::<Seq<CiJob>, Seq<char>>(jobs@));
    let ghost raws = string_views(path_deps@);
    let mut deps: Vec<PathDepArg> = Vec::new();
    assert(deps@.map_values(|d: PathDepArg| path_dep_view(d)) =~= Seq::empty());
    assert(raws.subrange(0, 0) =~= Seq::<Seq<char>>::empty());
    let mut k: usize = 0;
    while k < path_deps.len()
        invariant
            0 <= k <= path_deps@.len(),
            raws == string_views(path_deps@),
            planned_jobs(string_views(with@), opt_view(msrv)) == Ok::<Seq<CiJob>, Seq<char>>(
                jobs@,
            ),
            planned_path_deps(raws.subrange(0, k as int)) == Ok::<
                Seq<(Seq<char>, Seq<char>)>,
                Seq<char>,
            >(deps@.map_values(|d: PathDepArg| path_dep_view(d))),
        decreases path_deps@.len() - k,
    {
        assert(raws.subrange(0, k as int + 1).drop_last() =~= raws.subrange(0, k as int));
        assert(raws.subrange(0, k as int + 1).last() == path_deps@[k as int]@);
        match split_dep(&path_deps[k]) {
            Err(e) => {
                proof {
                    assert(planned_path_deps(raws.subrange(0, k as int + 1)) is Err);
                    lemma_path_deps_err_extends(raws, k as int + 1);
                }
                return Err(e);
            },
            Ok(d) => {
                let ghost before = deps@.map_values(|x: PathDepArg| path_dep_view(x));
                let ghost dv = path_dep_view(d);
                deps.push(d);
                assert(deps@.map_values(|x: PathDepArg| path_dep_view(x)) =~= before.push(dv));
            },
        }
        k = k + 1;
    }
    assert(raws.subrange(0, path_deps@.len() as int) =~= raws);
    Ok(CiPlan { jobs, msrv: msrv_owned, path_deps: deps })
}

// ---------------------------------------------------------------------------
// The workflow
// ---------------------------------------------------------------------------

/// The configuration after one extra job: its switch set, or for the MSRV
/// job the version pinned (nothing without a version).
pub open spec fn apply_job(s: WorkflowSettings, j: CiJob, msrv: Option<Seq<char>>) -> WorkflowSettings {
    match j {
        CiJob::Clippy => WorkflowSettings { clippy: true, ..s },
        CiJob::Fmt => WorkflowSettings { fmt: true, ..s },
        CiJob::Docs => WorkflowSettings { docs: true, ..s },
        CiJob::Msrv => match msrv {
            Some(v) => WorkflowSettings { msrv: Some(v), ..s },
            None => s,
        },
    }
}

/// The configuration after the extra jobs `js`, in order.
pub open spec fn apply_jobs(s: WorkflowSettings, js: Seq<CiJob>, msrv: Option<Seq<char>>) -> WorkflowSettings
    decreases js.len(),
{
    if js.len() == 0 {
        s
    } else {
        apply_job(apply_jobs(s, js.drop_last(), msrv), js.last(), msrv)
    }
}

/// The generator configuration of `dev ci`: the defaults, then the
/// workflow name, branches and OS matrix, then the extra jobs, then the
/// path dependencies appended in order.
pub open spec fn ci_settings(
    workflow_name: Seq<char>,
    branches: Seq<Seq<char>>,
    matrix: Seq<Seq<char>>,
    jobs: Seq<CiJob>,
    msrv: Option<Seq<char>>,
    deps: Seq<(Seq<char>, Seq<char>)>,
) -> WorkflowSettings {
    let base = WorkflowSettings {
        workflow_name: workflow_name,
        branches: or_single(branches, "main"@),
        matrix_os: or_single(matrix, "ubuntu-latest"@),
        ..default_settings()
    };
    let with_jobs = apply_jobs(base, jobs, msrv);
    WorkflowSettings { path_deps: with_jobs.path_deps + deps, ..with_jobs }
}

/// The optional `--msrv` version of a plan.
pub open spec fn plan_msrv(plan: CiPlan) -> Option<Seq<char>> {
    match plan.msrv {
        Some(v) => Some(v@),
        None => None,
    }
}

/// The path dependencies of a plan.
pub open spec fn plan_deps(plan: CiPlan) -> Seq<(Seq<char>, Seq<char>)> {
    plan.path_deps@.map_values(|d: PathDepArg| path_dep_view(d))
}

/// The workflow document for a checked plan.
pub fn ci_workflow(workflow_name: &str, branches: &Vec<String>, matrix: &Vec<String>, plan: &CiPlan) -> (yaml: String)
    ensures
        yaml@ == workflow_yaml(
            ci_settings(
                workflow_name@,
                string_views(branches@),
                string_views(matrix@),
                plan.jobs@,
                plan_msrv(*plan),
                plan_deps(*plan),
            ),
        ),
{
    let mut g = generator_new();
    g = generator_workflow_name(g, workflow_name);
    g = generator_branches(g, branches);
    g = generator_matrix_os(g, matrix);
    let ghost base = generator_settings(g);
    let mut i: usize = 0;
    while i < plan.jobs.len()
        invariant
            0 <= i <= plan.jobs@.len(),
            generator_settings(g) == apply_jobs(base, plan.jobs@.subrange(0, i as int), plan_msrv(*plan)),
        decreases plan.jobs@.len() - i,
    {
        assert(plan.jobs@.subrange(0, i as int + 1).drop_last() =~= plan.jobs@.subrange(0, i as int));
        match plan.jobs[i] {
            CiJob::Clippy => {
                g = generator_with_clippy(g);
            },
            CiJob::Fmt => {
                g = generator_with_fmt(g);
            },
            CiJob::Docs => {
                g = generator_with_docs(g);
            },
            CiJob::Msrv => match &plan.msrv {
                Some(v) => {
                    g = generator_with_msrv(g, v.as_str());
                },
                None => {},
            },
        }
        i = i + 1;
    }
    assert(plan.jobs@.subrange(0, plan.jobs@.len() as int) =~= plan.jobs@);
    let ghost after_jobs = generator_settings(g);
    let mut k: usize = 0;
    while k < plan.path_deps.len()
        invariant
            0 <= k <= plan.path_deps@.len(),
            generator_settings(g) == (WorkflowSettings {
                path_deps: after_jobs.path_deps + plan_deps(*plan).subrange(0, k as int),
                ..after_jobs
            }),
        decreases plan.path_deps@.len() - k,
    {
        let d = &plan.path_deps[k];
        g = generator_with_path_dep(g, d.name.as_str(), d.url.as_str());
        assert(after_jobs.path_deps + plan_deps(*plan).subrange(0, k as int + 1) =~= (
        after_jobs.path_deps + plan_deps(*plan).subrange(0, k as int)).push(path_dep_view(*d)));
        k = k + 1;
    }
    assert(plan_deps(*plan).subrange(0, plan.path_deps@.len() as int) =~= plan_deps(*plan));
    generator_generate(&g)
}

/// The outcome of `dev ci` for its arguments: the first argument error
/// (see `plan_ci`), or the workflow document of the checked plan.
pub open spec fn ci_outcome(
    workflow_name: Seq<char>,
    branches: Seq<Seq<char>>,
    matrix: Seq<Seq<char>>,
    with: Seq<Seq<char>>,
    msrv: Option<Seq<char>>,
    raws: Seq<Seq<char>>,
) -> Result<Seq<char>, Seq<char>> {
    match planned_jobs(with, msrv) {
        Err(m) => Err(m),
        Ok(jobs) => match planned_path_deps(raws) {
            Err(m) => Err(m),
            Ok(deps) => Ok(workflow_yaml(ci_settings(workflow_name, branches, matrix, jobs, msrv, deps))),
        },
    }
}

/// Checks the arguments of `dev ci` and renders the workflow document.
pub fn generate_ci(
    workflow_name: &str,
    branches: &Vec<String>,
    matrix: &Vec<String>,
    with: &Vec<String>,
    msrv: Option<&str>,
    path_deps: &Vec<String>,
) -> (r: Result<String, String>)
    ensures
        match ci_outcome(
            workflow_name@,
            string_views(branches@),
            string_views(matrix@),
            string_views(with@),
            opt_view(msrv),
            string_views(path_deps@),
        ) {
            Ok(y) => r matches Ok(t) && t@ == y,
            Err(m) => r matches Err(e) && e@ == m,
        },
{
    match plan_ci(with, msrv, path_deps) {
        Err(e) => Err(e),
        Ok(plan) => Ok(ci_workflow(workflow_name, branches, matrix, &plan)),
    }
}

/// Extra jobs leave the workflow's name, branches, runners and path
/// dependencies as they were.
proof fn lemma_apply_jobs_keeps(s: WorkflowSettings, js: Seq<CiJob>, msrv: Option<Seq<char>>)
    ensures
        apply_jobs(s, js, msrv).workflow_name == s.workflow_name,
        apply_jobs(s, js, msrv).branches == s.branches,
        apply_jobs(s, js, msrv).matrix_os == s.matrix_os,
        apply_jobs(s, js, msrv).path_deps == s.path_deps,
    decreases js.len(),
{
    if js.len() > 0 {
        lemma_apply_jobs_keeps(s, js.drop_last(), msrv);
    }
}

/// `dev ci` keeps what it is given: the workflow it renders is that of a
/// configuration named as asked, whose push and pull-request filters are
/// the given branches in their order (`main` alone when none is given),
/// whose test matrix runs on the given runners in their order
/// (`ubuntu-latest` alone when none is given), and whose path
/// dependencies are exactly the parsed `--path-dep` arguments, in order.
pub proof fn law_ci_keeps_its_arguments(
    workflow_name: Seq<char>,
    branches: Seq<Seq<char>>,
    matrix: Seq<Seq<char>>,
    with: Seq<Seq<char>>,
    msrv: Option<Seq<char>>,
    raws: Seq<Seq<char>>,
)
    ensures
        ci_outcome(workflow_name, branches, matrix, with, msrv, raws) matches Ok(y) ==> exists|
            s: WorkflowSettings,
        |
            {
                &&& y == workflow_yaml(s)
                &&& s.workflow_name == workflow_name
                &&& s.branches == (if branches.len() == 0 { seq!["main"@] } else { branches })
                &&& s.matrix_os == (if matrix.len() == 0 { seq!["ubuntu-latest"@] } else { matrix })
                &&& (planned_path_deps(raws) matches Ok(d) && s.path_deps == d)
            },
        forall|jobs: Seq<CiJob>, deps: Seq<(Seq<char>, Seq<char>)>|
            #![trigger ci_settings(workflow_name, branches, matrix, jobs, msrv, deps)]
            {
                let s = ci_settings(workflow_name, branches, matrix, jobs, msrv, deps);
                &&& s.workflow_name == workflow_name
                &&& s.branches == (if branches.len() == 0 { seq!["main"@] } else { branches })
                &&& s.matrix_os == (if matrix.len() == 0 { seq!["ubuntu-latest"@] } else { matrix })
                &&& s.path_deps == deps
            },
{
    let base = WorkflowSettings {
        workflow_name: workflow_name,
        branches: or_single(branches, "main"@),
        matrix_os: or_single(matrix, "ubuntu-latest"@),
        ..default_settings()
    };
    assert forall|jobs: Seq<CiJob>, deps: Seq<(Seq<char>, Seq<char>)>|
        #![trigger ci_settings(workflow_name, branches, matrix, jobs, msrv, deps)]
        {
            let s = ci_settings(workflow_name, branches, matrix, jobs, msrv, deps);
            &&& s.workflow_name == workflow_name
            &&& s.branches == (if branches.len() == 0 { seq!["main"@] } else { branches })
            &&& s.matrix_os == (if matrix.len() == 0 { seq!["ubuntu-latest"@] } else { matrix })
            &&& s.path_deps == deps
        } by {
        lemma_apply_jobs_keeps(base, jobs, msrv);
        assert(Seq::<(Seq<char>, Seq<char>)>::empty() + deps =~= deps);
    }
    match planned_jobs(with, msrv) {
        Err(_) => {},
        Ok(jobs) => match planned_path_deps(raws) {
            Err(_) => {},
            Ok(deps) => {
                let s = ci_settings(workflow_name, branches, matrix, jobs, msrv, deps);
                assert(ci_outcome(workflow_name, branches, matrix, with, msrv, raws) == Ok::<Seq<char>, Seq<char>>(workflow_yaml(s)));
            },
        },
    }
}

} // verus!
