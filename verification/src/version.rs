//! The component table of `dev version`: finding a component by a
//! user-supplied name, the message for an unknown name, and the styled
//! table text. The table itself (the versions linked into the binary)
//! is supplied by the caller.

use vstd::prelude::*;

use crate::cli::{
    C_BOLD, C_CYAN, C_DIM, C_GREEN, ascii_lowercase, law_normalize_dev_prefix,
    normalize_component, normalize_component_spec, pad_right, paint_spec, push_painted_str,
};
use crate::text::{
    chars_eq, chars_of, debug_str, debug_text, has_prefix, is_ws, join, push_chars, push_joined,
    push_repeat, push_str, trim_end, trim_start, utf8_len, utf8_len_of,
};

verus! {

/// One row of the component table: the short alias a user types, the
/// crate name, and the crate version.
#[derive(Clone, Copy, Debug)]
pub struct Component {
    /// Short alias, such as `report`.
    pub alias: &'static str,
    /// Crate name, such as `dev-report`.
    pub name: &'static str,
    /// Resolved crate version.
    pub version: &'static str,
}

/// The second line of the version banner.
pub const TAGLINE: &'static str = "the Rust verification toolkit CLI";

/// The closing hint of the version banner.
pub const VERSION_TIP: &'static str =
    "tip: `dev version <name>` prints just one component; --json emits machine-readable output";

// ---------------------------------------------------------------------------
// Lookup
// ---------------------------------------------------------------------------

/// Index of the first row of `t` whose alias is `alias`, or `t.len()`.
pub open spec fn alias_index(t: Seq<Component>, alias: Seq<char>) -> nat
    decreases t.len(),
{
    if t.len() == 0 {
        0
    } else if t[0].alias@ == alias {
        0
    } else {
        1 + alias_index(t.drop_first(), alias)
    }
}

/// `alias_index` is the first index whose alias matches.
pub proof fn lemma_alias_index(t: Seq<Component>, alias: Seq<char>, k: int)
    requires
        0 <= k <= t.len(),
        forall|i: int| 0 <= i < k ==> #[trigger] t[i].alias@ != alias,
        k == t.len() || t[k].alias@ == alias,
    ensures
        alias_index(t, alias) == k,
    decreases k,
{
    if k > 0 {
        assert forall|i: int| 0 <= i < k - 1 implies #[trigger] t.drop_first()[i].alias@ != alias by {
            assert(t.drop_first()[i] == t[i + 1]);
        }
        lemma_alias_index(t.drop_first(), alias, k - 1);
    }
}

/// The row whose alias is `alias`, if the table has one.
pub open spec fn row_with_alias(t: Seq<Component>, alias: Seq<char>) -> Option<Component> {
    let k = alias_index(t, alias);
    if k < t.len() {
        Some(t[k as int])
    } else {
        None
    }
}

/// The first row of `table` whose alias is `alias`.
pub fn lookup_sibling(table: &[Component], alias: &str) -> (r: Option<Component>)
    ensures
        r == row_with_alias(table@, alias@),
{
    let a = chars_of(alias);
    let mut i: usize = 0;
    while i < table.len()
        invariant
            0 <= i <= table@.len(),
            a@ == alias@,
            forall|k: int| 0 <= k < i ==> #[trigger] table@[k].alias@ != alias@,
        decreases table@.len() - i,
    {
        let row = table[i];
        let ra = chars_of(row.alias);
        if chars_eq(ra.as_slice(), a.as_slice()) {
            proof {
                lemma_alias_index(table@, alias@, i as int);
            }
            return Some(row);
        }
        i = i + 1;
    }
    proof {
        lemma_alias_index(table@, alias@, table@.len() as int);
    }
    None
}

/// Looking up the alias of a row finds that row, when no other row has the
/// same alias.
pub proof fn law_lookup_finds_row(t: Seq<Component>, i: int)
    requires
        0 <= i < t.len(),
        forall|j: int| 0 <= j < t.len() && j != i ==> #[trigger] t[j].alias@ != t[i].alias@,
    ensures
        row_with_alias(t, t[i].alias@) == Some(t[i]),
{
    lemma_alias_index(t, t[i].alias@, i);
}

/// A component is found both by its alias and by its crate-style name
/// `dev-<alias>` (`coverage` and `dev-coverage` select the same row), for
/// a table of distinct aliases written in lower case, without white space
/// and without the `dev-` prefix.
pub proof fn law_find_component_by_alias(t: Seq<Component>, i: int)
    requires
        0 <= i < t.len(),
        forall|j: int| 0 <= j < t.len() && j != i ==> #[trigger] t[j].alias@ != t[i].alias@,
        ascii_lowercase(t[i].alias@) == t[i].alias@,
        forall|k: int| 0 <= k < t[i].alias@.len() ==> !is_ws(#[trigger] t[i].alias@[k]),
        !has_prefix(t[i].alias@, "dev-"@),
    ensures
        find_component_spec(t, t[i].alias@) == Ok::<Component, Seq<char>>(t[i]),
        find_component_spec(t, "dev-"@ + t[i].alias@) == Ok::<Component, Seq<char>>(t[i]),
{
    let a = t[i].alias@;
    assert(trim_start(a) == a);
    assert(trim_end(a) == a);
    assert(normalize_component_spec(a) == a);
    law_normalize_dev_prefix(a);
    law_lookup_finds_row(t, i);
}

/// The aliases of the table, in order.
pub open spec fn aliases(t: Seq<Component>) -> Seq<Seq<char>> {
    t.map_values(|c: Component| c.alias@)
}

/// The message for a name that matches no component: the name as typed,
/// in `Debug` form, then every known alias.
pub open spec fn unknown_component_text(t: Seq<Component>, name: Seq<char>) -> Seq<char> {
    "unknown component: "@ + debug_text(name) + ". Known: "@ + join(aliases(t), ", "@)
}

/// The message for a name that matches no component.
pub fn unknown_component_msg(table: &[Component], name: &str) -> (r: String)
    ensures
        r@ == unknown_component_text(table@, name@),
{
    let mut names: Vec<Vec<char>> = Vec::new();
    let mut i: usize = 0;
    while i < table.len()
        invariant
            0 <= i <= table@.len(),
            names@.len() == i,
            forall|k: int| 0 <= k < i ==> #[trigger] names@[k]@ == table@[k].alias@,
        decreases table@.len() - i,
    {
        names.push(chars_of(table[i].alias));
        i = i + 1;
    }
    assert(names@.map_values(|l: Vec<char>| l@) =~= aliases(table@));
    let mut r = String::new();
    push_str(&mut r, "unknown component: ");
    let d = debug_str(name);
    push_str(&mut r, d.as_str());
    push_str(&mut r, ". Known: ");
    push_joined(&mut r, names.as_slice(), ", ");
    r
}

/// The row a user-supplied name selects: the name in its short form
/// (see `normalize_component_spec`) looked up by alias; an unknown name
/// gives the message of `unknown_component_text`.
pub open spec fn find_component_spec(t: Seq<Component>, name: Seq<char>) -> Result<
    Component,
    Seq<char>,
> {
    match row_with_alias(t, normalize_component_spec(name)) {
        Some(c) => Ok(c),
        None => Err(unknown_component_text(t, name)),
    }
}

/// The row selected by a user-supplied component name.
pub fn find_component(table: &[Component], name: &str) -> (r: Result<Component, String>)
    ensures
        match find_component_spec(table@, name@) {
            Ok(c) => r == Ok::<Component, String>(c),
            Err(m) => r matches Err(e) && e@ == m,
        },
{
    let normalized = normalize_component(name);
    match lookup_sibling(table, normalized.as_str()) {
        Some(c) => Ok(c),
        None => Err(unknown_component_msg(table, name)),
    }
}

/// The rows that `dev version [<component>] --json` lists: the whole
/// table without a name, the one selected row with one.
pub fn selected_components(table: &[Component], component: Option<&str>) -> (r: Result<
    Vec<Component>,
    String,
>)
    ensures
        match component {
            None => r matches Ok(v) && v@ == table@,
            Some(name) => match find_component_spec(table@, name@) {
                Ok(c) => r matches Ok(v) && v@ == seq![c],
                Err(m) => r matches Err(e) && e@ == m,
            },
        },
{
    match component {
        None => {
            let mut v: Vec<Component> = Vec::new();
            let mut i: usize = 0;
            while i < table.len()
                invariant
                    0 <= i <= table@.len(),
                    v@ == table@.subrange(0, i as int),
                decreases table@.len() - i,
            {
                v.push(table[i]);
                i = i + 1;
                assert(v@ =~= table@.subrange(0, i as int));
            }
            assert(table@.subrange(0, table@.len() as int) =~= table@);
            Ok(v)
        },
        Some(name) => match find_component(table, name) {
            Ok(c) => {
                let v = vec![c];
                assert(v@ =~= seq![c]);
                Ok(v)
            },
            Err(e) => Err(e),
        },
    }
}

/// The line `dev version <component>` prints for one row: crate name and
/// version.
pub open spec fn component_line_spec(c: Component) -> Seq<char> {
    c.name@ + " "@ + c.version@
}

/// The line for one row (see `component_line_spec`).
pub fn component_line(c: Component) -> (r: String)
    ensures
        r@ == component_line_spec(c),
{
    let mut r = String::new();
    push_str(&mut r, c.name);
    push_str(&mut r, " ");
    push_str(&mut r, c.version);
    r
}

// ---------------------------------------------------------------------------
// The styled table
// ---------------------------------------------------------------------------

/// The longest crate name of the table, in bytes (0 for an empty table).
pub open spec fn max_name_bytes(t: Seq<Component>) -> nat
    decreases t.len(),
{
    if t.len() == 0 {
        0
    } else {
        let m = max_name_bytes(t.drop_last());
        let l = utf8_len(t.last().name@);
        if l > m {
            l
        } else {
            m
        }
    }
}

/// Width of the crate-name column: the longest name in bytes (at most
/// `usize::MAX`), or 12 for an empty table.
pub open spec fn name_column(t: Seq<Component>) -> nat {
    if t.len() == 0 {
        12
    } else if max_name_bytes(t) <= usize::MAX {
        max_name_bytes(t)
    } else {
        usize::MAX as nat
    }
}

/// One table row: the crate name padded to `w` characters, then the
/// version in green.
pub open spec fn component_row(c: Component, w: nat, color: bool) -> Seq<char> {
    "    "@ + pad_right(c.name@, w) + "   "@ + paint_spec(c.version@, C_GREEN@, color) + "\n"@
}

/// All table rows, in order.
pub open spec fn component_rows(t: Seq<Component>, w: nat, color: bool) -> Seq<char>
    decreases t.len(),
{
    if t.len() == 0 {
        Seq::empty()
    } else {
        component_rows(t.drop_last(), w, color) + component_row(t.last(), w, color)
    }
}

/// The text of `dev version` without arguments: a banner with the binary
/// version and tag line, the component table, and a closing hint, each
/// line ending in a newline.
pub open spec fn version_text(dev_version: Seq<char>, t: Seq<Component>, color: bool) -> Seq<
    char,
> {
    "\n"@ + "  "@ + paint_spec("dev "@ + dev_version, C_BOLD@ + C_CYAN@, color) + "\n"@ + "  "@
        + paint_spec(TAGLINE@, C_DIM@, color) + "\n"@ + "\n"@ + "  "@ + paint_spec(
        "components"@,
        C_BOLD@,
        color,
    ) + "\n"@ + component_rows(t, name_column(t), color) + "\n"@ + "  "@ + paint_spec(
        VERSION_TIP@,
        C_DIM@,
        color,
    ) + "\n"@ + "\n"@
}

/// The width of the crate-name column (see `name_column`).
pub fn name_column_of(table: &[Component]) -> (w: usize)
    ensures
        w == name_column(table@),
{
    if table.len() == 0 {
        return 12;
    }
    let mut m: usize = 0;
    let mut i: usize = 0;
    while i < table.len()
        invariant
            0 <= i <= table@.len(),
            m == if max_name_bytes(table@.subrange(0, i as int)) <= usize::MAX {
                max_name_bytes(table@.subrange(0, i as int))
            } else {
                usize::MAX as nat
            },
        decreases table@.len() - i,
    {
        assert(table@.subrange(0, i as int + 1).drop_last() =~= table@.subrange(0, i as int));
        let cs = chars_of(table[i].name);
        let l = utf8_len_of(cs.as_slice());
        if l > m {
            m = l;
        }
        i = i + 1;
    }
    assert(table@.subrange(0, table@.len() as int) =~= table@);
    m
}

fn write_component_row(out: &mut String, c: Component, w: usize, color: bool)
    ensures
        final(out)@ == old(out)@ + component_row(c, w as nat, color),
{
    let ghost start = out@;
    push_str(out, "    ");
    let cs = chars_of(c.name);
    push_chars(out, cs.as_slice());
    if cs.len() < w {
        push_repeat(out, ' ', w - cs.len());
    }
    push_str(out, "   ");
    push_painted_str(out, c.version, C_GREEN, color);
    push_str(out, "\n");
    assert(out@ =~= start + component_row(c, w as nat, color));
}

/// The text of `dev version` without arguments (see `version_text`).
pub fn version_table(dev_version: &str, table: &[Component], color: bool) -> (r: String)
    ensures
        r@ == version_text(dev_version@, table@, color),
{
    let mut out = String::new();
    push_str(&mut out, "\n");
    push_str(&mut out, "  ");
    let mut title = String::new();
    push_str(&mut title, "dev ");
    push_str(&mut title, dev_version);
    let mut bc = String::new();
    push_str(&mut bc, C_BOLD);
    push_str(&mut bc, C_CYAN);
    push_painted_str(&mut out, title.as_str(), bc.as_str(), color);
    push_str(&mut out, "\n");
    push_str(&mut out, "  ");
    push_painted_str(&mut out, TAGLINE, C_DIM, color);
    push_str(&mut out, "\n");
    push_str(&mut out, "\n");
    push_str(&mut out, "  ");
    push_painted_str(&mut out, "components", C_BOLD, color);
    push_str(&mut out, "\n");
    let ghost head = out@;
    let w = name_column_of(table);
    let mut i: usize = 0;
    while i < table.len()
        invariant
            0 <= i <= table@.len(),
            w == name_column(table@),
            out@ == head + component_rows(table@.subrange(0, i as int), w as nat, color),
        decreases table@.len() - i,
    {
        write_component_row(&mut out, table[i], w, color);
        assert(table@.subrange(0, i as int + 1).drop_last() =~= table@.subrange(0, i as int));
        i = i + 1;
    }
    assert(table@.subrange(0, table@.len() as int) =~= table@);
    push_str(&mut out, "\n");
    push_str(&mut out, "  ");
    push_painted_str(&mut out, VERSION_TIP, C_DIM, color);
    push_str(&mut out, "\n");
    push_str(&mut out, "\n");
    assert(out@ =~= version_text(dev_version@, table@, color));
    out
}

} // verus!
