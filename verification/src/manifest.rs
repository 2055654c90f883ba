//! Copying a project: which entries are copied, and how the copy's
//! `Cargo.toml` takes the new project's name.

use vstd::prelude::*;
use crate::text::{
    chars_of, concat2, concat4, is_white_space, substring, text_eq, trim_end_ws, trim_start_window,
    trim_start_ws, trim_window, trim_ws, window_eq,
};

verus! {

broadcast use vstd::string::group_string_axioms;

/// The end of the line that starts at `pos`: the first line feed at or
/// after `pos`, or the end of the text.
pub open spec fn line_end(t: Seq<char>, pos: int) -> int
    decreases t.len() - pos,
{
    if pos >= t.len() {
        t.len() as int
    } else if t[pos] == '\n' {
        pos
    } else {
        line_end(t, pos + 1)
    }
}

/// The line is a TOML table header such as `[package]`.
pub open spec fn is_table_header(line: Seq<char>) -> bool {
    let u = trim_ws(line);
    u.len() > 0 && u[0] == '['
}

/// The line assigns the key `name`: `name`, optional white space, `=`.
pub open spec fn assigns_name(line: Seq<char>) -> bool {
    let u = trim_start_ws(line);
    &&& u.len() >= 4
    &&& u.take(4) == "name"@
    &&& trim_start_ws(u.skip(4)).len() > 0
    &&& trim_start_ws(u.skip(4))[0] == '='
}

pub proof fn lemma_line_end_bounds(t: Seq<char>, pos: int)
    requires
        0 <= pos <= t.len(),
    ensures
        pos <= line_end(t, pos) <= t.len(),
        line_end(t, pos) < t.len() ==> t[line_end(t, pos)] == '\n',
        forall|k: int| pos <= k < line_end(t, pos) ==> t[k] != '\n',
    decreases t.len() - pos,
{
    if pos < t.len() && t[pos] != '\n' {
        lemma_line_end_bounds(t, pos + 1);
    }
}

/// The bounds of the line that sets the package's `name` in the manifest
/// `t`: the first line assigning `name` inside the `[package]` table,
/// searching from the line that starts at `pos` (`in_package`: that line is
/// inside `[package]`).
pub open spec fn package_name_line(t: Seq<char>, pos: int, in_package: bool) -> Option<(int, int)>
    decreases t.len() - pos,
    when 0 <= pos <= t.len()
{
    let e = line_end(t, pos);
    let line = t.subrange(pos, e);
    proof {
        lemma_line_end_bounds(t, pos);
    }
    if is_table_header(line) {
        if e < t.len() {
            package_name_line(t, e + 1, trim_ws(line) == "[package]"@)
        } else {
            None
        }
    } else if in_package && assigns_name(line) {
        Some((pos, e))
    } else if e < t.len() {
        package_name_line(t, e + 1, in_package)
    } else {
        None
    }
}

/// The line `name = "<new_name>"`.
pub open spec fn name_assignment(new_name: Seq<char>) -> Seq<char> {
    "name = \""@ + new_name + "\""@
}

/// The manifest `t` with the package's `name` line replaced by
/// `name = "<new_name>"`; unchanged when it has no such line.
pub open spec fn renamed_manifest(t: Seq<char>, new_name: Seq<char>) -> Seq<char> {
    match package_name_line(t, 0, false) {
        Some((a, b)) => t.take(a) + name_assignment(new_name) + t.skip(b),
        None => t,
    }
}

/// Whether the line `v[a..b]` assigns the key `name`.
fn line_assigns_name(v: &Vec<char>, a: usize, b: usize) -> (r: bool)
    requires
        a <= b <= v@.len(),
    ensures
        r == assigns_name(v@.subrange(a as int, b as int)),
{
    let ghost line = v@.subrange(a as int, b as int);
    let s = trim_start_window(v, a, b);
    let ghost u = trim_start_ws(line);
    assert(u == v@.subrange(s as int, b as int));
    if b - s < 4 {
        return false;
    }
    assert(u.take(4) =~= v@.subrange(s as int, s + 4));
    if !window_eq(v, s, s + 4, "name") {
        return false;
    }
    assert(u.skip(4) =~= v@.subrange(s + 4, b as int));
    let s2 = trim_start_window(v, s + 4, b);
    s2 < b && v[s2] == '='
}

/// The copy of a manifest for a project named `new_name`: the package's
/// `name` line (in `[package]`) becomes `name = "<new_name>"`.
pub fn rename_package(manifest: &str, new_name: &str) -> (r: String)
    ensures
        r@ == renamed_manifest(manifest@, new_name@),
{
    let v = chars_of(manifest);
    let n = v.len();
    let mut pos: usize = 0;
    let mut in_package = false;
    loop
        invariant
            v@ == manifest@,
            n == v@.len(),
            pos <= n,
            package_name_line(v@, pos as int, in_package) == package_name_line(v@, 0, false),
        decreases n - pos,
    {
        let mut e = pos;
        proof {
            lemma_line_end_bounds(v@, pos as int);
        }
        while e < n && v[e] != '\n'
            invariant
                pos <= e <= n == v@.len(),
                line_end(v@, pos as int) == line_end(v@, e as int),
            decreases n - e,
        {
            e = e + 1;
        }
        assert(line_end(v@, pos as int) == e);
        let (ts, te) = trim_window(&v, pos, e);
        let header = ts < te && v[ts] == '[';
        assert(header == is_table_header(v@.subrange(pos as int, e as int))) by {
            if ts < te {
                assert(trim_ws(v@.subrange(pos as int, e as int))[0] == v@[ts as int]);
            }
        }
        if header {
            let is_package = window_eq(&v, ts, te, "[package]");
            if e < n {
                in_package = is_package;
                pos = e + 1;
            } else {
                return manifest.to_owned();
            }
        } else if in_package && line_assigns_name(&v, pos, e) {
            let r = concat4(
                substring(manifest, 0, pos).as_str(),
                "name = \"",
                new_name,
                "\"",
            );
            assert(manifest@.subrange(0, pos as int) == manifest@.take(pos as int));
            assert(manifest@.subrange(e as int, n as int) == manifest@.skip(e as int));
            return concat2(r.as_str(), substring(manifest, e, n).as_str());
        } else if e < n {
            pos = e + 1;
        } else {
            return manifest.to_owned();
        }
    }
}

/// A line that holds no line feed and ends at a line feed or at the end of
/// the text ends where `line_end` says.
proof fn lemma_line_end_at(t: Seq<char>, pos: int, e: int)
    requires
        0 <= pos <= e <= t.len(),
        forall|k: int| pos <= k < e ==> t[k] != '\n',
        e == t.len() || t[e] == '\n',
    ensures
        line_end(t, pos) == e,
    decreases e - pos,
{
    if pos < e {
        lemma_line_end_at(t, pos + 1, e);
    }
}

/// Where the search finds the package's name line, it finds it at or after
/// where it started, and a line that starts earlier ends before it.
proof fn lemma_name_line_after(t: Seq<char>, pos: int, in_package: bool)
    requires
        0 <= pos <= t.len(),
        package_name_line(t, pos, in_package) is Some,
    ensures
        ({
            let (a, b) = package_name_line(t, pos, in_package)->0;
            &&& pos <= a <= b <= t.len()
            &&& b == line_end(t, a)
            &&& pos < a ==> line_end(t, pos) < a
        }),
    decreases t.len() - pos,
{
    lemma_line_end_bounds(t, pos);
    let e = line_end(t, pos);
    if package_name_line(t, pos, in_package) != Some((pos, e)) {
        let ip = if is_table_header(t.subrange(pos, e)) {
            trim_ws(t.subrange(pos, e)) == "[package]"@
        } else {
            in_package
        };
        lemma_name_line_after(t, e + 1, ip);
    }
}

/// `trim_end_ws(s)` keeps the first character of `s` when that is not white
/// space.
proof fn lemma_trim_end_keeps_first(s: Seq<char>)
    requires
        s.len() > 0,
        !is_white_space(s[0]),
    ensures
        trim_end_ws(s).len() > 0,
        trim_end_ws(s)[0] == s[0],
    decreases s.len(),
{
    if s.len() > 1 && is_white_space(s.last()) {
        lemma_trim_end_keeps_first(s.drop_last());
    }
}

/// The line `name = "<new_name>"` is no table header and assigns `name`.
proof fn lemma_name_assignment_line(new_name: Seq<char>)
    ensures
        !is_table_header(name_assignment(new_name)),
        assigns_name(name_assignment(new_name)),
        name_assignment(new_name).len() == new_name.len() + 9,
        forall|k: int|
            0 <= k < name_assignment(new_name).len() && name_assignment(new_name)[k] == '\n'
                ==> 8 <= k < 8 + new_name.len() && new_name[k - 8] == '\n',
{
    reveal_strlit("name = \"");
    reveal_strlit("\"");
    reveal_strlit("name");
    let x = name_assignment(new_name);
    assert(x[0] == 'n');
    assert(trim_start_ws(x) == x);
    lemma_trim_end_keeps_first(x);
    assert(x.take(4) =~= "name"@);
    let rest = x.skip(4);
    assert(rest[0] == ' ');
    assert(rest.drop_first()[0] == '=');
    assert(trim_start_ws(rest.drop_first()) == rest.drop_first());
    assert forall|k: int| 0 <= k < x.len() && x[k] == '\n' implies 8 <= k < 8 + new_name.len()
        && new_name[k - 8] == '\n' by {
        if k < 8 {
            assert(x[k] == "name = \""@[k]);
        } else if k >= 8 + new_name.len() {
            assert(x[k] == '"');
        }
    }
}

/// Searching the renamed manifest from a line at or before the replaced one
/// finds the replacement line.
proof fn lemma_search_finds_replacement(
    t: Seq<char>,
    pos: int,
    in_package: bool,
    new_name: Seq<char>,
    a: int,
    b: int,
)
    requires
        0 <= pos <= t.len(),
        package_name_line(t, pos, in_package) == Some((a, b)),
        !new_name.contains('\n'),
    ensures
        package_name_line(
            t.take(a) + name_assignment(new_name) + t.skip(b),
            pos,
            in_package,
        ) == Some((a, a + name_assignment(new_name).len())),
    decreases t.len() - pos,
{
    let x = name_assignment(new_name);
    let r = t.take(a) + x + t.skip(b);
    lemma_name_line_after(t, pos, in_package);
    lemma_name_assignment_line(new_name);
    lemma_line_end_bounds(t, pos);
    let e = line_end(t, pos);
    assert(forall|k: int| 0 <= k < a ==> r[k] == t[k]);
    if pos == a {
        assert(e == b);
        assert(r.subrange(a, a + x.len()) =~= x);
        assert forall|k: int| a <= k < a + x.len() implies r[k] != '\n' by {
            assert(r[k] == x[k - a]);
            if x[k - a] == '\n' {
                assert(new_name.contains(new_name[k - a - 8]));
            }
        }
        if a + x.len() < r.len() {
            assert(r[a + x.len()] == t[b]);
        }
        lemma_line_end_at(r, a, a + x.len());
        if is_table_header(t.subrange(pos, e)) {
            lemma_name_line_after(t, e + 1, trim_ws(t.subrange(pos, e)) == "[package]"@);
        } else if !(in_package && assigns_name(t.subrange(pos, e))) {
            lemma_name_line_after(t, e + 1, in_package);
        }
    } else {
        assert(e < a);
        lemma_line_end_at(r, pos, e);
        assert(r.subrange(pos, e) =~= t.subrange(pos, e));
        let ip = if is_table_header(t.subrange(pos, e)) {
            trim_ws(t.subrange(pos, e)) == "[package]"@
        } else {
            in_package
        };
        lemma_search_finds_replacement(t, e + 1, ip, new_name, a, b);
    }
}

/// After a rename, the manifest's package `name` line is exactly
/// `name = "<new_name>"`, standing where the old one stood (for a name
/// without line feeds); a manifest with no package name is left as it is.
pub proof fn lemma_renamed_manifest_names_package(t: Seq<char>, new_name: Seq<char>)
    requires
        !new_name.contains('\n'),
    ensures
        package_name_line(t, 0, false) matches Some((a, b)) ==> {
            let r = renamed_manifest(t, new_name);
            &&& package_name_line(r, 0, false) == Some((a, a + name_assignment(new_name).len()))
            &&& r.subrange(a, a + name_assignment(new_name).len()) == name_assignment(new_name)
        },
        package_name_line(t, 0, false) is None ==> renamed_manifest(t, new_name) == t,
{
    if let Some((a, b)) = package_name_line(t, 0, false) {
        lemma_name_line_after(t, 0, false);
        lemma_search_finds_replacement(t, 0, false, new_name, a, b);
        let x = name_assignment(new_name);
        assert((t.take(a) + x + t.skip(b)).subrange(a, a + x.len()) =~= x);
    }
}

/// Renaming a copied manifest a second time to the same name changes
/// nothing (for a name without line feeds).
pub proof fn lemma_rename_idempotent(t: Seq<char>, new_name: Seq<char>)
    requires
        !new_name.contains('\n'),
    ensures
        renamed_manifest(renamed_manifest(t, new_name), new_name) == renamed_manifest(t, new_name),
{
    lemma_renamed_manifest_names_package(t, new_name);
    if let Some((a, b)) = package_name_line(t, 0, false) {
        lemma_name_line_after(t, 0, false);
        let r = renamed_manifest(t, new_name);
        let x = name_assignment(new_name);
        assert(r.subrange(a, a + x.len()) == x);
        assert(r.take(a) + x + r.skip(a + x.len()) =~= r);
    }
}

/// Whether a top-level entry of a project is copied when the project is
/// duplicated: everything except the `target` build directory.
pub fn copied_entry(name: &str) -> (r: bool)
    ensures
        r == (name@ != "target"@),
{
    !text_eq(name, "target")
}

} // verus!
