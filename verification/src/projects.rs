//! Discovering projects in the projects directory and ordering them by name.

use vstd::prelude::*;
use crate::text::{chars_of, text_eq};

verus! {

/// A project found in the projects directory.
#[derive(Debug, Clone)]
pub struct ProjectInfo {
    /// The directory's name, which is the project's name.
    pub name: String,
    /// The full path of the project directory.
    pub path: String,
}

/// What a directory listing tells about one entry of the projects directory.
#[derive(Debug, Clone)]
pub struct ScanEntry {
    /// The entry's file name, where it has one.
    pub name: Option<String>,
    /// The entry's full path.
    pub path: String,
    /// The entry is a directory.
    pub is_dir: bool,
    /// The entry holds a `Cargo.toml`.
    pub has_manifest: bool,
}

/// The project an entry stands for: a directory with a `Cargo.toml` and a name.
pub open spec fn project_of_entry(e: ScanEntry) -> Option<ProjectInfo> {
    if e.is_dir && e.has_manifest && e.name is Some {
        Some(ProjectInfo { name: e.name->0, path: e.path })
    } else {
        None
    }
}

/// The projects among `entries`, in listing order.
pub open spec fn candidate_projects(entries: Seq<ScanEntry>) -> Seq<ProjectInfo> {
    entries.filter_map(|e: ScanEntry| project_of_entry(e))
}

/// `a` comes strictly before `b` in lexicographic order of code points, the
/// order in which Rust compares `String`s (byte order of UTF-8 is code point
/// order).
pub open spec fn text_precedes(a: Seq<char>, b: Seq<char>) -> bool
    decreases a.len(),
{
    if a.len() == 0 {
        b.len() > 0
    } else if b.len() == 0 {
        false
    } else if a[0] != b[0] {
        (a[0] as int) < (b[0] as int)
    } else {
        text_precedes(a.drop_first(), b.drop_first())
    }
}

/// `s` is ordered by name: no project comes after one whose name follows its
/// own.
pub open spec fn sorted_by_name(s: Seq<ProjectInfo>) -> bool {
    forall|i: int, j: int|
        0 <= i < j < s.len() ==> !text_precedes(#[trigger] s[j].name@, #[trigger] s[i].name@)
}

/// The projects of `s` whose name is `n`, in the order of `s`.
pub open spec fn with_name(s: Seq<ProjectInfo>, n: Seq<char>) -> Seq<ProjectInfo> {
    s.filter(has_name(n))
}

/// The test "this project is named `n`".
pub open spec fn has_name(n: Seq<char>) -> spec_fn(ProjectInfo) -> bool {
    |p: ProjectInfo| p.name@ == n
}

/// `r` is `s` sorted by name, stably: sorted, and for each name the projects
/// with that name come in the order they had in `s`.
pub open spec fn is_stable_sort_by_name(r: Seq<ProjectInfo>, s: Seq<ProjectInfo>) -> bool {
    &&& sorted_by_name(r)
    &&& forall|n: Seq<char>| #[trigger] with_name(r, n) == with_name(s, n)
}

pub proof fn lemma_precedes_irreflexive(a: Seq<char>)
    ensures
        !text_precedes(a, a),
    decreases a.len(),
{
    if a.len() > 0 {
        lemma_precedes_irreflexive(a.drop_first());
    }
}

pub proof fn lemma_precedes_asymmetric(a: Seq<char>, b: Seq<char>)
    requires
        text_precedes(a, b),
    ensures
        !text_precedes(b, a),
    decreases a.len(),
{
    if a.len() > 0 && b.len() > 0 && a[0] == b[0] {
        lemma_precedes_asymmetric(a.drop_first(), b.drop_first());
    }
}

pub proof fn lemma_precedes_total(a: Seq<char>, b: Seq<char>)
    ensures
        text_precedes(a, b) || text_precedes(b, a) || a == b,
    decreases a.len(),
{
    if a.len() == 0 {
        if b.len() == 0 {
            assert(a =~= b);
        }
    } else if b.len() > 0 && a[0] == b[0] {
        lemma_precedes_total(a.drop_first(), b.drop_first());
        if a.drop_first() == b.drop_first() {
            assert(a =~= seq![a[0]] + a.drop_first());
            assert(b =~= seq![b[0]] + b.drop_first());
        }
    } else if b.len() > 0 {
        let x = a[0] as int;
        let y = b[0] as int;
        assert(x != y) by {
            if x == y {
                assert(a[0] == b[0]);
            }
        }
    }
}

pub proof fn lemma_precedes_transitive(a: Seq<char>, b: Seq<char>, c: Seq<char>)
    requires
        text_precedes(a, b),
        text_precedes(b, c),
    ensures
        text_precedes(a, c),
    decreases a.len(),
{
    if a.len() > 0 && b.len() > 0 && c.len() > 0 {
        if a[0] == b[0] && b[0] == c[0] {
            lemma_precedes_transitive(a.drop_first(), b.drop_first(), c.drop_first());
        } else {
            let x = a[0] as int;
            let y = b[0] as int;
            let z = c[0] as int;
            if a[0] == c[0] {
                assert(x == z);
            }
        }
    }
}

/// Names are ordered lexicographically by code point: at the first position
/// where two names differ, the smaller code point comes first.
pub proof fn lemma_precedes_at_first_difference(a: Seq<char>, b: Seq<char>, k: int)
    requires
        0 <= k < a.len(),
        k < b.len(),
        a.take(k) == b.take(k),
        a[k] != b[k],
    ensures
        text_precedes(a, b) == ((a[k] as int) < (b[k] as int)),
    decreases k,
{
    if k > 0 {
        assert(a[0] == a.take(k)[0]);
        assert(b[0] == b.take(k)[0]);
        assert(a.drop_first().take(k - 1) =~= a.take(k).drop_first());
        assert(b.drop_first().take(k - 1) =~= b.take(k).drop_first());
        lemma_precedes_at_first_difference(a.drop_first(), b.drop_first(), k - 1);
    }
}

/// A proper prefix of a name comes before it.
pub proof fn lemma_prefix_precedes(a: Seq<char>, b: Seq<char>)
    requires
        a.len() < b.len(),
        b.take(a.len() as int) == a,
    ensures
        text_precedes(a, b),
        !text_precedes(b, a),
    decreases a.len(),
{
    if a.len() > 0 {
        assert(a[0] == b.take(a.len() as int)[0]);
        assert(b.drop_first().take(a.len() - 1) =~= a.drop_first());
        lemma_prefix_precedes(a.drop_first(), b.drop_first());
    }
}

/// `a < b` and `b <= c` give `a < c`.
proof fn lemma_precedes_then_not_after(a: Seq<char>, b: Seq<char>, c: Seq<char>)
    requires
        text_precedes(a, b),
        !text_precedes(c, b),
    ensures
        text_precedes(a, c),
{
    lemma_precedes_total(b, c);
    if text_precedes(b, c) {
        lemma_precedes_transitive(a, b, c);
    }
}

/// A project occurs in `s` as often as in the projects of `s` sharing its name.
proof fn lemma_count_in_with_name(s: Seq<ProjectInfo>, p: ProjectInfo)
    ensures
        s.to_multiset().count(p) == with_name(s, p.name@).to_multiset().count(p),
    decreases s.len(),
{
    broadcast use vstd::seq_lib::group_to_multiset_ensures;

    if s.len() > 0 {
        let t = s.drop_last();
        let a = s.last();
        assert(s =~= t.push(a));
        lemma_count_in_with_name(t, p);
        t.lemma_filter_push(a, has_name(p.name@));
    }
}

/// Sorting by name neither loses nor duplicates a project: a stable sort of
/// `s` holds each project exactly as often as `s` does.
pub proof fn lemma_stable_sort_is_permutation(r: Seq<ProjectInfo>, s: Seq<ProjectInfo>)
    requires
        is_stable_sort_by_name(r, s),
    ensures
        r.to_multiset() == s.to_multiset(),
        r.len() == s.len(),
{
    broadcast use vstd::seq_lib::group_to_multiset_ensures;

    assert forall|p: ProjectInfo| r.to_multiset().count(p) == s.to_multiset().count(p) by {
        lemma_count_in_with_name(r, p);
        lemma_count_in_with_name(s, p);
        assert(with_name(r, p.name@) == with_name(s, p.name@));
    }
    assert(r.to_multiset() =~= s.to_multiset());
    vstd::seq_lib::to_multiset_len(r);
    vstd::seq_lib::to_multiset_len(s);
}

/// Decides `text_precedes(a@, b@)`, the order of `a.cmp(b) == Less`.
pub fn name_precedes(a: &str, b: &str) -> (r: bool)
    ensures
        r == text_precedes(a@, b@),
{
    let va = chars_of(a);
    let vb = chars_of(b);
    let mut i: usize = 0;
    assert(va@.skip(0) =~= va@);
    assert(vb@.skip(0) =~= vb@);
    loop
        invariant
            va@ == a@,
            vb@ == b@,
            i <= va@.len(),
            i <= vb@.len(),
            text_precedes(a@, b@) == text_precedes(va@.skip(i as int), vb@.skip(i as int)),
        decreases va@.len() - i,
    {
        if i == va.len() {
            return i < vb.len();
        }
        if i == vb.len() {
            return false;
        }
        let x = va[i];
        let y = vb[i];
        if x != y {
            return x < y;
        }
        assert(va@.skip(i as int).drop_first() =~= va@.skip(i + 1));
        assert(vb@.skip(i as int).drop_first() =~= vb@.skip(i + 1));
        i = i + 1;
    }
}

/// The projects among `entries` (directories holding a `Cargo.toml`), in
/// listing order.
pub fn project_candidates(entries: &Vec<ScanEntry>) -> (r: Vec<ProjectInfo>)
    ensures
        r@ == candidate_projects(entries@),
{
    let mut r: Vec<ProjectInfo> = Vec::new();
    let mut i: usize = 0;
    while i < entries.len()
        invariant
            i <= entries@.len(),
            r@ == candidate_projects(entries@.take(i as int)),
        decreases entries@.len() - i,
    {
        let e = &entries[i];
        assert(entries@.take(i + 1).drop_last() =~= entries@.take(i as int));
        assert(entries@.take(i + 1).last() == entries@[i as int]);
        if e.is_dir && e.has_manifest {
            match &e.name {
                Some(name) => {
                    let p = ProjectInfo { name: name.clone(), path: e.path.clone() };
                    r.push(p);
                    assert(r@ =~= candidate_projects(entries@.take(i as int)) + seq![p]);
                },
                None => {},
            }
        }
        i = i + 1;
    }
    assert(entries@.take(entries@.len() as int) =~= entries@);
    r
}

/// Inserting `x` at `pos`, where everything before `pos` has a name that does
/// not follow `x`'s and everything from `pos` on has a name that follows it,
/// appends `x` to the projects named like it and leaves the other names alone.
proof fn lemma_with_name_insert(out: Seq<ProjectInfo>, pos: int, x: ProjectInfo, n: Seq<char>)
    requires
        0 <= pos <= out.len(),
        forall|k: int| pos <= k < out.len() ==> text_precedes(x.name@, #[trigger] out[k].name@),
    ensures
        with_name(out.insert(pos, x), n) == if x.name@ == n {
            with_name(out, n).push(x)
        } else {
            with_name(out, n)
        },
{
    let pred = has_name(n);
    let l = out.subrange(0, pos);
    let r = out.subrange(pos, out.len() as int);
    assert(out =~= l + r);
    assert(out.insert(pos, x) =~= (l + seq![x]) + r);
    Seq::filter_distributes_over_add(l + seq![x], r, pred);
    Seq::filter_distributes_over_add(l, seq![x], pred);
    Seq::filter_distributes_over_add(l, r, pred);
    reveal_with_fuel(Seq::filter, 2);
    assert(seq![x].drop_last() =~= Seq::<ProjectInfo>::empty());
    if x.name@ == n {
        assert forall|k: int| 0 <= k < r.len() implies !pred(#[trigger] r[k]) by {
            assert(r[k] == out[pos + k]);
            lemma_precedes_irreflexive(n);
        }
        r.lemma_all_neg_filter_empty(pred);
        assert(r.filter(pred) =~= Seq::<ProjectInfo>::empty());
        assert(l.filter(pred) + r.filter(pred) =~= l.filter(pred));
        assert(seq![x].filter(pred) =~= seq![x]);
        assert((l.filter(pred) + seq![x]) + r.filter(pred) =~= l.filter(pred).push(x));
    } else {
        assert(seq![x].filter(pred) =~= Seq::<ProjectInfo>::empty());
        assert(l.filter(pred) + seq![x].filter(pred) =~= l.filter(pred));
    }
}

/// `projects` sorted by name; projects with equal names keep their order
/// (what `sort_by(|a, b| a.name.cmp(&b.name))` gives).
pub fn sort_by_name(projects: Vec<ProjectInfo>) -> (r: Vec<ProjectInfo>)
    ensures
        is_stable_sort_by_name(r@, projects@),
{
    let ghost input = projects@;
    let mut rest = projects;
    let mut out: Vec<ProjectInfo> = Vec::new();
    let ghost mut done: int = 0;
    while rest.len() > 0
        invariant
            0 <= done <= input.len(),
            rest@ == input.skip(done),
            sorted_by_name(out@),
            forall|n: Seq<char>| #[trigger] with_name(out@, n) == with_name(input.take(done), n),
        decreases rest@.len(),
    {
        let x = rest.remove(0);
        assert(x == input[done]);
        let mut pos: usize = 0;
        while pos < out.len() && !name_precedes(x.name.as_str(), out[pos].name.as_str())
            invariant
                pos <= out@.len(),
                forall|k: int| 0 <= k < pos ==> !text_precedes(x.name@, #[trigger] out@[k].name@),
            decreases out@.len() - pos,
        {
            pos = pos + 1;
        }
        let ghost old_out = out@;
        proof {
            assert forall|k: int| pos <= k < old_out.len() implies text_precedes(
                x.name@,
                #[trigger] old_out[k].name@,
            ) by {
                if k > pos {
                    lemma_precedes_then_not_after(x.name@, old_out[pos as int].name@, old_out[k].name@);
                }
            }
        }
        out.insert(pos, x);
        proof {
            assert(out@ == old_out.insert(pos as int, x));
            assert forall|i: int, j: int| 0 <= i < j < out@.len() implies !text_precedes(
                #[trigger] out@[j].name@,
                #[trigger] out@[i].name@,
            ) by {
                if i == pos {
                    assert(out@[j] == old_out[j - 1]);
                    lemma_precedes_asymmetric(x.name@, old_out[j - 1].name@);
                } else if j == pos {
                    assert(out@[i] == old_out[i]);
                    lemma_precedes_total(x.name@, old_out[i].name@);
                    if text_precedes(old_out[i].name@, x.name@) {
                        lemma_precedes_asymmetric(old_out[i].name@, x.name@);
                    } else if old_out[i].name@ == x.name@ {
                        lemma_precedes_irreflexive(x.name@);
                    }
                } else {
                    let ii = if i < pos { i } else { i - 1 };
                    let jj = if j < pos { j } else { j - 1 };
                    assert(out@[i] == old_out[ii]);
                    assert(out@[j] == old_out[jj]);
                }
            }
            assert(input.take(done + 1) =~= input.take(done).push(x));
            assert forall|n: Seq<char>| #[trigger] with_name(out@, n) == with_name(
                input.take(done + 1),
                n,
            ) by {
                lemma_with_name_insert(old_out, pos as int, x, n);
                input.take(done).lemma_filter_push(x, has_name(n));
            }
            assert(rest@ =~= input.skip(done + 1));
            done = done + 1;
        }
    }
    assert(input.take(done) =~= input);
    out
}

/// The projects among `entries`, ordered by name: what scanning the projects
/// directory reports.
pub fn select_projects(entries: &Vec<ScanEntry>) -> (r: Vec<ProjectInfo>)
    ensures
        is_stable_sort_by_name(r@, candidate_projects(entries@)),
{
    sort_by_name(project_candidates(entries))
}

/// The index of the first project named `name`, or `None` when no project
/// has that name.
pub fn find_project(projects: &Vec<ProjectInfo>, name: &str) -> (r: Option<usize>)
    ensures
        r is None <==> forall|k: int| 0 <= k < projects@.len() ==> projects@[k].name@ != name@,
        r matches Some(i) ==> {
            &&& i < projects@.len()
            &&& projects@[i as int].name@ == name@
            &&& forall|k: int| 0 <= k < i ==> projects@[k].name@ != name@
        },
{
    let mut i: usize = 0;
    while i < projects.len()
        invariant
            i <= projects@.len(),
            forall|k: int| 0 <= k < i ==> projects@[k].name@ != name@,
        decreases projects@.len() - i,
    {
        if text_eq(projects[i].name.as_str(), name) {
            return Some(i);
        }
        i = i + 1;
    }
    None
}

} // verus!
