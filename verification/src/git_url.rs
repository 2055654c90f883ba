//! Deriving a project folder name from a git repository URL.

use vstd::prelude::*;
use crate::text::{
    chars_of, is_white_space, opt_view, substring, trim_bounds, trim_end_ws, trim_start_ws, trim_ws,
};

verus! {

/// The suffix that `git` repository URLs conventionally end with.
pub open spec fn git_suffix() -> Seq<char> {
    seq!['.', 'g', 'i', 't']
}

/// `s` ends with `suffix`.
pub open spec fn ends_with(s: Seq<char>, suffix: Seq<char>) -> bool {
    suffix.len() <= s.len() && s.subrange(s.len() - suffix.len(), s.len() as int) == suffix
}

/// `s` with every trailing occurrence of `c` removed (`trim_end_matches(c)`).
pub open spec fn strip_trailing_char(s: Seq<char>, c: char) -> Seq<char>
    decreases s.len(),
{
    if s.len() > 0 && s.last() == c {
        strip_trailing_char(s.drop_last(), c)
    } else {
        s
    }
}

/// `s` with every trailing repetition of the non-empty `suffix` removed
/// (`trim_end_matches(suffix)`).
pub open spec fn strip_trailing_seq(s: Seq<char>, suffix: Seq<char>) -> Seq<char>
    decreases s.len(),
{
    if suffix.len() > 0 && ends_with(s, suffix) {
        strip_trailing_seq(s.subrange(0, s.len() - suffix.len()), suffix)
    } else {
        s
    }
}

/// The characters that separate path components in a git URL, whether
/// `https://host/owner/repo` or `git@host:owner/repo`.
pub open spec fn is_url_separator(c: char) -> bool {
    c == '/' || c == ':'
}

/// The part of `s` after its last separator (all of `s` when it has none).
pub open spec fn after_last_separator(s: Seq<char>) -> Seq<char>
    decreases s.len(),
{
    if s.len() == 0 {
        s
    } else if is_url_separator(s.last()) {
        Seq::empty()
    } else {
        after_last_separator(s.drop_last()).push(s.last())
    }
}

/// The URL with surrounding white space, trailing slashes and trailing
/// `.git` suffixes removed.
pub open spec fn cleaned_git_url(url: Seq<char>) -> Seq<char> {
    strip_trailing_seq(strip_trailing_char(trim_ws(url), '/'), git_suffix())
}

/// The folder name a clone of `url` gets by default: the last path component
/// of the cleaned URL.
pub open spec fn git_url_folder_name(url: Seq<char>) -> Seq<char> {
    after_last_separator(cleaned_git_url(url))
}

proof fn lemma_strip_char_step(s: Seq<char>, start: int, j: int, c: char)
    requires
        0 <= start < j <= s.len(),
        s[j - 1] == c,
    ensures
        strip_trailing_char(s.subrange(start, j), c) == strip_trailing_char(
            s.subrange(start, j - 1),
            c,
        ),
{
    assert(s.subrange(start, j).drop_last() =~= s.subrange(start, j - 1));
}

proof fn lemma_strip_seq_step(s: Seq<char>, start: int, j: int, suffix: Seq<char>)
    requires
        0 < suffix.len(),
        0 <= start,
        start + suffix.len() <= j <= s.len(),
        s.subrange(j - suffix.len(), j) == suffix,
    ensures
        strip_trailing_seq(s.subrange(start, j), suffix) == strip_trailing_seq(
            s.subrange(start, j - suffix.len()),
            suffix,
        ),
{
    let w = s.subrange(start, j);
    assert(w.subrange(w.len() - suffix.len(), w.len() as int) =~= s.subrange(
        j - suffix.len(),
        j,
    ));
    assert(w.subrange(0, w.len() - suffix.len()) =~= s.subrange(start, j - suffix.len()));
}

proof fn lemma_after_sep_step(s: Seq<char>, start: int, j: int)
    requires
        0 <= start < j <= s.len(),
        !is_url_separator(s[j - 1]),
    ensures
        after_last_separator(s.subrange(start, j)) == after_last_separator(
            s.subrange(start, j - 1),
        ).push(s[j - 1]),
{
    assert(s.subrange(start, j).drop_last() =~= s.subrange(start, j - 1));
}

/// `after_last_separator` of the window `[start, end)` of `s` is `s[k..end]`,
/// where every character in `[k, end)` is no separator and `k` is `start` or
/// follows a separator.
proof fn lemma_after_sep_window(s: Seq<char>, start: int, k: int, end: int)
    requires
        0 <= start <= k <= end <= s.len(),
        forall|i: int| k <= i < end ==> !is_url_separator(#[trigger] s[i]),
        k == start || is_url_separator(s[k - 1]),
    ensures
        after_last_separator(s.subrange(start, end)) == s.subrange(k, end),
    decreases end - k,
{
    if end == k {
        if k > start {
            assert(s.subrange(start, end).drop_last() =~= s.subrange(start, end - 1));
        }
        assert(s.subrange(k, end) =~= Seq::<char>::empty());
    } else {
        lemma_after_sep_window(s, start, k, end - 1);
        lemma_after_sep_step(s, start, end);
        assert(s.subrange(k, end - 1).push(s[end - 1]) =~= s.subrange(k, end));
    }
}

/// Whether `v[i..i + 4]` spells `.git`.
fn has_git_suffix_at(v: &Vec<char>, i: usize) -> (r: bool)
    requires
        i + 4 <= v@.len(),
    ensures
        r == (v@.subrange(i as int, i + 4) == git_suffix()),
{
    let n = v.len();
    assert(i + 4 <= n);
    let r = v[i] == '.' && v[i + 1] == 'g' && v[i + 2] == 'i' && v[i + 3] == 't';
    assert(r == (v@.subrange(i as int, i + 4) =~= git_suffix()));
    r
}

/// The default folder name for a clone of `url`: surrounding white space,
/// trailing `/` and trailing `.git` are removed, and what follows the last
/// `/` or `:` is kept.
pub fn name_from_git_url(url: &str) -> (name: String)
    ensures
        name@ == git_url_folder_name(url@),
{
    let v = chars_of(url);
    let (start, mut end) = trim_bounds(&v);
    let ghost trimmed = trim_ws(url@);
    assert(v@.subrange(start as int, end as int) == trimmed);
    while end > start && v[end - 1] == '/'
        invariant
            start <= end <= v@.len(),
            strip_trailing_char(v@.subrange(start as int, end as int), '/') == strip_trailing_char(
                trimmed,
                '/',
            ),
        decreases end - start,
    {
        proof {
            lemma_strip_char_step(v@, start as int, end as int, '/');
        }
        end = end - 1;
    }
    let ghost no_slash = strip_trailing_char(trimmed, '/');
    assert(v@.subrange(start as int, end as int) == no_slash);
    while end - start >= 4 && has_git_suffix_at(&v, end - 4)
        invariant
            start <= end <= v@.len(),
            strip_trailing_seq(v@.subrange(start as int, end as int), git_suffix())
                == cleaned_git_url(url@),
        decreases end - start,
    {
        proof {
            lemma_strip_seq_step(v@, start as int, end as int, git_suffix());
        }
        end = end - 4;
    }
    proof {
        let w = v@.subrange(start as int, end as int);
        if ends_with(w, git_suffix()) {
            assert(w.subrange(w.len() - 4, w.len() as int) =~= v@.subrange(end - 4, end as int));
        }
    }
    assert(v@.subrange(start as int, end as int) == cleaned_git_url(url@));
    let mut cut = end;
    while cut > start && !(v[cut - 1] == '/' || v[cut - 1] == ':')
        invariant
            start <= cut <= end <= v@.len(),
            forall|i: int| cut <= i < end ==> !is_url_separator(#[trigger] v@[i]),
        decreases cut - start,
    {
        cut = cut - 1;
    }
    proof {
        lemma_after_sep_window(v@, start as int, cut as int, end as int);
    }
    substring(url, cut, end)
}

/// The folder a clone goes into: the name given, else the default derived
/// from the URL.
pub open spec fn clone_folder_choice(name: Option<Seq<char>>, url: Seq<char>) -> Seq<char> {
    match name {
        Some(n) => n,
        None => git_url_folder_name(url),
    }
}

/// The folder a clone of `url` goes into, or `None` when that name is empty
/// (no folder name could be determined).
pub fn clone_folder(name: Option<String>, url: &str) -> (r: Option<String>)
    ensures
        r is None <==> clone_folder_choice(opt_view(name), url@).len() == 0,
        r matches Some(f) ==> f@ == clone_folder_choice(opt_view(name), url@),
{
    let chosen = match name {
        Some(n) => n,
        None => name_from_git_url(url),
    };
    if chosen.as_str().is_empty() {
        None
    } else {
        Some(chosen)
    }
}

proof fn lemma_after_sep_is_suffix(s: Seq<char>)
    ensures
        after_last_separator(s).len() <= s.len(),
        after_last_separator(s) == s.subrange(
            s.len() - after_last_separator(s).len(),
            s.len() as int,
        ),
        forall|i: int|
            0 <= i < after_last_separator(s).len() ==> !is_url_separator(
                #[trigger] after_last_separator(s)[i],
            ),
    decreases s.len(),
{
    if s.len() > 0 {
        lemma_after_sep_is_suffix(s.drop_last());
        if !is_url_separator(s.last()) {
            let r = after_last_separator(s.drop_last());
            assert(r.push(s.last()) =~= s.subrange(s.len() - (r.len() + 1), s.len() as int));
        } else {
            assert(Seq::<char>::empty() =~= s.subrange(s.len() as int, s.len() as int));
        }
    } else {
        assert(s =~= s.subrange(0, 0));
    }
}

proof fn lemma_strip_seq_not_ends_with(s: Seq<char>, suffix: Seq<char>)
    requires
        suffix.len() > 0,
    ensures
        !ends_with(strip_trailing_seq(s, suffix), suffix),
    decreases s.len(),
{
    if ends_with(s, suffix) {
        lemma_strip_seq_not_ends_with(s.subrange(0, s.len() - suffix.len()), suffix);
    }
}

/// The default folder name is a single path component: it holds no `/` and
/// no `:`, and it does not end with `.git`.
pub proof fn lemma_folder_name_is_single_component(url: Seq<char>)
    ensures
        forall|i: int|
            0 <= i < git_url_folder_name(url).len() ==> !is_url_separator(
                #[trigger] git_url_folder_name(url)[i],
            ),
        !ends_with(git_url_folder_name(url), git_suffix()),
{
    let c = cleaned_git_url(url);
    let r = git_url_folder_name(url);
    lemma_after_sep_is_suffix(c);
    lemma_strip_seq_not_ends_with(strip_trailing_char(trim_ws(url), '/'), git_suffix());
    if ends_with(r, git_suffix()) {
        assert(c.subrange(c.len() - 4, c.len() as int) =~= r.subrange(r.len() - 4, r.len() as int));
    }
}

/// The part kept by `after_last_separator` starts the text or follows a
/// separator.
proof fn lemma_after_sep_start(s: Seq<char>)
    ensures
        after_last_separator(s).len() <= s.len(),
        s.len() - after_last_separator(s).len() == 0 || is_url_separator(
            s[s.len() - after_last_separator(s).len() - 1],
        ),
    decreases s.len(),
{
    if s.len() > 0 {
        lemma_after_sep_start(s.drop_last());
        if !is_url_separator(s.last()) {
            let d = s.drop_last();
            let r = after_last_separator(d);
            if d.len() - r.len() > 0 {
                assert(s[s.len() - (r.len() + 1) - 1] == d[d.len() - r.len() - 1]);
            }
        }
    }
}

/// The default folder name is the whole last path component of the cleaned
/// URL: the text after the last `/` or `:` (all of it when there is none),
/// every other character kept.
pub proof fn lemma_folder_name_is_last_component(url: Seq<char>)
    ensures
        ({
            let c = cleaned_git_url(url);
            let r = git_url_folder_name(url);
            let k = c.len() - r.len();
            &&& r.len() <= c.len()
            &&& r == c.subrange(k, c.len() as int)
            &&& k == 0 || c[k - 1] == '/' || c[k - 1] == ':'
            &&& forall|i: int| k <= i < c.len() ==> c[i] != '/' && c[i] != ':'
        }),
{
    let c = cleaned_git_url(url);
    let r = git_url_folder_name(url);
    lemma_after_sep_is_suffix(c);
    lemma_after_sep_start(c);
    let k = c.len() - r.len();
    assert forall|i: int| k <= i < c.len() implies c[i] != '/' && c[i] != ':' by {
        assert(c[i] == r[i - k]);
    }
}

/// The folder name of a repository URL `<prefix>/<name>.git`, with no white
/// space around it, is `<name>`, for any `name` that is non-empty, holds no
/// `/` or `:`, and does not itself end with `.git`.
pub proof fn lemma_folder_name_of_repo_url(prefix: Seq<char>, name: Seq<char>)
    requires
        name.len() > 0,
        forall|i: int| 0 <= i < name.len() ==> name[i] != '/' && name[i] != ':',
        !ends_with(name, git_suffix()),
        !is_white_space((prefix + seq!['/'] + name + git_suffix())[0]),
    ensures
        git_url_folder_name(prefix + seq!['/'] + name + git_suffix()) == name,
{
    let u = prefix + seq!['/'] + name + git_suffix();
    assert(trim_start_ws(u) == u);
    assert(u.last() == 't');
    assert(trim_end_ws(u) == u);
    assert(trim_ws(u) == u);
    assert(strip_trailing_char(u, '/') == u);
    let w = prefix + seq!['/'] + name;
    assert(u.subrange(u.len() - 4, u.len() as int) =~= git_suffix());
    assert(u.subrange(0, u.len() - 4) =~= w);
    assert(w.subrange(w.len() - name.len(), w.len() as int) =~= name);
    if ends_with(w, git_suffix()) {
        assert(w.subrange(w.len() - 4, w.len() as int) =~= name.subrange(
            name.len() - 4,
            name.len() as int,
        ));
    }
    assert(strip_trailing_seq(w, git_suffix()) == w);
    assert(cleaned_git_url(u) == w);
    let k: int = prefix.len() as int + 1;
    assert forall|i: int| k <= i < w.len() implies !is_url_separator(#[trigger] w[i]) by {
        assert(w[i] == name[i - k]);
    }
    lemma_after_sep_window(w, 0, k, w.len() as int);
    assert(w.subrange(0, w.len() as int) =~= w);
    assert(w.subrange(k, w.len() as int) =~= name);
}

} // verus!
