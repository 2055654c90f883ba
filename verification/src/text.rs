//! Character-level text utilities shared by the rest of the library.
//!
//! Strings are modelled by their view, the sequence of Unicode scalar values
//! they hold.

use vstd::prelude::*;

verus! {

broadcast use vstd::string::group_string_axioms;

/// The Unicode `White_Space` property, which `str::trim` and
/// `char::is_whitespace` go by.
pub open spec fn is_white_space(c: char) -> bool {
    let u = c as u32;
    ||| 0x09 <= u <= 0x0D
    ||| u == 0x20
    ||| u == 0x85
    ||| u == 0xA0
    ||| u == 0x1680
    ||| 0x2000 <= u <= 0x200A
    ||| u == 0x2028
    ||| u == 0x2029
    ||| u == 0x202F
    ||| u == 0x205F
    ||| u == 0x3000
}

/// `s` without its leading white space.
pub open spec fn trim_start_ws(s: Seq<char>) -> Seq<char>
    decreases s.len(),
{
    if s.len() > 0 && is_white_space(s[0]) {
        trim_start_ws(s.drop_first())
    } else {
        s
    }
}

/// `s` without its trailing white space.
pub open spec fn trim_end_ws(s: Seq<char>) -> Seq<char>
    decreases s.len(),
{
    if s.len() > 0 && is_white_space(s.last()) {
        trim_end_ws(s.drop_last())
    } else {
        s
    }
}

/// `s` without leading and trailing white space (what `str::trim` returns).
pub open spec fn trim_ws(s: Seq<char>) -> Seq<char> {
    trim_end_ws(trim_start_ws(s))
}

/// The view of an optional string.
pub open spec fn opt_view(o: Option<String>) -> Option<Seq<char>> {
    match o {
        Some(s) => Some(s@),
        None => None,
    }
}

/// Collects the characters of `s`, in order.
pub fn chars_of(s: &str) -> (v: Vec<char>)
    ensures
        v@ == s@,
{
    let mut v: Vec<char> = Vec::new();
    for c in it: s.chars()
        invariant
            v@ == it.seq().take(it.index()),
            it.seq() == s@,
    {
        v.push(c);
    }
    v
}

/// Decides `char::is_whitespace`.
pub fn white_space(c: char) -> (r: bool)
    ensures
        r == is_white_space(c),
{
    let u = c as u32;
    (0x09 <= u && u <= 0x0D) || u == 0x20 || u == 0x85 || u == 0xA0 || u == 0x1680 || (0x2000
        <= u && u <= 0x200A) || u == 0x2028 || u == 0x2029 || u == 0x202F || u == 0x205F || u
        == 0x3000
}

/// Dropping leading white space from the window `[i, end)` of `s`, where
/// `s[i]` is white space, is the same as dropping it from `[i + 1, end)`.
pub proof fn lemma_trim_start_step(s: Seq<char>, i: int, end: int)
    requires
        0 <= i < end <= s.len(),
        is_white_space(s[i]),
    ensures
        trim_start_ws(s.subrange(i, end)) == trim_start_ws(s.subrange(i + 1, end)),
{
    assert(s.subrange(i, end).drop_first() =~= s.subrange(i + 1, end));
}

/// Dropping trailing white space from the window `[start, j)` of `s`, where
/// `s[j - 1]` is white space, is the same as dropping it from `[start, j - 1)`.
proof fn lemma_trim_end_step(s: Seq<char>, start: int, j: int)
    requires
        0 <= start < j <= s.len(),
        is_white_space(s[j - 1]),
    ensures
        trim_end_ws(s.subrange(start, j)) == trim_end_ws(s.subrange(start, j - 1)),
{
    assert(s.subrange(start, j).drop_last() =~= s.subrange(start, j - 1));
}

/// The start of `trim_start_ws(v[a..b])` inside `v`.
pub fn trim_start_window(v: &Vec<char>, a: usize, b: usize) -> (s: usize)
    requires
        a <= b <= v@.len(),
    ensures
        a <= s <= b,
        v@.subrange(s as int, b as int) == trim_start_ws(v@.subrange(a as int, b as int)),
{
    let mut start = a;
    while start < b && white_space(v[start])
        invariant
            a <= start <= b <= v@.len(),
            trim_start_ws(v@.subrange(start as int, b as int)) == trim_start_ws(
                v@.subrange(a as int, b as int),
            ),
        decreases b - start,
    {
        proof {
            lemma_trim_start_step(v@, start as int, b as int);
        }
        start = start + 1;
    }
    start
}

/// The bounds `[start, end)` of `trim_ws(v[a..b])` inside `v`.
pub fn trim_window(v: &Vec<char>, a: usize, b: usize) -> (r: (usize, usize))
    requires
        a <= b <= v@.len(),
    ensures
        a <= r.0 <= r.1 <= b,
        v@.subrange(r.0 as int, r.1 as int) == trim_ws(v@.subrange(a as int, b as int)),
{
    let start = trim_start_window(v, a, b);
    let mut end: usize = b;
    while end > start && white_space(v[end - 1])
        invariant
            a <= start <= end <= b <= v@.len(),
            trim_end_ws(v@.subrange(start as int, end as int)) == trim_ws(
                v@.subrange(a as int, b as int),
            ),
        decreases end - start,
    {
        proof {
            lemma_trim_end_step(v@, start as int, end as int);
        }
        end = end - 1;
    }
    (start, end)
}

/// The bounds `[start, end)` of `trim_ws(v)` inside `v`.
pub fn trim_bounds(v: &Vec<char>) -> (r: (usize, usize))
    ensures
        r.0 <= r.1 <= v@.len(),
        v@.subrange(r.0 as int, r.1 as int) == trim_ws(v@),
{
    assert(v@.subrange(0, v@.len() as int) =~= v@);
    trim_window(v, 0, v.len())
}

/// Whether `v[a..b]` holds exactly the characters of `w`.
pub fn window_eq(v: &Vec<char>, a: usize, b: usize, w: &str) -> (r: bool)
    requires
        a <= b <= v@.len(),
    ensures
        r == (v@.subrange(a as int, b as int) == w@),
{
    let vw = chars_of(w);
    if b - a != vw.len() {
        return false;
    }
    let mut i: usize = 0;
    while i < vw.len()
        invariant
            vw@ == w@,
            a <= b <= v@.len(),
            b - a == vw@.len(),
            i <= vw@.len(),
            forall|k: int| 0 <= k < i ==> v@[a + k] == vw@[k],
        decreases vw@.len() - i,
    {
        if v[a + i] != vw[i] {
            assert(v@.subrange(a as int, b as int)[i as int] != w@[i as int]);
            return false;
        }
        i = i + 1;
    }
    assert(v@.subrange(a as int, b as int) =~= vw@);
    true
}

/// The characters `s[start..end]` (counted in characters) as a new `String`.
pub fn substring(s: &str, start: usize, end: usize) -> (r: String)
    requires
        start <= end <= s@.len(),
    ensures
        r@ == s@.subrange(start as int, end as int),
{
    s.substring_char(start, end).to_owned()
}

/// Whether `a` and `b` hold the same characters.
pub fn text_eq(a: &str, b: &str) -> (r: bool)
    ensures
        r == (a@ == b@),
{
    let va = chars_of(a);
    let vb = chars_of(b);
    if va.len() != vb.len() {
        return false;
    }
    let mut i: usize = 0;
    while i < va.len()
        invariant
            va@ == a@,
            vb@ == b@,
            va@.len() == vb@.len(),
            i <= va@.len(),
            forall|k: int| 0 <= k < i ==> va@[k] == vb@[k],
        decreases va@.len() - i,
    {
        if va[i] != vb[i] {
            return false;
        }
        i = i + 1;
    }
    assert(va@ =~= vb@);
    true
}

/// `a` followed by `b`, as a new `String`.
pub fn concat2(a: &str, b: &str) -> (r: String)
    ensures
        r@ == a@ + b@,
{
    let mut r = a.to_owned();
    r.append(b);
    r
}

/// `a`, `b` and `c` one after the other, as a new `String`.
pub fn concat3(a: &str, b: &str, c: &str) -> (r: String)
    ensures
        r@ == a@ + b@ + c@,
{
    let mut r = a.to_owned();
    r.append(b);
    r.append(c);
    r
}

/// `a`, `b`, `c` and `d` one after the other, as a new `String`.
pub fn concat4(a: &str, b: &str, c: &str, d: &str) -> (r: String)
    ensures
        r@ == a@ + b@ + c@ + d@,
{
    let mut r = a.to_owned();
    r.append(b);
    r.append(c);
    r.append(d);
    r
}

/// The answer to a yes/no prompt is yes: once trimmed, it is `y`, `Y`,
/// `yes` or `YES`.
pub open spec fn affirmative(answer: Seq<char>) -> bool {
    let t = trim_ws(answer);
    t == "y"@ || t == "Y"@ || t == "yes"@ || t == "YES"@
}

/// Whether `answer` accepts a yes/no prompt.
pub fn is_affirmative(answer: &str) -> (r: bool)
    ensures
        r == affirmative(answer@),
{
    let v = chars_of(answer);
    let (start, end) = trim_bounds(&v);
    let t = substring(answer, start, end);
    text_eq(t.as_str(), "y") || text_eq(t.as_str(), "Y") || text_eq(t.as_str(), "yes") || text_eq(
        t.as_str(),
        "YES",
    )
}

/// An answer confirms exactly when, with surrounding white space removed, it
/// is `y`, `Y`, `yes` or `YES`; so a confirming answer starts with `y` or
/// `Y`, and no answer starting with `n` or `N` confirms.
pub proof fn lemma_affirmative_answers(answer: Seq<char>)
    ensures
        affirmative(answer) <==> {
            let t = trim_ws(answer);
            ||| t == seq!['y']
            ||| t == seq!['Y']
            ||| t == seq!['y', 'e', 's']
            ||| t == seq!['Y', 'E', 'S']
        },
        affirmative(answer) ==> trim_ws(answer).len() > 0 && (trim_ws(answer)[0] == 'y'
            || trim_ws(answer)[0] == 'Y'),
        trim_ws(answer).len() > 0 && (trim_ws(answer)[0] == 'n' || trim_ws(answer)[0] == 'N')
            ==> !affirmative(answer),
{
    reveal_strlit("y");
    reveal_strlit("Y");
    reveal_strlit("yes");
    reveal_strlit("YES");
    assert("y"@ =~= seq!['y']);
    assert("Y"@ =~= seq!['Y']);
    assert("yes"@ =~= seq!['y', 'e', 's']);
    assert("YES"@ =~= seq!['Y', 'E', 'S']);
}

} // verus!
