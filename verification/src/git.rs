//! Git-related decisions: how a repository's status is reported, and which
//! commit message a sync uses.

use vstd::prelude::*;
use crate::command::texts;
use crate::text::{opt_view, substring};
use crate::text::{
    chars_of, concat2, is_white_space, lemma_trim_start_step, trim_bounds, trim_end_ws,
    trim_start_ws, trim_ws, white_space,
};

verus! {

broadcast use vstd::string::group_string_axioms;

/// The state of a project's git repository.
#[derive(Debug, Clone)]
pub struct GitStatus {
    /// The project holds a git repository.
    pub initialized: bool,
    /// The checked-out branch; `None` when `HEAD` is detached.
    pub branch: Option<String>,
    /// The URL of the `origin` remote, if one is set.
    pub remote: Option<String>,
    /// The working tree has uncommitted changes.
    pub dirty: bool,
    /// Commits on the branch that the remote lacks.
    pub ahead: usize,
    /// Commits on the remote that the branch lacks.
    pub behind: usize,
}

/// The decimal digit `d` (`0 <= d < 10`).
pub open spec fn digit_char(d: int) -> char {
    if d == 0 {
        '0'
    } else if d == 1 {
        '1'
    } else if d == 2 {
        '2'
    } else if d == 3 {
        '3'
    } else if d == 4 {
        '4'
    } else if d == 5 {
        '5'
    } else if d == 6 {
        '6'
    } else if d == 7 {
        '7'
    } else if d == 8 {
        '8'
    } else {
        '9'
    }
}

/// `n` written in decimal, without leading zeros.
pub open spec fn decimal_text(n: nat) -> Seq<char>
    decreases n,
{
    if n < 10 {
        seq![digit_char(n as int)]
    } else {
        decimal_text(n / 10).push(digit_char((n % 10) as int))
    }
}

fn digit_str(d: usize) -> (s: &'static str)
    requires
        d < 10,
    ensures
        s@ == seq![digit_char(d as int)],
{
    proof {
        reveal_strlit("0");
        reveal_strlit("1");
        reveal_strlit("2");
        reveal_strlit("3");
        reveal_strlit("4");
        reveal_strlit("5");
        reveal_strlit("6");
        reveal_strlit("7");
        reveal_strlit("8");
        reveal_strlit("9");
    }
    let s = if d == 0 {
        "0"
    } else if d == 1 {
        "1"
    } else if d == 2 {
        "2"
    } else if d == 3 {
        "3"
    } else if d == 4 {
        "4"
    } else if d == 5 {
        "5"
    } else if d == 6 {
        "6"
    } else if d == 7 {
        "7"
    } else if d == 8 {
        "8"
    } else {
        "9"
    };
    assert(s@ =~= seq![digit_char(d as int)]);
    s
}

/// `n` in decimal, as `n.to_string()` writes it.
pub fn decimal(n: usize) -> (s: String)
    ensures
        s@ == decimal_text(n as nat),
    decreases n,
{
    if n < 10 {
        digit_str(n).to_owned()
    } else {
        let mut s = decimal(n / 10);
        s.append(digit_str(n % 10));
        s
    }
}

/// The text of an optional value, or `fallback` when there is none.
pub open spec fn text_or(o: Option<String>, fallback: Seq<char>) -> Seq<char> {
    match o {
        Some(s) => s@,
        None => fallback,
    }
}

/// The lines that report `status`: a single line when there is no
/// repository; otherwise branch, remote and working-tree state, and, when a
/// remote is set, how far ahead and behind it the branch is.
pub open spec fn status_report(status: GitStatus) -> Seq<Seq<char>> {
    if !status.initialized {
        seq!["No git repository"@]
    } else {
        seq![
            "Branch  : "@ + text_or(status.branch, "(detached)"@),
            "Remote  : "@ + text_or(status.remote, "(none)"@),
            "Working : "@ + if status.dirty { "dirty"@ } else { "clean"@ },
        ] + if status.remote is Some {
            seq![
                "Ahead   : "@ + decimal_text(status.ahead as nat),
                "Behind  : "@ + decimal_text(status.behind as nat),
            ]
        } else {
            Seq::empty()
        }
    }
}

fn labelled_or(label: &str, value: &Option<String>, fallback: &str) -> (s: String)
    ensures
        s@ == label@ + text_or(*value, fallback@),
{
    match value {
        Some(v) => concat2(label, v.as_str()),
        None => concat2(label, fallback),
    }
}

/// The lines that report `status`, one `String` per line.
pub fn git_status_lines(status: &GitStatus) -> (lines: Vec<String>)
    ensures
        texts(lines@) == status_report(*status),
{
    let mut lines: Vec<String> = Vec::new();
    if !status.initialized {
        lines.push("No git repository".to_owned());
        assert(texts(lines@) =~= status_report(*status));
        return lines;
    }
    lines.push(labelled_or("Branch  : ", &status.branch, "(detached)"));
    lines.push(labelled_or("Remote  : ", &status.remote, "(none)"));
    lines.push(concat2("Working : ", if status.dirty { "dirty" } else { "clean" }));
    if status.remote.is_some() {
        lines.push(concat2("Ahead   : ", decimal(status.ahead).as_str()));
        lines.push(concat2("Behind  : ", decimal(status.behind).as_str()));
    }
    assert(texts(lines@) =~= status_report(*status));
    lines
}

/// The message a sync commits with: `message`, or `Update` when it is blank.
pub fn commit_message(message: String) -> (m: String)
    ensures
        trim_ws(message@).len() == 0 ==> m@ == "Update"@,
        trim_ws(message@).len() > 0 ==> m == message,
{
    let v = chars_of(message.as_str());
    let (start, end) = trim_bounds(&v);
    if start == end {
        "Update".to_owned()
    } else {
        message
    }
}

/// `c` is a decimal digit.
pub open spec fn is_digit(c: char) -> bool {
    '0' <= c && c <= '9'
}

/// The value of the decimal digits `s` (0 for none).
pub open spec fn digits_value(s: Seq<char>) -> nat
    decreases s.len(),
{
    if s.len() == 0 {
        0
    } else {
        digits_value(s.drop_last()) * 10 + ((s.last() as u32) - ('0' as u32)) as nat
    }
}

/// The length of the run of decimal digits that starts `s`.
pub open spec fn digit_run(s: Seq<char>) -> nat
    decreases s.len(),
{
    if s.len() > 0 && is_digit(s[0]) {
        1 + digit_run(s.drop_first())
    } else {
        0
    }
}

/// The two counts in the output of `git rev-list --left-right --count`:
/// once trimmed, two runs of decimal digits separated by white space.
pub open spec fn count_pair(out: Seq<char>) -> Option<(nat, nat)> {
    let t = trim_ws(out);
    let n = digit_run(t);
    let first = t.take(n as int);
    let rest = trim_start_ws(t.skip(n as int));
    if n > 0 && n < t.len() && is_white_space(t[n as int]) && rest.len() > 0 && digit_run(rest)
        == rest.len() {
        Some((digits_value(first), digits_value(rest)))
    } else {
        None
    }
}

proof fn lemma_digit_run_step(v: Seq<char>, i: int, end: int)
    requires
        0 <= i < end <= v.len(),
        is_digit(v[i]),
    ensures
        digit_run(v.subrange(i, end)) == 1 + digit_run(v.subrange(i + 1, end)),
{
    assert(v.subrange(i, end).drop_first() =~= v.subrange(i + 1, end));
}

/// The value of the digits `v[a..b]`, or `None` when it exceeds `usize::MAX`.
fn parse_digits(v: &Vec<char>, a: usize, b: usize) -> (r: Option<usize>)
    requires
        a <= b <= v@.len(),
        forall|k: int| a <= k < b ==> is_digit(#[trigger] v@[k]),
    ensures
        r matches Some(x) ==> x == digits_value(v@.subrange(a as int, b as int)),
        r is None ==> digits_value(v@.subrange(a as int, b as int)) > usize::MAX,
{
    let mut acc: usize = 0;
    let mut i = a;
    assert(v@.subrange(a as int, a as int) =~= Seq::<char>::empty());
    while i < b
        invariant
            a <= i <= b <= v@.len(),
            forall|k: int| a <= k < b ==> is_digit(#[trigger] v@[k]),
            acc == digits_value(v@.subrange(a as int, i as int)),
        decreases b - i,
    {
        let c = v[i];
        assert(is_digit(v@[i as int]));
        let d = ((c as u32) - ('0' as u32)) as usize;
        assert(v@.subrange(a as int, i + 1).drop_last() =~= v@.subrange(a as int, i as int));
        match acc.checked_mul(10) {
            Some(m) => match m.checked_add(d) {
                Some(x) => {
                    acc = x;
                },
                None => {
                    proof {
                        lemma_digits_value_grows(v@, a as int, i + 1, b as int);
                    }
                    return None;
                },
            },
            None => {
                proof {
                    lemma_digits_value_grows(v@, a as int, i + 1, b as int);
                }
                return None;
            },
        }
        i = i + 1;
    }
    Some(acc)
}

/// A longer run of digits never has a smaller value.
proof fn lemma_digits_value_grows(v: Seq<char>, a: int, i: int, b: int)
    requires
        0 <= a <= i <= b <= v.len(),
    ensures
        digits_value(v.subrange(a, i)) <= digits_value(v.subrange(a, b)),
    decreases b - i,
{
    if i < b {
        lemma_digits_value_grows(v, a, i + 1, b);
        assert(v.subrange(a, i + 1).drop_last() =~= v.subrange(a, i));
    }
}

/// Reads the two counts that `git rev-list --left-right --count` prints;
/// `None` when the text does not hold two counts or one exceeds `usize::MAX`.
pub fn parse_count_pair(out: &str) -> (r: Option<(usize, usize)>)
    ensures
        match count_pair(out@) {
            Some((x, y)) => if x <= usize::MAX && y <= usize::MAX {
                r == Some((x as usize, y as usize))
            } else {
                r is None
            },
            None => r is None,
        },
{
    let v = chars_of(out);
    let (start, end) = trim_bounds(&v);
    let ghost t = v@.subrange(start as int, end as int);
    let mut i = start;
    assert(v@.subrange(start as int, end as int).subrange(0, 0) =~= Seq::<char>::empty());
    while i < end && v[i] >= '0' && v[i] <= '9'
        invariant
            start <= i <= end <= v@.len(),
            t == v@.subrange(start as int, end as int),
            forall|k: int| start <= k < i ==> is_digit(#[trigger] v@[k]),
            digit_run(t) == (i - start) + digit_run(v@.subrange(i as int, end as int)),
        decreases end - i,
    {
        proof {
            lemma_digit_run_step(v@, i as int, end as int);
        }
        i = i + 1;
    }
    assert(digit_run(v@.subrange(i as int, end as int)) == 0);
    let n = i - start;
    assert(t.take(n as int) =~= v@.subrange(start as int, i as int));
    assert(t.skip(n as int) =~= v@.subrange(i as int, end as int));
    if n == 0 || i == end || !white_space(v[i]) {
        return None;
    }
    assert(t[n as int] == v@[i as int]);
    let mut j = i;
    assert(v@.subrange(i as int, end as int) == v@.subrange(j as int, end as int));
    while j < end && white_space(v[j])
        invariant
            i <= j <= end <= v@.len(),
            trim_start_ws(v@.subrange(j as int, end as int)) == trim_start_ws(
                v@.subrange(i as int, end as int),
            ),
        decreases end - j,
    {
        proof {
            lemma_trim_start_step(v@, j as int, end as int);
        }
        j = j + 1;
    }
    let ghost rest = v@.subrange(j as int, end as int);
    assert(trim_start_ws(rest) == rest);
    if j == end {
        return None;
    }
    let mut k = j;
    while k < end && v[k] >= '0' && v[k] <= '9'
        invariant
            j <= k <= end <= v@.len(),
            rest == v@.subrange(j as int, end as int),
            forall|q: int| j <= q < k ==> is_digit(#[trigger] v@[q]),
            digit_run(rest) == (k - j) + digit_run(v@.subrange(k as int, end as int)),
        decreases end - k,
    {
        proof {
            lemma_digit_run_step(v@, k as int, end as int);
        }
        k = k + 1;
    }
    if k < end {
        assert(digit_run(v@.subrange(k as int, end as int)) == 0);
        return None;
    }
    assert(v@.subrange(end as int, end as int) =~= Seq::<char>::empty());
    let first = parse_digits(&v, start, i);
    let second = parse_digits(&v, j, end);
    match (first, second) {
        (Some(x), Some(y)) => Some((x, y)),
        _ => None,
    }
}

/// A value printed by a git command: the trimmed output, when not blank.
pub open spec fn output_value(o: Option<Seq<char>>) -> Option<Seq<char>> {
    match o {
        Some(out) => if trim_ws(out).len() > 0 {
            Some(trim_ws(out))
        } else {
            None
        },
        None => None,
    }
}

/// How far the branch is ahead of and behind its upstream, read from the
/// output of `git rev-list --left-right --count`; `(0, 0)` when there is no
/// such output or it cannot be read.
pub open spec fn ahead_behind(counts_out: Option<Seq<char>>) -> (nat, nat) {
    match counts_out {
        Some(out) => match count_pair(out) {
            Some((a, b)) => if a <= usize::MAX && b <= usize::MAX {
                (a, b)
            } else {
                (0, 0)
            },
            None => (0, 0),
        },
        None => (0, 0),
    }
}

/// The trimmed `s`, as a new `String`.
pub fn trim_owned(s: &str) -> (r: String)
    ensures
        r@ == trim_ws(s@),
{
    let v = chars_of(s);
    let (a, b) = trim_bounds(&v);
    substring(s, a, b)
}

fn output_value_of(o: Option<String>) -> (r: Option<String>)
    ensures
        opt_view(r) == output_value(opt_view(o)),
{
    match o {
        Some(out) => {
            let t = trim_owned(out.as_str());
            if t.as_str().is_empty() {
                None
            } else {
                Some(t)
            }
        },
        None => None,
    }
}

/// The status of a project's repository, from what git printed: whether
/// the project holds a repository, the output of the commands that print
/// the branch and the `origin` URL (`None` where they failed), the
/// `--porcelain` status (non-blank when there are changes), and the
/// ahead/behind counts (read only when a remote is set).
pub fn status_from_outputs(
    has_repo: bool,
    branch_out: Option<String>,
    remote_out: Option<String>,
    porcelain: &str,
    counts_out: Option<String>,
) -> (s: GitStatus)
    ensures
        s.initialized == has_repo,
        !has_repo ==> s.branch is None && s.remote is None && !s.dirty && s.ahead == 0 && s.behind
            == 0,
        has_repo ==> {
            &&& opt_view(s.branch) == output_value(opt_view(branch_out))
            &&& opt_view(s.remote) == output_value(opt_view(remote_out))
            &&& s.dirty == (trim_ws(porcelain@).len() > 0)
            &&& (s.ahead as nat, s.behind as nat) == if s.remote is Some {
                ahead_behind(opt_view(counts_out))
            } else {
                (0nat, 0nat)
            }
        },
{
    if !has_repo {
        return GitStatus { initialized: false, branch: None, remote: None, dirty: false, ahead: 0, behind: 0 };
    }
    let branch = output_value_of(branch_out);
    let remote = output_value_of(remote_out);
    let dirty = !trim_owned(porcelain).as_str().is_empty();
    let mut ahead: usize = 0;
    let mut behind: usize = 0;
    if remote.is_some() {
        match counts_out {
            Some(out) => match parse_count_pair(out.as_str()) {
                Some((a, b)) => {
                    ahead = a;
                    behind = b;
                },
                None => {},
            },
            None => {},
        }
    }
    GitStatus { initialized: true, branch, remote, dirty, ahead, behind }
}

/// For an initialized repository the report is its branch (or
/// `(detached)`), its remote (or `(none)`), whether the working tree is dirty
/// or clean, and, only when a remote is set, the ahead and behind counts;
/// otherwise it is the single line `No git repository`.
pub proof fn lemma_status_report_lines(status: GitStatus)
    ensures
        !status.initialized ==> status_report(status) == seq!["No git repository"@],
        status.initialized ==> {
            let r = status_report(status);
            &&& r.len() == if status.remote is Some { 5int } else { 3int }
            &&& r[0] == "Branch  : "@ + match status.branch {
                Some(b) => b@,
                None => "(detached)"@,
            }
            &&& r[1] == "Remote  : "@ + match status.remote {
                Some(u) => u@,
                None => "(none)"@,
            }
            &&& r[2] == "Working : "@ + if status.dirty {
                "dirty"@
            } else {
                "clean"@
            }
            &&& status.remote is Some ==> r[3] == "Ahead   : "@ + decimal_text(status.ahead as nat)
                && r[4] == "Behind  : "@ + decimal_text(status.behind as nat)
        },
{
}

proof fn lemma_digit_char_value(d: int)
    requires
        0 <= d < 10,
    ensures
        '0' <= digit_char(d) && digit_char(d) <= '9',
        ((digit_char(d) as u32) - ('0' as u32)) == d,
{
}

/// `n` in decimal is a non-empty run of the digits `0`..`9` whose value is `n`.
pub proof fn lemma_decimal_text_value(n: nat)
    ensures
        decimal_text(n).len() > 0,
        forall|i: int|
            0 <= i < decimal_text(n).len() ==> '0' <= #[trigger] decimal_text(n)[i]
                && decimal_text(n)[i] <= '9',
        digits_value(decimal_text(n)) == n,
    decreases n,
{
    if n < 10 {
        lemma_digit_char_value(n as int);
        assert(decimal_text(n).drop_last() =~= Seq::<char>::empty());
        assert(digits_value(Seq::<char>::empty()) == 0);
    } else {
        lemma_decimal_text_value(n / 10);
        lemma_digit_char_value((n % 10) as int);
        let s = decimal_text(n / 10);
        assert(decimal_text(n).drop_last() =~= s);
        assert(decimal_text(n).last() == digit_char((n % 10) as int));
        assert(digits_value(decimal_text(n)) == digits_value(s) * 10 + (n % 10));
        assert((n / 10) * 10 + n % 10 == n);
        assert forall|i: int| 0 <= i < decimal_text(n).len() implies '0' <= #[trigger] decimal_text(
            n,
        )[i] && decimal_text(n)[i] <= '9' by {
            if i < s.len() {
                assert(decimal_text(n)[i] == s[i]);
            }
        }
    }
}

/// The run of digits at the start of `s + t`, where `s` is all digits and
/// `t` does not start with one, is `s`.
proof fn lemma_digit_run_concat(s: Seq<char>, t: Seq<char>)
    requires
        forall|i: int| 0 <= i < s.len() ==> is_digit(#[trigger] s[i]),
        t.len() == 0 || !is_digit(t[0]),
    ensures
        digit_run(s + t) == s.len(),
    decreases s.len(),
{
    if s.len() > 0 {
        assert((s + t).drop_first() =~= s.drop_first() + t);
        assert forall|i: int| 0 <= i < s.drop_first().len() implies is_digit(
            #[trigger] s.drop_first()[i],
        ) by {
            assert(s.drop_first()[i] == s[i + 1]);
        }
        lemma_digit_run_concat(s.drop_first(), t);
    } else {
        assert(s + t =~= t);
    }
}

/// All characters of a decimal are digits.
proof fn lemma_decimal_is_digits(n: nat)
    ensures
        decimal_text(n).len() > 0,
        forall|i: int| 0 <= i < decimal_text(n).len() ==> is_digit(#[trigger] decimal_text(n)[i]),
        !is_white_space(decimal_text(n)[0]),
        !is_white_space(decimal_text(n).last()),
        digits_value(decimal_text(n)) == n,
{
    lemma_decimal_text_value(n);
    let d = decimal_text(n);
    assert forall|i: int| 0 <= i < d.len() implies is_digit(#[trigger] d[i]) by {
        assert('0' <= d[i] && d[i] <= '9');
    }
    assert('0' <= d[0] && d[0] <= '9');
    assert('0' <= d[d.len() - 1] && d[d.len() - 1] <= '9');
}

/// Trimming `<n>\t<m>\n` leaves `<n>\t<m>`.
proof fn lemma_trim_count_line(d1: Seq<char>, d2: Seq<char>)
    requires
        d1.len() > 0,
        d2.len() > 0,
        !is_white_space(d1[0]),
        !is_white_space(d2.last()),
    ensures
        trim_ws(d1 + seq!['\t'] + d2 + seq!['\n']) == d1 + seq!['\t'] + d2,
{
    let x = d1 + seq!['\t'] + d2 + seq!['\n'];
    let t = d1 + seq!['\t'] + d2;
    assert(d1[0] == x[0]);
    assert(trim_start_ws(x) == x);
    assert(x.drop_last() =~= t);
    assert(is_white_space(x.last()));
    assert(t.last() == d2.last());
    assert(trim_end_ws(t) == t);
}

/// Reading back what `git rev-list --left-right --count` prints for counts
/// `n` and `m` (`<n>\t<m>\n`) gives `n` and `m`.
pub proof fn lemma_count_pair_reads_decimal(n: nat, m: nat)
    ensures
        count_pair(decimal_text(n) + seq!['\t'] + decimal_text(m) + seq!['\n']) == Some((n, m)),
{
    let d1 = decimal_text(n);
    let d2 = decimal_text(m);
    lemma_decimal_is_digits(n);
    lemma_decimal_is_digits(m);
    lemma_trim_count_line(d1, d2);
    let t = d1 + seq!['\t'] + d2;
    assert(t =~= d1 + (seq!['\t'] + d2));
    assert((seq!['\t'] + d2)[0] == '\t');
    lemma_digit_run_concat(d1, seq!['\t'] + d2);
    let k = d1.len();
    assert(digit_run(t) == k);
    assert(t.take(k as int) =~= d1);
    assert(t[k as int] == '\t');
    assert(t.skip(k as int) =~= seq!['\t'] + d2);
    assert((seq!['\t'] + d2).drop_first() =~= d2);
    assert(trim_start_ws(d2) == d2);
    assert(trim_start_ws(t.skip(k as int)) == d2);
    assert(d2 + Seq::<char>::empty() =~= d2);
    lemma_digit_run_concat(d2, Seq::<char>::empty());
}

} // verus!
