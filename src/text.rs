//! Character-level building blocks: the substring relation, the splitting of a
//! text into lines, and executable counterparts of both.
use vstd::prelude::*;

verus! {

/// `q` occurs in `t` starting at position `i`.
pub open spec fn occurs_at(t: Seq<char>, q: Seq<char>, i: int) -> bool {
    0 <= i && i + q.len() <= t.len() && t.subrange(i, i + q.len()) == q
}

/// `q` occurs somewhere in `t` as a contiguous run of characters.
pub open spec fn has_substring(t: Seq<char>, q: Seq<char>) -> bool {
    exists|i: int| #[trigger] occurs_at(t, q, i)
}

/// The characters of `s`, in order.
pub fn chars_of(s: &str) -> (v: Vec<char>)
    ensures
        v@ == s@,
{
    let mut v: Vec<char> = Vec::new();
    for c in it: s.chars()
        invariant
            v@ == it.seq().subrange(0, it.index() as int),
    {
        v.push(c);
    }
    v
}

/// Whether `q` occurs in `t` at position `i`, compared character by character.
fn occurs_at_exec(t: &Vec<char>, q: &Vec<char>, i: usize) -> (b: bool)
    requires
        i + q.len() <= t.len(),
    ensures
        b == occurs_at(t@, q@, i as int),
{
    let mut j: usize = 0;
    while j < q.len()
        invariant
            i + q.len() <= t.len(),
            j <= q.len(),
            forall|k: int| 0 <= k < j ==> t@[i + k] == q@[k],
        decreases q.len() - j,
    {
        if t[i + j] != q[j] {
            assert(t@.subrange(i as int, i + q.len())[j as int] != q@[j as int]);
            return false;
        }
        j += 1;
    }
    assert(t@.subrange(i as int, i + q.len()) =~= q@);
    true
}

/// Whether `q` occurs anywhere in `t`.
pub fn find_substring(t: &Vec<char>, q: &Vec<char>) -> (b: bool)
    ensures
        b == has_substring(t@, q@),
{
    if q.len() > t.len() {
        return false;
    }
    let last: usize = t.len() - q.len();
    let mut i: usize = 0;
    loop
        invariant
            last == t.len() - q.len(),
            i <= last,
            forall|k: int| 0 <= k < i ==> !occurs_at(t@, q@, k),
        ensures
            forall|k: int| 0 <= k <= last ==> !occurs_at(t@, q@, k),
        decreases last - i,
    {
        if occurs_at_exec(t, q, i) {
            return true;
        }
        if i == last {
            break;
        }
        i += 1;
    }
    assert forall|k: int| !occurs_at(t@, q@, k) by {
        if 0 <= k <= last {
        }
    }
    false
}

/// `e` is where the first line of `t` ends: the first line feed, or the end of
/// `t` when it holds none.
pub open spec fn is_line_end(t: Seq<char>, e: int) -> bool {
    &&& 0 <= e <= t.len()
    &&& e == t.len() || t[e] == '\n'
    &&& forall|j: int| 0 <= j < e ==> t[j] != '\n'
}

/// The end of the first line of `t` (see `is_line_end`).
pub open spec fn line_end(t: Seq<char>) -> int {
    choose|e: int| is_line_end(t, e)
}

/// A line's text without the carriage return that precedes its line feed.
pub open spec fn trim_cr(l: Seq<char>) -> Seq<char> {
    if l.len() > 0 && l.last() == '\r' {
        l.drop_last()
    } else {
        l
    }
}

/// The lines of `t`. A line feed ends a line, and a carriage return just before
/// it belongs to the line ending; the last line needs no line feed, so a text
/// that ends with one has no empty line after it, and an empty text has no lines.
pub open spec fn lines_of(t: Seq<char>) -> Seq<Seq<char>>
    decreases t.len(),
{
    if t.len() == 0 {
        Seq::empty()
    } else {
        let e = line_end(t);
        if 0 <= e < t.len() {
            seq![trim_cr(t.subrange(0, e))] + lines_of(t.subrange(e + 1, t.len() as int))
        } else {
            seq![t]
        }
    }
}

/// A text without a line feed is one line, or none when it is empty.
pub proof fn lemma_lines_of_last(t: Seq<char>)
    requires
        !t.contains('\n'),
    ensures
        lines_of(t) == (if t.len() == 0 { Seq::empty() } else { seq![t] }),
{
    if t.len() > 0 {
        assert(is_line_end(t, t.len() as int));
        lemma_line_end_unique(t, line_end(t), t.len() as int);
    }
}

/// The first line of `a + "\n" + b`, where `a` holds no line feed, is `a`
/// (without a final carriage return), and the lines of `b` follow it.
pub proof fn lemma_lines_of_split(a: Seq<char>, b: Seq<char>)
    requires
        !a.contains('\n'),
    ensures
        lines_of(a + seq!['\n'] + b) == seq![trim_cr(a)] + lines_of(b),
{
    let t = a + seq!['\n'] + b;
    assert(t[a.len() as int] == '\n');
    assert forall|j: int| 0 <= j < a.len() implies t[j] != '\n' by {
        assert(t[j] == a[j]);
    }
    assert(is_line_end(t, a.len() as int));
    lemma_line_end_unique(t, line_end(t), a.len() as int);
    assert(t.subrange(0, a.len() as int) =~= a);
    assert(t.subrange(a.len() as int + 1, t.len() as int) =~= b);
}

proof fn lemma_line_end_unique(t: Seq<char>, e1: int, e2: int)
    requires
        is_line_end(t, e1),
        is_line_end(t, e2),
    ensures
        e1 == e2,
{
}

/// Relies on `str::split_once` with a `char` pattern: on the first occurrence
/// of the line feed it returns the text before it and the text after it, and
/// `None` when there is none.
#[verifier::external_body]
pub(crate) fn split_at_line_feed<'a>(s: &'a str) -> (r: Option<(&'a str, &'a str)>)
    ensures
        match r {
            None => !s@.contains('\n'),
            Some((head, tail)) => s@ == head@ + seq!['\n'] + tail@ && !head@.contains('\n'),
        },
{
    s.split_once('\n')
}

} // verus!
