//! The matcher: the numbered lines of a text that contain a query, compared
//! exactly or after lowercasing both the query and each line.
use std::collections::HashMap;
use vstd::prelude::*;
use vstd::std_specs::hash::group_hash_axioms;

use crate::text::{
    chars_of, find_substring, has_substring, lemma_lines_of_last, lemma_lines_of_split, lines_of,
    split_at_line_feed, trim_cr,
};

verus! {

/// The lowercase form of a text, as `str::to_lowercase` computes it.
pub uninterp spec fn lower_of(s: Seq<char>) -> Seq<char>;

/// Relies on `str::to_lowercase`: the lowercase form of `s`, which depends on
/// the characters of `s` alone.
#[verifier::external_body]
fn lowercase(s: &str) -> (r: String)
    ensures
        r@ == lower_of(s@),
{
    s.to_lowercase()
}

/// Whether `line` is reported for `query`: it contains the query exactly, or,
/// when case is ignored, its lowercase form contains the lowercase query.
pub open spec fn line_matches(line: Seq<char>, query: Seq<char>, ignore_case: bool) -> bool {
    if ignore_case {
        has_substring(lower_of(line), lower_of(query))
    } else {
        has_substring(line, query)
    }
}

/// `r` maps the 1-based number of every line of `text` that matches `query`
/// to that line, and holds nothing else.
pub open spec fn reports_matches(
    r: Map<i32, &str>,
    query: Seq<char>,
    text: Seq<char>,
    ignore_case: bool,
) -> bool {
    let lines = lines_of(text);
    &&& forall|n: i32|
        #[trigger] r.contains_key(n) <==> 1 <= n <= lines.len() && line_matches(
            lines[n - 1],
            query,
            ignore_case,
        )
    &&& forall|n: i32| #[trigger] r.contains_key(n) ==> r[n]@ == lines[n - 1]
}

/// The test made on each line, with the query already in the form it is
/// compared in (`pattern`).
spec fn line_wanted(line: Seq<char>, pattern: Seq<char>, fold: bool) -> bool {
    if fold {
        has_substring(lower_of(line), pattern)
    } else {
        has_substring(line, pattern)
    }
}

fn line_wanted_exec(line: &str, pattern: &Vec<char>, fold: bool) -> (b: bool)
    ensures
        b == line_wanted(line@, pattern@, fold),
{
    if fold {
        let lower = lowercase(line);
        find_substring(&chars_of(lower.as_str()), pattern)
    } else {
        find_substring(&chars_of(line), pattern)
    }
}

/// `line` without the carriage return that ends it, if any.
fn trim_line_cr<'a>(line: &'a str) -> (r: &'a str)
    ensures
        r@ == trim_cr(line@),
{
    let cs = chars_of(line);
    let n = cs.len();
    if n > 0 && cs[n - 1] == '\r' {
        line.substring_char(0, n - 1)
    } else {
        line
    }
}

/// Numbers the lines of `contents` from 1 and keeps those that pass
/// `line_wanted` against `pattern`.
fn collect_matches<'a>(pattern: &Vec<char>, contents: &'a str, fold: bool) -> (r: HashMap<
    i32,
    &'a str,
>)
    requires
        lines_of(contents@).len() <= i32::MAX,
    ensures
        forall|n: i32|
            #[trigger] r@.contains_key(n) <==> 1 <= n <= lines_of(contents@).len() && line_wanted(
                lines_of(contents@)[n - 1],
                pattern@,
                fold,
            ),
        forall|n: i32| #[trigger] r@.contains_key(n) ==> r@[n]@ == lines_of(contents@)[n - 1],
{
    broadcast use group_hash_axioms;

    let ghost lines = lines_of(contents@);
    let mut results: HashMap<i32, &'a str> = HashMap::new();
    let mut count: i32 = 0;
    let mut rest: &'a str = contents;
    loop
        invariant_except_break
            lines_of(rest@) == lines.subrange(count as int, lines.len() as int),
        invariant
            lines == lines_of(contents@),
            lines.len() <= i32::MAX,
            0 <= count <= lines.len(),
            forall|n: i32|
                #[trigger] results@.contains_key(n) <==> 1 <= n <= count && line_wanted(
                    lines[n - 1],
                    pattern@,
                    fold,
                ),
            forall|n: i32| #[trigger] results@.contains_key(n) ==> results@[n]@ == lines[n - 1],
        ensures
            forall|n: i32|
                #[trigger] results@.contains_key(n) <==> 1 <= n <= lines.len() && line_wanted(
                    lines[n - 1],
                    pattern@,
                    fold,
                ),
            forall|n: i32| #[trigger] results@.contains_key(n) ==> results@[n]@ == lines[n - 1],
        decreases rest@.len(),
    {
        let next = split_at_line_feed(rest);
        match next {
            Some((head, tail)) => {
                proof {
                    lemma_lines_of_split(head@, tail@);
                    assert(rest@ == head@ + seq!['\n'] + tail@);
                    assert(lines_of(rest@) == seq![trim_cr(head@)] + lines_of(tail@));
                    assert(lines_of(rest@).len() >= 1);
                    assert(lines.subrange(count as int, lines.len() as int)[0] == lines[count as int]);
                    let after = lines_of(rest@);
                    assert(lines_of(tail@) =~= after.subrange(1, after.len() as int));
                    assert(lines_of(tail@) =~= lines.subrange(count + 1, lines.len() as int));
                }
                let line = trim_line_cr(head);
                count += 1;
                if line_wanted_exec(line, pattern, fold) {
                    results.insert(count, line);
                }
                rest = tail;
            },
            None => {
                proof {
                    lemma_lines_of_last(rest@);
                }
                if rest.unicode_len() > 0 {
                    proof {
                        assert(lines_of(rest@) == seq![rest@]);
                        assert(lines.subrange(count as int, lines.len() as int)[0] == lines[count as int]);
                    }
                    count += 1;
                    if line_wanted_exec(rest, pattern, fold) {
                        results.insert(count, rest);
                    }
                }
                break;
            },
        }
    }
    results
}

/// The lines of `contents` that contain `query` exactly, keyed by their
/// 1-based line numbers. An empty query matches every line.
pub fn search<'a>(query: &str, contents: &'a str) -> (r: HashMap<i32, &'a str>)
    requires
        lines_of(contents@).len() <= i32::MAX,
    ensures
        reports_matches(r@, query@, contents@, false),
        contents@.len() == 0 ==> r@.is_empty(),
{
    let pattern = chars_of(query);
    let r = collect_matches(&pattern, contents, false);
    assert(contents@.len() == 0 ==> r@ =~= Map::empty());
    r
}

/// The lines of `contents` whose lowercase form contains the lowercase form of
/// `query`, keyed by their 1-based line numbers. The lines are returned as they
/// stand in `contents`, not lowercased.
pub fn search_case_insensitive<'a>(query: &str, contents: &'a str) -> (r: HashMap<i32, &'a str>)
    requires
        lines_of(contents@).len() <= i32::MAX,
    ensures
        reports_matches(r@, query@, contents@, true),
        contents@.len() == 0 ==> r@.is_empty(),
{
    let lower = lowercase(query);
    let pattern = chars_of(lower.as_str());
    let r = collect_matches(&pattern, contents, true);
    assert(contents@.len() == 0 ==> r@ =~= Map::empty());
    r
}

} // verus!
