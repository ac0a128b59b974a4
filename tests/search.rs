use std::collections::HashMap;

use minigrep::config::Config;
use minigrep::search::{search, search_case_insensitive};

const POEM: &str = "\
Rust:
safe, fast, productive.
Pick three,";

fn sorted(r: HashMap<i32, &str>) -> Vec<(i32, &str)> {
    let mut v: Vec<(i32, &str)> = r.into_iter().collect();
    v.sort();
    v
}

#[test]
fn case_sensitive() {
    let query = "duct";
    let contents = "\
Rust:
safe, fast, productive.
Pick three,";

    let lines: Vec<&str> = search(query, contents).into_values().collect();
    let num: Vec<i32> = search(query, contents).into_keys().collect();
    assert_eq!(vec!["safe, fast, productive."], lines);
    assert_eq!(vec![2], num);
}

#[test]
fn case_insensitive() {
    let query = "dUcT";
    let contents = "\
Rust:
safe, fast, productive.
Pick three,";

    let lines: Vec<&str> = search_case_insensitive(query, contents).into_values().collect();
    let num: Vec<i32> = search_case_insensitive(query, contents).into_keys().collect();
    assert_eq!(vec!["safe, fast, productive."], lines);
    assert_eq!(vec![2], num);
}

#[test]
fn case_sensitive_ignores_other_case() {
    assert!(search("dUcT", POEM).is_empty());
    assert!(search("rust", POEM).is_empty());
    assert_eq!(sorted(search("Rust", POEM)), vec![(1, "Rust:")]);
}

#[test]
fn empty_text_has_no_matches() {
    assert!(search("duct", "").is_empty());
    assert!(search("", "").is_empty());
    assert!(search_case_insensitive("duct", "").is_empty());
    assert!(search_case_insensitive("", "").is_empty());
}

#[test]
fn no_match_gives_empty_result() {
    assert!(search("xyz123", POEM).is_empty());
    assert!(search_case_insensitive("xyz123", POEM).is_empty());
}

#[test]
fn empty_query_matches_every_line() {
    assert_eq!(
        sorted(search("", POEM)),
        vec![(1, "Rust:"), (2, "safe, fast, productive."), (3, "Pick three,")]
    );
    assert_eq!(sorted(search_case_insensitive("", "a\n\nb")), vec![(1, "a"), (2, ""), (3, "b")]);
}

#[test]
fn every_matching_line_is_reported() {
    let text = "one fish\ntwo fish\nred\nblue fish";
    assert_eq!(sorted(search("fish", text)), vec![(1, "one fish"), (2, "two fish"), (4, "blue fish")]);
}

#[test]
fn blank_lines_are_counted() {
    assert_eq!(sorted(search("duct", "\n\nproduct\n")), vec![(3, "product")]);
}

#[test]
fn crlf_endings_are_removed() {
    let text = "alpha\r\nbeta\r\ngamma\r\n";
    assert_eq!(sorted(search("a", text)), vec![(1, "alpha"), (2, "beta"), (3, "gamma")]);
    assert!(search("\r", text).is_empty());
}

#[test]
fn bare_carriage_return_on_last_line_is_kept() {
    assert_eq!(sorted(search("b", "a\nb\r")), vec![(2, "b\r")]);
    assert_eq!(sorted(search("\r", "a\r\nb\rc")), vec![(2, "b\rc")]);
}

#[test]
fn trailing_line_feed_adds_no_line() {
    assert!(search("", "a\n").get(&2).is_none());
    assert_eq!(search("", "a\n").len(), 1);
    assert_eq!(search("", "\n").len(), 1);
    assert_eq!(sorted(search("", "a\n\n")), vec![(1, "a"), (2, "")]);
}

#[test]
fn query_spanning_lines_does_not_match() {
    assert!(search("a\nb", "a\nb").is_empty());
    assert!(search_case_insensitive("A\nB", "a\nb").is_empty());
}

#[test]
fn case_insensitive_returns_original_text() {
    assert_eq!(sorted(search_case_insensitive("DUCT", "PRODUCT\nproduct\nother")), vec![
        (1, "PRODUCT"),
        (2, "product")
    ]);
}

#[test]
fn case_insensitive_lowercases_the_query() {
    assert_eq!(sorted(search_case_insensitive("DUCT", "productive")), vec![(1, "productive")]);
}

#[test]
fn case_insensitive_handles_non_ascii() {
    assert_eq!(sorted(search_case_insensitive("ÄB", "xäbx\nab\nÄBC")), vec![(1, "xäbx"), (3, "ÄBC")]);
    assert_eq!(sorted(search("äb", "xäbx\nÄB")), vec![(1, "xäbx")]);
}

#[test]
fn query_longer_than_line() {
    assert!(search("productive and more", POEM).is_empty());
}

fn args(v: &[&str]) -> Vec<String> {
    v.iter().map(|s| s.to_string()).collect()
}

#[test]
fn build_without_arguments_fails_on_query() {
    match Config::build(args(&["minigrep"]), false) {
        Err(e) => assert_eq!(e, "Didn't get a query string"),
        Ok(_) => panic!("expected an error"),
    }
    match Config::build(Vec::new(), false) {
        Err(e) => assert_eq!(e, "Didn't get a query string"),
        Ok(_) => panic!("expected an error"),
    }
}

#[test]
fn build_without_path_fails_on_path() {
    match Config::build(args(&["minigrep", "duct"]), true) {
        Err(e) => assert_eq!(e, "Didn't get a file path"),
        Ok(_) => panic!("expected an error"),
    }
}

#[test]
fn build_takes_query_and_path_in_order() {
    let c = Config::build(args(&["minigrep", "duct", "poem.txt", "extra"]), true).unwrap();
    assert_eq!(c.query, "duct");
    assert_eq!(c.file_path, "poem.txt");
    assert!(c.ignore_case);
    let c = Config::build(args(&["minigrep", "duct", "poem.txt"]), false).unwrap();
    assert!(!c.ignore_case);
}

#[test]
fn config_selects_the_matcher() {
    let exact = Config::build(args(&["minigrep", "dUcT", "poem.txt"]), false).unwrap();
    assert!(exact.search_in(POEM).is_empty());
    let folded = Config::build(args(&["minigrep", "dUcT", "poem.txt"]), true).unwrap();
    assert_eq!(sorted(folded.search_in(POEM)), vec![(2, "safe, fast, productive.")]);
}
