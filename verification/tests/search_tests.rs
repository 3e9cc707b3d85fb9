use minigrep::search;
use minigrep::search_case_insensitive;

#[test]
fn one_result() {
    let query = "duct";
    let contents = "\
Rust:
safe, fast, productive.
Pick three.
Duct tape.";

    assert_eq!(vec!["safe, fast, productive."], search(query, contents));
}

#[test]
fn case_insensitive() {
    let query = "rUsT";
    let contents = "\
Rust:
safe, fast, productive.
Pick three.
Trust me.";

    assert_eq!(
        vec!["Rust:", "Trust me."],
        search_case_insensitive(query, contents)
    );
}

#[test]
fn empty_query_returns_every_line() {
    let contents = "abc\ndef";
    assert_eq!(vec!["abc", "def"], search("", contents));
    assert_eq!(vec!["abc", "def"], search_case_insensitive("", contents));
}

#[test]
fn empty_contents_yields_nothing() {
    assert_eq!(Vec::<&str>::new(), search("foo", ""));
    assert_eq!(Vec::<&str>::new(), search_case_insensitive("foo", ""));
    assert_eq!(Vec::<&str>::new(), search("", ""));
}

#[test]
fn search_is_idempotent() {
    let query = "st";
    let contents = "Rust:\nsafe, fast, productive.\nPick three.\nTrust me.";
    assert_eq!(search(query, contents), search(query, contents));
    assert_eq!(
        search_case_insensitive(query, contents),
        search_case_insensitive(query, contents)
    );
}

#[test]
fn sensitive_search_respects_case() {
    let contents = "Rust:\nsafe, fast, productive.\nPick three.\nTrust me.";
    assert_eq!(vec!["Trust me."], search("rust", contents));
    assert_eq!(
        vec!["Rust:", "Trust me."],
        search_case_insensitive("rust", contents)
    );
}

#[test]
fn carriage_returns_before_line_feeds_are_stripped() {
    let contents = "one\r\ntwo\r\nthree";
    assert_eq!(vec!["one", "two", "three"], search("", contents));
    assert_eq!(vec!["two"], search("tw", contents));
}

#[test]
fn final_line_without_line_break_is_included() {
    let contents = "first\nlast";
    assert_eq!(vec!["last"], search("las", contents));
}

#[test]
fn trailing_line_break_adds_no_line() {
    let contents = "first\nsecond\n";
    assert_eq!(vec!["first", "second"], search("", contents));
}

#[test]
fn matched_lines_keep_original_casing() {
    let contents = "ALPHA\nbeta";
    assert_eq!(vec!["ALPHA"], search_case_insensitive("alpha", contents));
}

#[test]
fn repeated_matches_in_one_line_appear_once() {
    let contents = "duct duct duct\nnothing";
    assert_eq!(vec!["duct duct duct"], search("duct", contents));
}
