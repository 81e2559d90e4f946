use workpool::grep::{self, run_search, Config};
use workpool::scan;
use workpool::text::{contains_str, first_word, longest, split_lines, str_eq};

#[test]
fn lines_split_at_newlines() {
    let lines = split_lines("one\ntwo\nthree");
    assert_eq!(lines, vec!["one", "two", "three"]);
}

#[test]
fn lines_of_empty_text() {
    let lines = split_lines("");
    assert!(lines.is_empty());
}

#[test]
fn trailing_newline_opens_no_line() {
    let lines = split_lines("one\ntwo\n");
    assert_eq!(lines, vec!["one", "two"]);
}

#[test]
fn carriage_return_before_newline_is_dropped() {
    let lines = split_lines("one\r\ntwo\r\nthree\r");
    assert_eq!(lines, vec!["one", "two", "three\r"]);
}

#[test]
fn empty_lines_are_kept() {
    let lines = split_lines("a\n\nb");
    assert_eq!(lines, vec!["a", "", "b"]);
}

#[test]
fn contains_finds_substrings() {
    assert!(contains_str("safe, fast, productive.", "duct"));
    assert!(contains_str("abc", ""));
    assert!(contains_str("abc", "abc"));
    assert!(!contains_str("abc", "abcd"));
    assert!(!contains_str("needle", "ned"));
}

#[test]
fn first_word_stops_at_space() {
    let s = String::from("hello world");
    assert_eq!(first_word(&s), "hello");
    let one = String::from("single");
    assert_eq!(first_word(&one), "single");
    let spaced = String::from(" leading");
    assert_eq!(first_word(&spaced), "");
}

#[test]
fn longest_picks_by_byte_length() {
    assert_eq!(longest("abc", "ab"), "abc");
    assert_eq!(longest("ab", "abc"), "abc");
    assert_eq!(longest("abc", "xyz"), "xyz");
    // Multi-byte characters count their bytes.
    assert_eq!(longest("abc", "测试"), "测试");
}

#[test]
fn str_eq_compares_characters() {
    assert!(str_eq("你好", "你好"));
    assert!(!str_eq("你好", "你坏"));
    assert!(!str_eq("a", "ab"));
}

#[test]
fn search_is_case_sensitive() {
    let query = "duct";
    let contents = "\
Rust:
safe, fast, productive.
Pick three.
Duct tape.";

    assert_eq!(
        vec!["safe, fast, productive."],
        grep::search(query, contents)
    );
}

#[test]
fn search_insensitive_folds_case() {
    let query = "rUsT";
    let contents = "\
Rust:
safe, fast, productive.
Pick three.
Trust me.";

    assert_eq!(
        vec!["Rust:", "Trust me."],
        grep::search_insensitive(query, contents)
    );
}

#[test]
fn both_searches_agree() {
    let contents = "alpha\nbeta\ngamma\nalphabet";
    assert_eq!(
        grep::search("alpha", contents),
        scan::search("alpha", contents)
    );
}

#[test]
fn run_search_honours_the_case_switch() {
    let contents = "Rust:\nsafe, fast, productive.\nTrust me.";
    let exact = Config {
        query: String::from("rust"),
        file_path: String::from("unused"),
        ignore_case: false,
    };
    assert_eq!(run_search(&exact, contents), vec!["Trust me."]);

    let folded = Config {
        query: String::from("rust"),
        file_path: String::from("unused"),
        ignore_case: true,
    };
    assert_eq!(run_search(&folded, contents), vec!["Rust:", "Trust me."]);
}

#[test]
fn config_needs_a_query() {
    let args = vec![String::from("minigrep")];
    let err = Config::build(args, false).unwrap_err();
    assert_eq!(err, "未曾获取到查询字串");
}

#[test]
fn config_needs_a_file_path() {
    let args = vec![String::from("minigrep"), String::from("needle")];
    let err = Config::build(args, true).unwrap_err();
    assert_eq!(err, "未曾获取到文件路径");
}

#[test]
fn config_takes_query_and_path() {
    let args = vec![
        String::from("minigrep"),
        String::from("needle"),
        String::from("haystack.txt"),
    ];
    let config = Config::build(args, true).unwrap();
    assert_eq!(config.query, "needle");
    assert_eq!(config.file_path, "haystack.txt");
    assert!(config.ignore_case);
}
