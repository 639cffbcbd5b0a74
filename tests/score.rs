use cargo_heu::score::{CaseResult, Pattern};

fn re(p: &str) -> Pattern {
    Pattern::compile(p).unwrap()
}

#[test]
fn test_parse_score_normal() {
    let re = re(r"Score = (\d+)");
    assert_eq!(CaseResult::parse_score("Score = 12345", &re), 12345);
}

#[test]
fn test_parse_score_multiline() {
    let re = re(r"Score = (\d+)");
    let visout = "some info\nScore = 67890\nother info";
    assert_eq!(CaseResult::parse_score(visout, &re), 67890);
}

#[test]
fn test_parse_score_none() {
    let re = re(r"Score = (\d+)");
    assert_eq!(CaseResult::parse_score("no score here", &re), 0);
}

#[test]
fn test_parse_score_custom_regex() {
    let re = re(r"TotalScore: (\d+)");
    assert_eq!(CaseResult::parse_score("TotalScore: 42", &re), 42);
}

#[test]
fn first_matching_line_wins() {
    let re = re(r"Score = (\d+)");
    assert_eq!(CaseResult::parse_score("Score = 5\r\nScore = 9\n", &re), 5);
}

#[test]
fn unparsable_capture_is_skipped() {
    let re = re(r"Score = (\d+)");
    assert_eq!(CaseResult::parse_score("Score = 18446744073709551616\nScore = 3", &re), 3);
    assert_eq!(CaseResult::parse_score("Score = 18446744073709551616", &re), 0);
    let word = Pattern::compile(r"Score = (\w+)").unwrap();
    assert_eq!(CaseResult::parse_score("Score = abc\nScore = 5", &word), 5);
    assert_eq!(
        CaseResult::parse_score("Score = 18446744073709551615", &re),
        18446744073709551615
    );
}

#[test]
fn test_lookup_comments_with_comments() {
    let re = re(r"^# (.*)$");
    let cmts = CaseResult::lookup_comments_from("# foo\n# bar\n", &re);
    assert_eq!(cmts, "foo/bar");
}

#[test]
fn test_lookup_comments_none() {
    let re = re(r"^# (.*)$");
    let cmts = CaseResult::lookup_comments_from("no comments here\n", &re);
    assert_eq!(cmts, "");
}

#[test]
fn test_lookup_comments_mixed() {
    let re = re(r"^# (.*)$");
    let cmts =
        CaseResult::lookup_comments_from("debug line\n# comment1\nmore debug\n# comment2\n", &re);
    assert_eq!(cmts, "comment1/comment2");
}

#[test]
fn test_lookup_comments_custom_regex() {
    let re = re(r"^\[cmt\] (.*)$");
    let cmts = CaseResult::lookup_comments_from("[cmt] hello\n[cmt] world\n", &re);
    assert_eq!(cmts, "hello/world");
}

#[test]
fn comments_keep_crlf_lines_clean() {
    let re = re(r"^# (.*)$");
    assert_eq!(CaseResult::lookup_comments_from("# a\r\n# b", &re), "a/b");
}

#[test]
fn empty_captures_are_joined_too() {
    let re = re(r"^# (.*)$");
    assert_eq!(CaseResult::lookup_comments_from("# \n# a\n", &re), "/a");
    assert_eq!(CaseResult::lookup_comments_from("# a\nx\n# \n", &re), "a/");
}

#[test]
fn invalid_pattern_does_not_compile() {
    assert!(Pattern::compile("(").is_none());
    assert_eq!(re("a(b)").as_str(), "a(b)");
}

#[test]
fn result_line_and_comments() {
    let s = re(r"Score = (\d+)");
    let c = re(r"^# (.*)$");
    let r = CaseResult::new(
        7,
        "in/0007.txt".to_string(),
        "out/0007.txt".to_string(),
        "Score = 1234567".to_string(),
        "# hi\nnoise\n# there\n".to_string(),
        1235,
        &s,
        &c,
    );
    assert_eq!(r.score, 1234567);
    assert_eq!(r.lookup_comments(), "hi/there");
    assert_eq!(r.report_line(), "0007 SCORE[  1,234,567] ELAPSED[1.24s] CMTS[hi/there]");
}

#[test]
fn result_line_pads_and_rounds() {
    let s = re(r"Score = (\d+)");
    let c = re(r"^# (.*)$");
    let r = CaseResult::new(
        12345,
        String::new(),
        String::new(),
        "nothing".to_string(),
        String::new(),
        4,
        &s,
        &c,
    );
    assert_eq!(r.report_line(), "12345 SCORE[          0] ELAPSED[0.00s] CMTS[]");
}
