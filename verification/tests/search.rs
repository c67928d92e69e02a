use rgrep::search::{
    create_matcher, format_match, search_lines, CaseInsensitiveMatcher, LiteralMatcher,
    MatchResult, Matcher,
};
use rgrep::Config;

#[test]
fn test_literal_matcher() {
    let matcher = LiteralMatcher::new("test".to_string());
    assert!(matcher.matches("this is a test"));
    assert!(matcher.matches("testing"));
    assert!(!matcher.matches("this is a TEST"));
    assert!(!matcher.matches("no match here"));
}

#[test]
fn test_case_insensitive_matcher() {
    let matcher = CaseInsensitiveMatcher::new("Test".to_string());
    assert!(matcher.matches("this is a test"));
    assert!(matcher.matches("this is a TEST"));
    assert!(matcher.matches("Testing"));
    assert!(!matcher.matches("no match here"));
}

#[test]
fn test_format_match() {
    let match_result = MatchResult {
        line: "hello world".to_string(),
        line_number: 42,
        matched: true,
    };

    // Basic formatting
    assert_eq!(
        format_match(&match_result, None, false, false),
        "hello world"
    );

    // With line numbers
    assert_eq!(
        format_match(&match_result, None, false, true),
        "42:hello world"
    );

    // With filename
    assert_eq!(
        format_match(&match_result, Some("test.txt"), true, false),
        "test.txt:hello world"
    );

    // With both filename and line numbers
    assert_eq!(
        format_match(&match_result, Some("test.txt"), true, true),
        "test.txt:42:hello world"
    );
}

#[test]
fn search_literal_match() {
    let config = Config::new("test".into(), vec![], false, false);
    let matcher = create_matcher(&config);

    let input = "line 1\nthis is a test\nline 3";
    let lines: Vec<Option<String>> = input.lines().map(|s| Some(s.to_string())).collect();

    let results = search_lines(&lines, &matcher);

    let matched: Vec<_> = results.into_iter().filter(|r| r.matched).collect();
    assert_eq!(matched.len(), 1);
    assert_eq!(matched[0].line, "this is a test");
    assert_eq!(matched[0].line_number, 2);
}

#[test]
fn search_case_insensitive_match() {
    let config = Config::new("TEST".into(), vec![], true, false);
    let matcher = create_matcher(&config);

    let input = "line 1\nthis is a test\nline 3";
    let lines: Vec<Option<String>> = input.lines().map(|s| Some(s.to_string())).collect();

    let results = search_lines(&lines, &matcher);

    let matched: Vec<_> = results.into_iter().filter(|r| r.matched).collect();
    assert_eq!(matched.len(), 1);
    assert_eq!(matched[0].line, "this is a test");
}

#[test]
fn format_match_basic() {
    let match_result = MatchResult {
        line: "hello world".to_string(),
        line_number: 5,
        matched: true,
    };

    assert_eq!(
        format_match(&match_result, None, false, false),
        "hello world"
    );
}

#[test]
fn format_match_with_line_numbers() {
    let match_result = MatchResult {
        line: "hello world".to_string(),
        line_number: 5,
        matched: true,
    };

    assert_eq!(
        format_match(&match_result, None, false, true),
        "5:hello world"
    );
}

#[test]
fn format_match_with_filename() {
    let match_result = MatchResult {
        line: "hello world".to_string(),
        line_number: 5,
        matched: true,
    };

    assert_eq!(
        format_match(&match_result, Some("test.txt"), true, false),
        "test.txt:hello world"
    );
}

#[test]
fn format_match_with_filename_and_line_numbers() {
    let match_result = MatchResult {
        line: "hello world".to_string(),
        line_number: 5,
        matched: true,
    };

    assert_eq!(
        format_match(&match_result, Some("test.txt"), true, true),
        "test.txt:5:hello world"
    );
}
