use rgrep::app::{execute_search, process_source};
use rgrep::io::InputSource;
use rgrep::search::{create_matcher, format_match, MatchResult};
use rgrep::text::{contains_pattern, normalize_line, normalize_lines, str_eq, usize_to_string};
use rgrep::{CliAction, Config, ExitCode, RgrepError};

fn source(name: Option<&str>, lines: &[&str]) -> InputSource {
    InputSource {
        name: name.map(|n| n.to_string()),
        lines: lines.iter().map(|l| Some(l.to_string())).collect(),
    }
}

#[test]
fn scenario_literal_stdin_match() {
    let config = Config::new("test".to_string(), vec![], false, false);
    let sources = vec![source(None, &["line 1", "this is a test", "line 3"])];
    let out = execute_search(&config, &sources);
    assert_eq!(out.printed, vec!["this is a test".to_string()]);
    assert!(out.any_match);
    assert_eq!(out.exit_code, ExitCode::Success);
    assert_eq!(out.exit_code.code(), 0);
}

#[test]
fn scenario_case_insensitive_stdin_match() {
    let config = Config::new("TEST".to_string(), vec![], true, false);
    let sources = vec![source(None, &["line 1", "this is a test", "line 3"])];
    let out = execute_search(&config, &sources);
    assert_eq!(out.printed, vec!["this is a test".to_string()]);
    assert_eq!(out.exit_code, ExitCode::Success);
}

#[test]
fn scenario_no_match_exit_code() {
    let config = Config::new("xyz".to_string(), vec![], false, false);
    let sources = vec![source(None, &[])];
    let out = execute_search(&config, &sources);
    assert!(out.printed.is_empty());
    assert!(!out.any_match);
    assert_eq!(out.exit_code, ExitCode::NoMatches);
    assert_eq!(out.exit_code.code(), 1);
}

#[test]
fn scenario_two_files_filename_prefix() {
    let config = Config::new(
        "needle".to_string(),
        vec!["a.txt".to_string(), "b.txt".to_string()],
        false,
        false,
    );
    let sources = vec![
        source(Some("a.txt"), &["hay", "a needle here", "hay"]),
        source(Some("b.txt"), &["nothing", "here"]),
    ];
    let out = execute_search(&config, &sources);
    assert_eq!(out.printed, vec!["a.txt:a needle here".to_string()]);
    assert_eq!(out.exit_code, ExitCode::Success);
}

#[test]
fn scenario_line_number_single_file() {
    let config = Config::new(
        "test".to_string(),
        vec!["f.txt".to_string()],
        false,
        true,
    );
    let sources = vec![source(
        Some("f.txt"),
        &["one", "two", "three", "four", "a test line"],
    )];
    let out = execute_search(&config, &sources);
    assert_eq!(out.printed, vec!["5:a test line".to_string()]);
}

#[test]
fn scenario_mixing_stdin_and_files_rejected() {
    let config = Config::new(
        "pattern".to_string(),
        vec!["-".to_string(), "file.txt".to_string()],
        false,
        false,
    );
    let err = config.validate().unwrap_err();
    match &err {
        RgrepError::InvalidArgs { message, show_help } => {
            assert_eq!(message, "Cannot mix stdin (-) with other files");
            assert!(!show_help);
        }
        _ => panic!("expected InvalidArgs"),
    }
    assert_eq!(err.exit_code(), ExitCode::InvalidArgs);
    assert_eq!(err.exit_code().code(), 2);
    assert_eq!(
        err.display_message(),
        "rgrep: Cannot mix stdin (-) with other files"
    );
}

#[test]
fn scenario_missing_file_skipped() {
    // One of two targets failed to open: only the opened source is searched,
    // but the filename prefix still reflects that two targets were given.
    let config = Config::new(
        "foo".to_string(),
        vec!["missing.txt".to_string(), "good.txt".to_string()],
        false,
        false,
    );
    let sources = vec![source(Some("good.txt"), &["a foo line"])];
    let out = execute_search(&config, &sources);
    assert_eq!(out.printed, vec!["good.txt:a foo line".to_string()]);
    assert_eq!(out.exit_code, ExitCode::Success);
    assert_eq!(out.exit_code.code(), 0);
}

#[test]
fn empty_pattern_rejected() {
    let config = Config::new(String::new(), vec![], false, false);
    let err = config.validate().unwrap_err();
    match &err {
        RgrepError::InvalidArgs { message, show_help } => {
            assert_eq!(message, "Pattern cannot be empty");
            assert!(!show_help);
        }
        _ => panic!("expected InvalidArgs"),
    }
    assert_eq!(err.exit_code().code(), 2);
}

#[test]
fn valid_config_accepted() {
    let config = Config::new("p".to_string(), vec!["a".to_string()], false, false);
    assert!(config.validate().is_ok());
    let stdin_only = Config::new("p".to_string(), vec!["-".to_string()], false, false);
    assert!(stdin_only.validate().is_ok());
}

#[test]
fn stdin_detection() {
    let none = Config::new("p".to_string(), vec![], false, false);
    assert!(none.use_stdin());
    assert!(none.actual_files().is_empty());

    let dash = Config::new("p".to_string(), vec!["-".to_string()], false, false);
    assert!(dash.use_stdin());
    assert!(dash.actual_files().is_empty());

    let named = Config::new(
        "p".to_string(),
        vec!["a.txt".to_string(), "b.txt".to_string()],
        false,
        false,
    );
    assert!(!named.use_stdin());
    assert_eq!(named.actual_files(), vec!["a.txt", "b.txt"]);
}

#[test]
fn line_numbers_skip_failed_reads() {
    // An unreadable line yields no record, yet later lines keep their true
    // ordinal position.
    let config = Config::new("foo".to_string(), vec![], false, true);
    let matcher = create_matcher(&config);
    let lines: Vec<Option<String>> = vec![
        Some("foo".to_string()),
        None,
        Some("foobar".to_string()),
    ];
    let src = InputSource { name: None, lines };
    let (printed, any) = process_source(&matcher, &src, false, true);
    assert_eq!(printed, vec!["1:foo".to_string(), "3:foobar".to_string()]);
    assert!(any);
}

#[test]
fn line_numbers_cover_every_readable_line() {
    let config = Config::new("zzz".to_string(), vec![], false, false);
    let matcher = create_matcher(&config);
    let lines: Vec<Option<String>> = (0..4).map(|i| Some(format!("line {i}"))).collect();
    let records = rgrep::search::search_lines(&lines, &matcher);
    assert_eq!(records.len(), 4);
    for (k, r) in records.iter().enumerate() {
        assert_eq!(r.line_number, k + 1);
        assert!(!r.matched);
    }
}

#[test]
fn case_fold_equals_literal_on_folded() {
    // Case-insensitive matching coincides with literal matching on the
    // lowercase foldings of pattern and line.
    let pattern = "TeSt";
    let line = "this is a TEST";
    let config = Config::new(pattern.to_string(), vec![], true, false);
    let folded = create_matcher(&config);
    let sources = vec![source(None, &[line])];
    let out = execute_search(&config, &sources);

    let lowered_config = Config::new(pattern.to_lowercase(), vec![], false, false);
    let lowered_sources = vec![source(None, &[line.to_lowercase().as_str()])];
    let lowered_out = execute_search(&lowered_config, &lowered_sources);

    assert_eq!(out.any_match, lowered_out.any_match);
    assert!(out.any_match);
    drop(folded);
}

#[test]
fn format_is_deterministic() {
    let record = MatchResult {
        line: "payload".to_string(),
        line_number: 12,
        matched: true,
    };
    let first = format_match(&record, Some("name.txt"), true, true);
    let second = format_match(&record, Some("name.txt"), true, true);
    assert_eq!(first, second);
    assert_eq!(first, "name.txt:12:payload");
}

#[test]
fn substring_containment() {
    assert!(contains_pattern("hello world", "o w"));
    assert!(contains_pattern("hello", "hello"));
    assert!(contains_pattern("hello", ""));
    assert!(!contains_pattern("hello", "hello world"));
    assert!(!contains_pattern("", "x"));
}

#[test]
fn string_equality() {
    assert!(str_eq("abc", "abc"));
    assert!(!str_eq("abc", "abd"));
    assert!(!str_eq("abc", "ab"));
    assert!(str_eq("", ""));
}

#[test]
fn decimal_rendering() {
    assert_eq!(usize_to_string(0), "0");
    assert_eq!(usize_to_string(7), "7");
    assert_eq!(usize_to_string(10), "10");
    assert_eq!(usize_to_string(90210), "90210");
}

#[test]
fn normalization_strips_trailing_cr() {
    assert_eq!(normalize_line("line\r"), "line");
    assert_eq!(normalize_line("line"), "line");
    assert_eq!(normalize_line(""), "");
    assert_eq!(normalize_line("\r"), "");
    assert_eq!(normalize_line("a\rb"), "a\rb");

    let lines = vec![Some("one\r".to_string()), None, Some("two".to_string())];
    let normalized = normalize_lines(&lines);
    assert_eq!(
        normalized,
        vec![Some("one".to_string()), None, Some("two".to_string())]
    );
}

#[test]
fn version_and_usage_text() {
    assert_eq!(rgrep::cli::version(), "rgrep 0.1.0");
    assert!(rgrep::cli::usage().starts_with("Usage: rgrep"));
}

#[test]
fn io_error_reporting() {
    let err = RgrepError::io_error("data.txt".to_string(), "not found".to_string());
    assert_eq!(err.exit_code(), ExitCode::IoError);
    assert_eq!(err.exit_code().code(), 3);
    assert!(!err.should_show_help());
    assert_eq!(err.display_message(), "rgrep: data.txt: not found");

    let app = RgrepError::app_error("boom".to_string());
    assert_eq!(app.exit_code().code(), 3);
    assert_eq!(app.display_message(), "rgrep: boom");

    let args = RgrepError::invalid_args("bad flag".to_string(), true);
    assert!(args.should_show_help());
    assert_eq!(args.display_message(), "rgrep: bad flag");
}

#[test]
fn cli_action_variants() {
    let run = CliAction::Run(Config::new("p".to_string(), vec![], false, false));
    match run {
        CliAction::Run(cfg) => assert_eq!(cfg.pattern, "p"),
        _ => panic!("expected Run"),
    }
    assert!(matches!(CliAction::ShowHelp, CliAction::ShowHelp));
    assert!(matches!(CliAction::ShowVersion, CliAction::ShowVersion));
}
