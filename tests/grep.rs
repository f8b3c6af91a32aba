use smarttype::grep::{line_matches, search_in_reader, split_lines, Config};

#[test]
fn config_parses_args() {
    let args = vec![
        "rsgrep".to_string(),
        "needle".to_string(),
        "file.txt".to_string(),
        "--ignore-case".to_string(),
    ];
    let cfg = Config::from_args(args).unwrap();
    assert_eq!(cfg.query, "needle");
    assert_eq!(cfg.filename, "file.txt");
    assert!(cfg.ignore_case);
}

#[test]
fn prints_usage_on_error() {
    let result = Config::from_args(vec!["rsgrep".into()]);
    assert!(result.is_err());
}

#[test]
fn missing_arguments_are_named() {
    assert_eq!(Config::from_args(vec![]).unwrap_err(), "missing query string");
    let two = vec!["rsgrep".to_string(), "q".to_string()];
    assert_eq!(Config::from_args(two).unwrap_err(), "missing file name to search");
    let short_flag = vec!["g".to_string(), "q".to_string(), "f".to_string(), "-i".to_string()];
    assert!(Config::from_args(short_flag).unwrap().ignore_case);
    let plain = vec!["g".to_string(), "q".to_string(), "f".to_string(), "-x".to_string()];
    assert!(!Config::from_args(plain).unwrap().ignore_case);
}

#[test]
fn search_finds_case_sensitive() {
    let input = "Rust is great\nTrust the process\n";
    let results = search_in_reader("Rust", input, false);
    assert_eq!(results.len(), 1);
    assert_eq!(results[0].line_number, 1);
}

#[test]
fn search_finds_ignore_case() {
    let input = "rustacean\nFerris\nRUST rules\n";
    let results = search_in_reader("rust", input, true);
    assert_eq!(results.len(), 2);
    assert_eq!(results[1].line_number, 3);
}

#[test]
fn ignore_case_lowercases_both_sides() {
    let results = search_in_reader("FERRIS", "a\nferris here\n", true);
    assert_eq!(results.len(), 1);
    assert_eq!(results[0].line, "ferris here");
    assert_eq!(results[0].line_number, 2);
    assert!(search_in_reader("FERRIS", "a\nferris here\n", false).is_empty());
}

#[test]
fn lines_split_like_buffered_reading() {
    assert_eq!(split_lines("a\r\nb\n\nc"), vec!["a", "b", "", "c"]);
    assert_eq!(split_lines("x\n"), vec!["x"]);
    assert!(split_lines("").is_empty());
    assert_eq!(split_lines("\n"), vec![""]);
}

#[test]
fn substring_match_is_exact() {
    assert!(line_matches("Trust the process", "ust"));
    assert!(line_matches("abc", ""));
    assert!(!line_matches("ab", "abc"));
    assert!(!line_matches("Rust", "rust"));
}
