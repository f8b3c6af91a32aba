use smarttype::config_loader::{
    build_config, config_from_text, exit_code_for_error, parse_bool, parse_kv, ConfigError,
};

#[test]
fn parses_basic_config() {
    let cfg = config_from_text("host=localhost\nport=8080\ndebug=true\n\n", None, None, None).unwrap();
    assert_eq!(cfg.host, "localhost");
    assert_eq!(cfg.port, 8080);
    assert!(cfg.debug);
}

#[test]
fn applies_env_overrides() {
    let cfg = config_from_text(
        "host=localhost\nport=8080\n\n",
        Some("example.com".to_string()),
        Some("9090".to_string()),
        Some("yes".to_string()),
    )
    .unwrap();
    assert_eq!(cfg.host, "example.com");
    assert_eq!(cfg.port, 9090);
    assert!(cfg.debug);
}

#[test]
fn errors_on_missing_keys() {
    let err = config_from_text("host=localhost\n\n", None, None, None).unwrap_err();
    assert!(matches!(err, ConfigError::MissingKey("port")));
}

#[test]
fn errors_on_invalid_values() {
    let err = config_from_text("host=localhost\nport=notanumber\n\n", None, Some("notanumber".to_string()), None)
        .unwrap_err();
    assert!(matches!(err, ConfigError::InvalidPort(_)));
}

#[test]
fn loads_config_and_exits_zero() {
    let cfg = config_from_text("host=localhost\nport=8080\n\n", None, None, None).unwrap();
    assert_eq!(cfg.port, 8080);
}

#[test]
fn returns_error_code_on_missing() {
    let err = config_from_text("host=localhost\n\n", None, None, None).unwrap_err();
    assert_eq!(exit_code_for_error(&err), 2);
}

#[test]
fn key_lines_are_trimmed_lowercased_and_commented() {
    let map = parse_kv("  HOST = a.example \n# port=1\nnoequals\nPort=7=8\n");
    assert_eq!(map.get("host").map(|s| s.as_str()), Some("a.example"));
    assert_eq!(map.get("port").map(|s| s.as_str()), Some("7=8"));
    assert_eq!(map.len(), 2);
    let err = build_config(&map).unwrap_err();
    assert_eq!(err, ConfigError::InvalidPort("7=8".to_string()));
}

#[test]
fn missing_host_comes_first() {
    let err = config_from_text("port=1\n", None, None, None).unwrap_err();
    assert_eq!(err, ConfigError::MissingKey("host"));
}

#[test]
fn invalid_bool_is_reported() {
    let err = config_from_text("host=h\nport=1\ndebug=maybe\n", None, None, None).unwrap_err();
    assert_eq!(err, ConfigError::InvalidBool("maybe".to_string()));
    let cfg = config_from_text("host=h\nport=+65535\ndebug= No \n", None, None, None).unwrap();
    assert_eq!(cfg.port, 65535);
    assert!(!cfg.debug);
    assert!(config_from_text("host=h\nport=65536\n", None, None, None).is_err());
}

#[test]
fn bools_read_in_any_case() {
    assert_eq!(parse_bool(" TRUE "), Ok(true));
    assert_eq!(parse_bool("Y"), Ok(true));
    assert_eq!(parse_bool("0"), Ok(false));
    assert_eq!(parse_bool("off"), Err(()));
}

#[test]
fn exit_codes_for_errors() {
    assert_eq!(exit_code_for_error(&ConfigError::Io("gone".to_string())), 1);
    assert_eq!(exit_code_for_error(&ConfigError::InvalidBool("x".to_string())), 2);
    assert_eq!(exit_code_for_error(&ConfigError::InvalidPort("x".to_string())), 2);
}

#[test]
fn error_messages() {
    assert_eq!(ConfigError::MissingKey("port").to_string(), "missing required key: port");
    assert_eq!(ConfigError::InvalidPort("x".to_string()).to_string(), "invalid port: x");
    assert_eq!(ConfigError::InvalidBool("m".to_string()).to_string(), "invalid bool: m");
    assert_eq!(ConfigError::Io("gone".to_string()).to_string(), "io error: gone");
}
