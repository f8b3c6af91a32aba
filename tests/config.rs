use smarttype::config::{AppConfig, Config};
use smarttype::Stats;

#[test]
fn test_default_config() {
    let config = Config::default();
    assert!(config.enabled);
    assert!(config.smart_punctuation);
    assert!(config.autocorrect);
    assert_eq!(config.min_word_length, 2);
}

#[test]
fn test_app_config() {
    let config = Config::default();
    let firefox_config = config.get_app_config("firefox");
    assert!(firefox_config.is_some());
    assert!(firefox_config.unwrap().enabled);
}

#[test]
fn app_settings_can_be_replaced() {
    let mut config = Config::default();
    assert_eq!(config.get_app_config("kitty").unwrap().smart_quotes, Some(false));
    let quiet = AppConfig { enabled: false, smart_quotes: None, autocorrect: Some(false) };
    config.set_app_config("kitty".to_string(), quiet);
    assert_eq!(config.get_app_config("kitty"), Some(&quiet));
    assert_eq!(config.applications.len(), 5);
    config.set_app_config("gedit".to_string(), quiet);
    assert_eq!(config.applications.len(), 6);
    assert!(config.get_app_config("vim").is_none());
}

#[test]
fn custom_typos_can_be_added_and_removed() {
    let mut config = Config::default();
    assert_eq!(config.custom_typo("hte").map(|s| s.as_str()), Some("the"));
    config.add_custom_typo("adn".to_string(), "and".to_string());
    assert_eq!(config.custom_typo("adn").map(|s| s.as_str()), Some("and"));
    config.add_custom_typo("adn".to_string(), "AND".to_string());
    assert_eq!(config.custom_typo("adn").map(|s| s.as_str()), Some("AND"));
    assert_eq!(config.custom_typos.len(), 3);
    config.remove_custom_typo("hte");
    assert!(config.custom_typo("hte").is_none());
    config.remove_custom_typo("missing");
    assert_eq!(config.custom_typos.len(), 2);
    assert_eq!(config.hotkey, "Super+Shift+A");
}

#[test]
fn stats_hold_their_counters() {
    let stats = Stats { total_corrections: 4, session_corrections: 1, dictionary_size: 10, custom_corrections: 2 };
    assert_eq!(stats, stats.clone());
    assert_eq!(stats.total_corrections, 4);
}

#[test]
fn setters_leave_other_fields_alone() {
    let mut config = Config::default();
    config.enabled = false;
    config.min_word_length = 4;
    config.add_custom_typo("teh".to_string(), "the".to_string());
    config.set_app_config("vim".to_string(), AppConfig { enabled: true, smart_quotes: None, autocorrect: None });
    config.remove_custom_typo("teh");
    assert!(!config.enabled);
    assert_eq!(config.min_word_length, 4);
    assert!(config.smart_punctuation);
    assert_eq!(config.hotkey, "Super+Shift+A");
}
