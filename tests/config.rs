use clipboard_history::config::{
    default_hotkey, default_max_entries, default_max_entry_size, default_popup_height, default_popup_width,
    parse_hotkey, parse_hotkey_tokens, Config, HotkeyConfig, HotkeyError, UiConfig,
};

#[test]
fn test_parse_hotkey() {
    let (ctrl, shift, alt, key) = parse_hotkey("Ctrl+Shift+V").unwrap();
    assert!(ctrl);
    assert!(shift);
    assert!(!alt);
    assert_eq!(key, "V");

    let (ctrl, shift, alt, key) = parse_hotkey("Alt+C").unwrap();
    assert!(!ctrl);
    assert!(!shift);
    assert!(alt);
    assert_eq!(key, "C");
}

#[test]
fn test_default_config() {
    let config = Config::default();
    assert_eq!(config.max_entries, 100);
    assert_eq!(config.ui.width, 600);
    assert_eq!(config.hotkey.popup, "Ctrl+Shift+V");
}

#[test]
fn default_values() {
    assert_eq!(default_max_entries(), 100);
    assert_eq!(default_max_entry_size(), 1048576);
    assert_eq!(default_popup_width(), 600);
    assert_eq!(default_popup_height(), 400);
    assert_eq!(default_hotkey(), "Ctrl+Shift+V");
    let config = Config::default();
    assert_eq!(config.max_entry_size, 1048576);
    assert_eq!(config.ui.height, 400);
    assert_eq!(UiConfig::default().width, 600);
    assert_eq!(HotkeyConfig::default().popup, "Ctrl+Shift+V");
}

#[test]
fn hotkey_is_trimmed_and_case_insensitive() {
    let (ctrl, shift, alt, key) = parse_hotkey(" control + ALT + x ").unwrap();
    assert!(ctrl);
    assert!(!shift);
    assert!(alt);
    assert_eq!(key, "X");
}

#[test]
fn empty_hotkey_has_no_key() {
    assert_eq!(parse_hotkey(""), Err(HotkeyError::NoKey));
}

#[test]
fn modifiers_alone_have_no_key() {
    assert_eq!(parse_hotkey("Ctrl+Shift"), Err(HotkeyError::NoKey));
}

#[test]
fn two_keys_are_refused() {
    assert_eq!(parse_hotkey("Ctrl+A+B"), Err(HotkeyError::MultipleKeys));
}

#[test]
fn empty_piece_before_key_is_passed_over() {
    let (ctrl, shift, alt, key) = parse_hotkey("Ctrl++v").unwrap();
    assert!(ctrl && !shift && !alt);
    assert_eq!(key, "V");
}

#[test]
fn tokens_are_read_as_given() {
    let tokens = vec!["shift".to_string(), "f1".to_string()];
    assert_eq!(parse_hotkey_tokens(&tokens), Ok((false, true, false, "f1".to_string())));
    let upper = vec!["CTRL".to_string()];
    assert_eq!(parse_hotkey_tokens(&upper), Ok((false, false, false, "CTRL".to_string())));
    let blank_then_key = vec!["".to_string(), "v".to_string()];
    assert_eq!(parse_hotkey_tokens(&blank_then_key), Ok((false, false, false, "v".to_string())));
    let key_then_blank = vec!["v".to_string(), "".to_string()];
    assert_eq!(parse_hotkey_tokens(&key_then_blank), Err(HotkeyError::MultipleKeys));
    assert_eq!(parse_hotkey_tokens(&Vec::new()), Err(HotkeyError::NoKey));
}
