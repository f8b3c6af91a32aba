use evdev::Key;
use smarttype::keymap::{char_to_key, key_to_char, OutputKey, KEY_A, KEY_SPACE};

#[test]
fn test_key_to_char() {
    assert_eq!(key_to_char(Key::KEY_A.code()), Some('a'));
    assert_eq!(key_to_char(Key::KEY_SPACE.code()), Some(' '));
    assert_eq!(key_to_char(Key::KEY_ESC.code()), None);
}

#[test]
fn key_codes_follow_the_linux_layout() {
    assert_eq!(KEY_A, Key::KEY_A.code());
    assert_eq!(KEY_SPACE, Key::KEY_SPACE.code());
    assert_eq!(key_to_char(Key::KEY_Q.code()), Some('q'));
    assert_eq!(key_to_char(Key::KEY_M.code()), Some('m'));
    assert_eq!(key_to_char(Key::KEY_L.code()), Some('l'));
    assert_eq!(key_to_char(Key::KEY_1.code()), Some('1'));
    assert_eq!(key_to_char(Key::KEY_0.code()), Some('0'));
    assert_eq!(key_to_char(Key::KEY_ENTER.code()), None);
    assert_eq!(key_to_char(Key::KEY_BACKSPACE.code()), None);
    assert_eq!(key_to_char(Key::KEY_DOT.code()), None);
}

#[test]
fn test_char_to_key_lowercase() {
    let (_key, shift) = char_to_key('a').unwrap();
    assert_eq!(shift, false);

    let (_key, shift) = char_to_key('z').unwrap();
    assert_eq!(shift, false);
}

#[test]
fn test_char_to_key_uppercase() {
    let (_key, shift) = char_to_key('A').unwrap();
    assert_eq!(shift, true);

    let (_key, shift) = char_to_key('Z').unwrap();
    assert_eq!(shift, true);
}

#[test]
fn test_char_to_key_numbers() {
    let (_key, shift) = char_to_key('0').unwrap();
    assert_eq!(shift, false);

    let (_key, shift) = char_to_key('5').unwrap();
    assert_eq!(shift, false);
}

#[test]
fn test_char_to_key_special_chars() {
    let (_key, shift) = char_to_key(' ').unwrap();
    assert_eq!(shift, false);

    let (_key, shift) = char_to_key('!').unwrap();
    assert_eq!(shift, true);

    let (_key, shift) = char_to_key('.').unwrap();
    assert_eq!(shift, false);

    let (_key, shift) = char_to_key('?').unwrap();
    assert_eq!(shift, true);
}

#[test]
fn test_char_to_key_unsupported() {
    assert!(char_to_key('é').is_none());
    assert!(char_to_key('中').is_none());
    assert!(char_to_key('🎉').is_none());
}

#[test]
fn shift_follows_case_and_symbols() {
    assert_eq!(char_to_key('A'), Some((OutputKey::Letter(0), true)));
    assert_eq!(char_to_key('a'), Some((OutputKey::Letter(0), false)));
    assert_eq!(char_to_key('q'), Some((OutputKey::Letter(16), false)));
    assert_eq!(char_to_key('7'), Some((OutputKey::Digit(7), false)));
    assert_eq!(char_to_key('&'), Some((OutputKey::Digit(7), true)));
    assert_eq!(char_to_key(')'), Some((OutputKey::Digit(0), true)));
    assert_eq!(char_to_key('"'), Some((OutputKey::Apostrophe, true)));
    assert_eq!(char_to_key('~'), Some((OutputKey::Grave, true)));
    assert_eq!(char_to_key('\n'), None);
    assert_eq!(char_to_key('\u{7f}'), None);
}
