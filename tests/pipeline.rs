use evdev::Key;
use smarttype::buffer::WordBuffer;
use smarttype::injector::{replacement_actions, DeviceState, KeyAction, ReplaceOutcome, TextInjector};
use smarttype::keymap::OutputKey;
use smarttype::listener::{dispatch, handle_key_event, on_read_error, ReadErrorAction, ENODEV, KEY_PRESS};
use std::sync::{Arc, Mutex};

fn oracle(word: &str) -> Option<String> {
    if word == "teh" {
        Some("the".to_string())
    } else {
        None
    }
}

fn tap(k: OutputKey) -> [KeyAction; 2] {
    [KeyAction::Press(k), KeyAction::Release(k)]
}

#[test]
fn boundary_after_teh_replaces_with_the() {
    let mut buffer = WordBuffer::new(0);
    let mut injector = TextInjector::new();
    let mut calls = 0;
    let keys = [Key::KEY_T, Key::KEY_E, Key::KEY_H, Key::KEY_SPACE];
    let mut now = 0;
    for key in keys {
        now += 100;
        if let Some(word) = handle_key_event(&mut buffer, key.code(), KEY_PRESS, now, true) {
            let correction = oracle(&word);
            if let Some(pair) = dispatch(word, correction) {
                calls += 1;
                assert_eq!(pair.typed, "teh");
                assert_eq!(pair.corrected, "the");
                assert_eq!(injector.replace(&pair.typed, &pair.corrected), ReplaceOutcome::NeedsDevice);
                injector.device_created(true);
                assert_eq!(injector.replace(&pair.typed, &pair.corrected), ReplaceOutcome::Queued);
            }
        }
    }
    assert_eq!(calls, 1);
    let out = injector.take_output();
    let mut expected = Vec::new();
    for _ in 0..3 {
        expected.extend(tap(OutputKey::BackSpace));
    }
    expected.extend(tap(OutputKey::Letter(19)));
    expected.extend(tap(OutputKey::Letter(7)));
    expected.extend(tap(OutputKey::Letter(4)));
    assert_eq!(out, expected);
    let backspaces = out.iter().filter(|a| **a == KeyAction::Press(OutputKey::BackSpace)).count();
    assert_eq!(backspaces, 3);
    assert_eq!(buffer.text(), "teh ");
}

#[test]
fn release_and_repeat_are_ignored() {
    let mut buffer = WordBuffer::new(0);
    assert_eq!(handle_key_event(&mut buffer, Key::KEY_A.code(), 0, 1, true), None);
    assert_eq!(handle_key_event(&mut buffer, Key::KEY_A.code(), 2, 1, true), None);
    assert!(buffer.is_empty());
}

#[test]
fn disabled_pipeline_still_buffers() {
    let mut buffer = WordBuffer::new(0);
    handle_key_event(&mut buffer, Key::KEY_A.code(), KEY_PRESS, 1, false);
    assert_eq!(handle_key_event(&mut buffer, Key::KEY_SPACE.code(), KEY_PRESS, 2, false), None);
    assert_eq!(buffer.text(), "a ");
}

#[test]
fn no_correction_no_pair() {
    assert!(dispatch("fine".to_string(), None).is_none());
}

#[test]
fn shifted_characters_are_wrapped_in_shift() {
    let out = replacement_actions("x", "A!");
    let expected = vec![
        KeyAction::Press(OutputKey::BackSpace),
        KeyAction::Release(OutputKey::BackSpace),
        KeyAction::Press(OutputKey::LeftShift),
        KeyAction::Press(OutputKey::Letter(0)),
        KeyAction::Release(OutputKey::Letter(0)),
        KeyAction::Release(OutputKey::LeftShift),
        KeyAction::Press(OutputKey::LeftShift),
        KeyAction::Press(OutputKey::Digit(1)),
        KeyAction::Release(OutputKey::Digit(1)),
        KeyAction::Release(OutputKey::LeftShift),
    ];
    assert_eq!(out, expected);
}

#[test]
fn unsupported_characters_are_skipped() {
    let out = replacement_actions("", "é");
    assert!(out.is_empty());
}

#[test]
fn failed_creation_disables_for_good() {
    let mut injector = TextInjector::new();
    assert_eq!(injector.replace("teh", "the"), ReplaceOutcome::NeedsDevice);
    injector.device_created(false);
    assert_eq!(injector.device_state(), DeviceState::Disabled);
    assert_eq!(injector.replace("teh", "the"), ReplaceOutcome::Dropped);
    injector.device_created(true);
    assert_eq!(injector.device_state(), DeviceState::Disabled);
    assert_eq!(injector.replace("teh", "the"), ReplaceOutcome::Dropped);
    assert!(injector.take_output().is_empty());
}

#[test]
fn concurrent_replacements_do_not_interleave() {
    let injector = Arc::new(Mutex::new(TextInjector::new()));
    injector.lock().unwrap().device_created(true);
    let first_listener = Arc::clone(&injector);
    let second_listener = Arc::clone(&injector);
    {
        let mut a = first_listener.lock().unwrap();
        assert_eq!(a.replace("teh", "the"), ReplaceOutcome::Queued);
        assert!(second_listener.try_lock().is_err());
    }
    assert_eq!(second_listener.lock().unwrap().replace("adn", "and"), ReplaceOutcome::Queued);
    let out = injector.lock().unwrap().take_output();
    let mut expected = replacement_actions("teh", "the");
    expected.extend(replacement_actions("adn", "and"));
    assert_eq!(out, expected);
}

#[test]
fn read_errors_stop_only_when_the_device_is_gone() {
    assert_eq!(on_read_error(Some(ENODEV)), ReadErrorAction::Stop);
    assert_eq!(on_read_error(Some(11)), ReadErrorAction::RetryAfter(100));
    assert_eq!(on_read_error(None), ReadErrorAction::RetryAfter(100));
}
