use evdev::Key;
use smarttype::buffer::WordBuffer;

fn press(buffer: &mut WordBuffer, key: Key, now: u64) -> bool {
    buffer.add_key(key.code(), now)
}

#[test]
fn test_word_buffer() {
    let mut buffer = WordBuffer::new(0);
    buffer.add_char('h', 0);
    buffer.add_char('e', 0);
    buffer.add_char('l', 0);
    buffer.add_char('l', 0);
    buffer.add_char('o', 0);
    assert_eq!(buffer.text(), "hello");
}

#[test]
fn typing_without_pause_accumulates_with_backspace() {
    let mut buffer = WordBuffer::new(1000);
    let keys = [Key::KEY_T, Key::KEY_E, Key::KEY_X, Key::KEY_BACKSPACE, Key::KEY_H];
    let mut now = 1000;
    for key in keys {
        now += 500;
        press(&mut buffer, key, now);
    }
    assert_eq!(buffer.text(), "teh");
    assert_eq!(buffer.len(), 3);
}

#[test]
fn backspace_on_empty_buffer_is_a_no_op() {
    let mut buffer = WordBuffer::new(0);
    assert!(!press(&mut buffer, Key::KEY_BACKSPACE, 10));
    assert_eq!(buffer.len(), 0);
    assert!(buffer.is_empty());
}

#[test]
fn last_word_of_buffer() {
    let mut buffer = WordBuffer::new(0);
    for c in "hello world ".chars() {
        buffer.add_char(c, 0);
    }
    assert_eq!(buffer.get_last_word(), Some("world".to_string()));

    let empty = WordBuffer::new(0);
    assert_eq!(empty.get_last_word(), None);

    let mut blank = WordBuffer::new(0);
    for c in "   ".chars() {
        blank.add_char(c, 0);
    }
    assert_eq!(blank.get_last_word(), None);
}

#[test]
fn pause_clears_before_appending() {
    let mut buffer = WordBuffer::new(0);
    buffer.add_char('a', 0);
    buffer.add_char('b', 100);
    buffer.add_char('c', 3100);
    assert_eq!(buffer.text(), "c");
}

#[test]
fn pause_of_exactly_the_timeout_keeps_content() {
    let mut buffer = WordBuffer::with_timeout(0, 2000);
    buffer.add_char('a', 0);
    buffer.add_char('b', 2000);
    assert_eq!(buffer.text(), "ab");
}

#[test]
fn unmapped_key_changes_nothing() {
    let mut buffer = WordBuffer::new(0);
    press(&mut buffer, Key::KEY_A, 100);
    assert!(!press(&mut buffer, Key::KEY_LEFTSHIFT, 5000));
    assert_eq!(buffer.text(), "a");
    assert_eq!(buffer.last_activity(), 100);
}

#[test]
fn space_and_enter_end_words() {
    let mut buffer = WordBuffer::new(0);
    press(&mut buffer, Key::KEY_O, 1);
    assert!(press(&mut buffer, Key::KEY_SPACE, 2));
    press(&mut buffer, Key::KEY_K, 3);
    assert!(press(&mut buffer, Key::KEY_ENTER, 4));
    assert_eq!(buffer.text(), "o k ");
    assert_eq!(buffer.get_last_word(), Some("k".to_string()));
    buffer.clear();
    assert!(buffer.is_empty());
}

#[test]
fn batch_of_keys_matches_one_by_one() {
    let codes = [Key::KEY_H.code(), Key::KEY_X.code(), Key::KEY_BACKSPACE.code(), Key::KEY_I.code(), Key::KEY_SPACE.code()];
    let times = [10, 20, 30, 40, 50];
    let mut batch = WordBuffer::new(0);
    batch.add_keys(&codes, &times);
    assert_eq!(batch.text(), "hi ");
    let mut paused = WordBuffer::new(0);
    paused.add_keys(&[Key::KEY_A.code(), Key::KEY_B.code()], &[0, 5000]);
    assert_eq!(paused.text(), "b");
}
