//! Translation between physical key codes and characters.
//!
//! The capture side turns a Linux input key code into the character it types
//! (lowercase letters, digits and space only). The injection side turns a
//! character into the key that types it on a US layout, together with whether
//! shift must be held.

use vstd::prelude::*;

verus! {

/// Linux input key codes that the capture side reads.
pub const KEY_1: u16 = 2;
pub const KEY_9: u16 = 10;
pub const KEY_0: u16 = 11;
pub const KEY_BACKSPACE: u16 = 14;
pub const KEY_Q: u16 = 16;
pub const KEY_P: u16 = 25;
pub const KEY_ENTER: u16 = 28;
pub const KEY_A: u16 = 30;
pub const KEY_L: u16 = 38;
pub const KEY_Z: u16 = 44;
pub const KEY_M: u16 = 50;
pub const KEY_SPACE: u16 = 57;

/// The letters of the three letter rows of the keyboard, left to right.
pub open spec fn top_row() -> Seq<char> {
    seq!['q', 'w', 'e', 'r', 't', 'y', 'u', 'i', 'o', 'p']
}

pub open spec fn home_row() -> Seq<char> {
    seq!['a', 's', 'd', 'f', 'g', 'h', 'j', 'k', 'l']
}

pub open spec fn bottom_row() -> Seq<char> {
    seq!['z', 'x', 'c', 'v', 'b', 'n', 'm']
}

/// The digit row, as typed without shift, from the key of code 2 to the key of code 11.
pub open spec fn digit_row() -> Seq<char> {
    seq!['1', '2', '3', '4', '5', '6', '7', '8', '9', '0']
}

/// The character that a key code types on the capture side.
pub open spec fn key_char(code: u16) -> Option<char> {
    if KEY_1 <= code <= KEY_0 {
        Some(digit_row()[code - KEY_1])
    } else if KEY_Q <= code <= KEY_P {
        Some(top_row()[code - KEY_Q])
    } else if KEY_A <= code <= KEY_L {
        Some(home_row()[code - KEY_A])
    } else if KEY_Z <= code <= KEY_M {
        Some(bottom_row()[code - KEY_Z])
    } else if code == KEY_SPACE {
        Some(' ')
    } else {
        None
    }
}

/// Translates a key code into the character it types: a lowercase letter, a
/// digit or a space. Every other key types nothing.
pub fn key_to_char(code: u16) -> (r: Option<char>)
    ensures
        r == key_char(code),
        r matches Some(c) ==> ('a' <= c <= 'z' || '0' <= c <= '9' || c == ' '),
{
    match code {
        2 => Some('1'),
        3 => Some('2'),
        4 => Some('3'),
        5 => Some('4'),
        6 => Some('5'),
        7 => Some('6'),
        8 => Some('7'),
        9 => Some('8'),
        10 => Some('9'),
        11 => Some('0'),
        16 => Some('q'),
        17 => Some('w'),
        18 => Some('e'),
        19 => Some('r'),
        20 => Some('t'),
        21 => Some('y'),
        22 => Some('u'),
        23 => Some('i'),
        24 => Some('o'),
        25 => Some('p'),
        30 => Some('a'),
        31 => Some('s'),
        32 => Some('d'),
        33 => Some('f'),
        34 => Some('g'),
        35 => Some('h'),
        36 => Some('j'),
        37 => Some('k'),
        38 => Some('l'),
        44 => Some('z'),
        45 => Some('x'),
        46 => Some('c'),
        47 => Some('v'),
        48 => Some('b'),
        49 => Some('n'),
        50 => Some('m'),
        57 => Some(' '),
        _ => None,
    }
}

/// A key of the synthetic output keyboard.
///
/// `Letter(i)` is the key of the `i`-th letter of the alphabet (`0` for A) and
/// `Digit(d)` the key of the digit `d` on the main row.
#[derive(Clone, Copy, Debug, PartialEq, Eq, Structural)]
pub enum OutputKey {
    Letter(u8),
    Digit(u8),
    Space,
    Minus,
    Equal,
    LeftBrace,
    RightBrace,
    BackSlash,
    SemiColon,
    Apostrophe,
    Comma,
    Dot,
    Slash,
    Grave,
    LeftShift,
    BackSpace,
}

/// The digit whose key types a symbol when shift is held (US layout).
pub open spec fn shifted_digit(c: char) -> Option<u8> {
    match c {
        '!' => Some(1u8),
        '@' => Some(2u8),
        '#' => Some(3u8),
        '$' => Some(4u8),
        '%' => Some(5u8),
        '^' => Some(6u8),
        '&' => Some(7u8),
        '*' => Some(8u8),
        '(' => Some(9u8),
        ')' => Some(0u8),
        _ => None,
    }
}

/// The punctuation key that types a symbol, and whether shift is held for it (US layout).
pub open spec fn punctuation_key(c: char) -> Option<(OutputKey, bool)> {
    match c {
        ' ' => Some((OutputKey::Space, false)),
        '-' => Some((OutputKey::Minus, false)),
        '_' => Some((OutputKey::Minus, true)),
        '=' => Some((OutputKey::Equal, false)),
        '+' => Some((OutputKey::Equal, true)),
        '[' => Some((OutputKey::LeftBrace, false)),
        '{' => Some((OutputKey::LeftBrace, true)),
        ']' => Some((OutputKey::RightBrace, false)),
        '}' => Some((OutputKey::RightBrace, true)),
        '\\' => Some((OutputKey::BackSlash, false)),
        '|' => Some((OutputKey::BackSlash, true)),
        ';' => Some((OutputKey::SemiColon, false)),
        ':' => Some((OutputKey::SemiColon, true)),
        '\'' => Some((OutputKey::Apostrophe, false)),
        '"' => Some((OutputKey::Apostrophe, true)),
        ',' => Some((OutputKey::Comma, false)),
        '<' => Some((OutputKey::Comma, true)),
        '.' => Some((OutputKey::Dot, false)),
        '>' => Some((OutputKey::Dot, true)),
        '/' => Some((OutputKey::Slash, false)),
        '?' => Some((OutputKey::Slash, true)),
        '`' => Some((OutputKey::Grave, false)),
        '~' => Some((OutputKey::Grave, true)),
        _ => None,
    }
}

/// The key that types `c` on a US layout and whether shift is held for it;
/// `None` for a character that no key types.
pub open spec fn output_of(c: char) -> Option<(OutputKey, bool)> {
    if 'a' <= c <= 'z' {
        Some((OutputKey::Letter((c as u32 - 'a' as u32) as u8), false))
    } else if 'A' <= c <= 'Z' {
        Some((OutputKey::Letter((c as u32 - 'A' as u32) as u8), true))
    } else if '0' <= c <= '9' {
        Some((OutputKey::Digit((c as u32 - '0' as u32) as u8), false))
    } else if shifted_digit(c) is Some {
        Some((OutputKey::Digit(shifted_digit(c)->0), true))
    } else {
        punctuation_key(c)
    }
}

/// Printable 7-bit ASCII: from the space to the tilde.
pub open spec fn is_printable_ascii(c: char) -> bool {
    ' ' <= c <= '~'
}

/// Translates a character into the key that types it and whether shift is
/// held for it. Exactly the printable ASCII characters have a key.
pub fn char_to_key(c: char) -> (r: Option<(OutputKey, bool)>)
    ensures
        r == output_of(c),
        r is Some <==> is_printable_ascii(c),
        r matches Some((_, shift)) ==> ('A' <= c <= 'Z' ==> shift) && ('a' <= c <= 'z' || '0' <= c
            <= '9' ==> !shift),
{
    if 'a' <= c && c <= 'z' {
        Some((OutputKey::Letter((c as u32 - 'a' as u32) as u8), false))
    } else if 'A' <= c && c <= 'Z' {
        Some((OutputKey::Letter((c as u32 - 'A' as u32) as u8), true))
    } else if '0' <= c && c <= '9' {
        Some((OutputKey::Digit((c as u32 - '0' as u32) as u8), false))
    } else {
        match c {
            '!' => Some((OutputKey::Digit(1), true)),
            '@' => Some((OutputKey::Digit(2), true)),
            '#' => Some((OutputKey::Digit(3), true)),
            '$' => Some((OutputKey::Digit(4), true)),
            '%' => Some((OutputKey::Digit(5), true)),
            '^' => Some((OutputKey::Digit(6), true)),
            '&' => Some((OutputKey::Digit(7), true)),
            '*' => Some((OutputKey::Digit(8), true)),
            '(' => Some((OutputKey::Digit(9), true)),
            ')' => Some((OutputKey::Digit(0), true)),
            ' ' => Some((OutputKey::Space, false)),
            '-' => Some((OutputKey::Minus, false)),
            '_' => Some((OutputKey::Minus, true)),
            '=' => Some((OutputKey::Equal, false)),
            '+' => Some((OutputKey::Equal, true)),
            '[' => Some((OutputKey::LeftBrace, false)),
            '{' => Some((OutputKey::LeftBrace, true)),
            ']' => Some((OutputKey::RightBrace, false)),
            '}' => Some((OutputKey::RightBrace, true)),
            '\\' => Some((OutputKey::BackSlash, false)),
            '|' => Some((OutputKey::BackSlash, true)),
            ';' => Some((OutputKey::SemiColon, false)),
            ':' => Some((OutputKey::SemiColon, true)),
            '\'' => Some((OutputKey::Apostrophe, false)),
            '"' => Some((OutputKey::Apostrophe, true)),
            ',' => Some((OutputKey::Comma, false)),
            '<' => Some((OutputKey::Comma, true)),
            '.' => Some((OutputKey::Dot, false)),
            '>' => Some((OutputKey::Dot, true)),
            '/' => Some((OutputKey::Slash, false)),
            '?' => Some((OutputKey::Slash, true)),
            '`' => Some((OutputKey::Grave, false)),
            '~' => Some((OutputKey::Grave, true)),
            _ => None,
        }
    }
}

} // verus!
