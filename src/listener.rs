//! What one device listener decides for each raw key event, and how a
//! finished word becomes a correction.

use vstd::prelude::*;

use crate::buffer::{is_boundary, key_step, WordBuffer};
use crate::text::last_word;

verus! {

/// The event value of a key press; release is 0 and autorepeat 2.
pub const KEY_PRESS: i32 = 1;

/// The error number with which a read reports that the device is gone.
pub const ENODEV: i32 = 19;

/// How long a listener waits after a failed read before reading again.
pub const READ_RETRY_DELAY_MS: u64 = 100;

/// What a listener does after a failed read.
#[derive(Clone, Copy, Debug, PartialEq, Eq, Structural)]
pub enum ReadErrorAction {
    /// The device is gone: the listener ends, the others go on.
    Stop,
    /// A passing failure: wait this many milliseconds, then read the same device again.
    RetryAfter(u64),
}

/// Decides what follows a failed read, from the operating system's error
/// number when it gave one.
pub fn on_read_error(os_error: Option<i32>) -> (a: ReadErrorAction)
    ensures
        a == (if os_error == Some(ENODEV) {
            ReadErrorAction::Stop
        } else {
            ReadErrorAction::RetryAfter(READ_RETRY_DELAY_MS)
        }),
{
    match os_error {
        Some(code) => if code == ENODEV {
            ReadErrorAction::Stop
        } else {
            ReadErrorAction::RetryAfter(READ_RETRY_DELAY_MS)
        },
        None => ReadErrorAction::RetryAfter(READ_RETRY_DELAY_MS),
    }
}

/// A word to be replaced, and what replaces it.
#[derive(Debug)]
pub struct CorrectionPair {
    pub typed: String,
    pub corrected: String,
}

/// Handles one raw key event that arrived at `now`. Only a press is acted
/// upon; it is applied to the buffer. Where it ends a word and correction is
/// enabled, returns the word that just ended, to be looked up.
pub fn handle_key_event(
    buffer: &mut WordBuffer,
    code: u16,
    value: i32,
    now: u64,
    enabled: bool,
) -> (word: Option<String>)
    ensures
        value != KEY_PRESS ==> final(buffer)@ == old(buffer)@,
        value == KEY_PRESS ==> final(buffer)@ == key_step(old(buffer)@, code, now),
        word matches Some(w) ==> last_word(final(buffer)@.text) == Some(w@),
        word is Some <==> (value == KEY_PRESS && enabled && is_boundary(code) && last_word(
            final(buffer)@.text,
        ) is Some),
{
    if value != KEY_PRESS {
        return None;
    }
    let boundary = buffer.add_key(code, now);
    if boundary && enabled {
        buffer.get_last_word()
    } else {
        None
    }
}

/// Turns the correction looked up for `word` into the pair handed to the
/// injector; no correction, no pair.
pub fn dispatch(word: String, correction: Option<String>) -> (r: Option<CorrectionPair>)
    ensures
        r is Some <==> correction is Some,
        r matches Some(p) ==> p.typed@ == word@ && p.corrected@ == correction->0@,
{
    match correction {
        Some(c) => Some(CorrectionPair { typed: word, corrected: c }),
        None => None,
    }
}

} // verus!
