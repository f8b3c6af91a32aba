//! The word buffer: one stream of typed characters shared by every input
//! device, cleared when a character arrives after a pause.
//!
//! Time is a count of milliseconds on a monotonic clock that the caller reads.

use vstd::prelude::*;

use crate::keymap::{key_char, key_to_char, KEY_BACKSPACE, KEY_ENTER, KEY_SPACE};
use crate::text::{last_word, last_word_of, string_from_chars};

verus! {

/// The idle timeout of a new buffer, in milliseconds.
pub const DEFAULT_IDLE_TIMEOUT_MS: u64 = 2000;

/// What a word buffer holds.
pub struct BufferState {
    pub text: Seq<char>,
    pub last_activity: u64,
    pub idle_timeout: u64,
}

/// The time from `last` to `now`; a clock read that lies before `last` counts as no time.
pub open spec fn elapsed(last: u64, now: u64) -> int {
    if now >= last {
        now - last
    } else {
        0
    }
}

/// Whether a character arriving at `now` starts a fresh stream.
pub open spec fn is_stale(s: BufferState, now: u64) -> bool {
    elapsed(s.last_activity, now) > s.idle_timeout
}

/// A key that ends a word.
pub open spec fn is_boundary(code: u16) -> bool {
    code == KEY_SPACE || code == KEY_ENTER
}

/// The buffer after a character arrives at `now`.
pub open spec fn char_step(s: BufferState, c: char, now: u64) -> BufferState {
    BufferState {
        text: if is_stale(s, now) {
            seq![c]
        } else {
            s.text.push(c)
        },
        last_activity: now,
        ..s
    }
}

/// The buffer after the key `code` is pressed at `now`.
pub open spec fn key_step(s: BufferState, code: u16, now: u64) -> BufferState {
    if code == KEY_BACKSPACE {
        BufferState {
            text: if s.text.len() > 0 {
                s.text.drop_last()
            } else {
                s.text
            },
            last_activity: now,
            ..s
        }
    } else if is_boundary(code) {
        BufferState { text: s.text.push(' '), last_activity: now, ..s }
    } else {
        match key_char(code) {
            Some(c) => char_step(s, c, now),
            None => s,
        }
    }
}

/// The buffer after the keys `codes` are pressed in order, the `i`-th at `times[i]`.
pub open spec fn run_keys(s: BufferState, codes: Seq<u16>, times: Seq<u64>) -> BufferState
    recommends
        codes.len() == times.len(),
    decreases codes.len(),
{
    if codes.len() == 0 {
        s
    } else {
        key_step(
            run_keys(s, codes.drop_last(), times.drop_last()),
            codes.last(),
            times[codes.len() - 1],
        )
    }
}

/// The text that the keys `codes` leave when no pause intervenes: each
/// character appended, each backspace removing the last one in turn.
pub open spec fn edited_text(t: Seq<char>, codes: Seq<u16>) -> Seq<char>
    decreases codes.len(),
{
    if codes.len() == 0 {
        t
    } else {
        let before = edited_text(t, codes.drop_last());
        let code = codes.last();
        if code == KEY_BACKSPACE {
            if before.len() > 0 {
                before.drop_last()
            } else {
                before
            }
        } else if is_boundary(code) {
            before.push(' ')
        } else {
            match key_char(code) {
                Some(c) => before.push(c),
                None => before,
            }
        }
    }
}

/// A key that types a character or edits the text.
pub open spec fn is_editing_key(code: u16) -> bool {
    code == KEY_BACKSPACE || is_boundary(code) || key_char(code) is Some
}

/// No key of the sequence comes more than the idle timeout after the one
/// before it (the first: after the buffer's last activity).
pub open spec fn no_pause(s: BufferState, times: Seq<u64>) -> bool {
    forall|i: int|
        0 <= i < times.len() ==> elapsed(
            if i == 0 {
                s.last_activity
            } else {
                times[i - 1]
            },
            #[trigger] times[i],
        ) <= s.idle_timeout
}

/// Typing without a pause longer than the idle timeout accumulates: the
/// buffer ends up holding its earlier text with each typed character
/// appended and each backspace applied, in order.
pub proof fn lemma_typing_accumulates(s: BufferState, codes: Seq<u16>, times: Seq<u64>)
    requires
        codes.len() == times.len(),
        forall|i: int| 0 <= i < codes.len() ==> is_editing_key(#[trigger] codes[i]),
        no_pause(s, times),
    ensures
        run_keys(s, codes, times).text == edited_text(s.text, codes),
        run_keys(s, codes, times).idle_timeout == s.idle_timeout,
        codes.len() > 0 ==> run_keys(s, codes, times).last_activity == times[codes.len() - 1],
        codes.len() == 0 ==> run_keys(s, codes, times).last_activity == s.last_activity,
    decreases codes.len(),
{
    if codes.len() > 0 {
        let n = codes.len() - 1;
        let pc = codes.drop_last();
        let pt = times.drop_last();
        assert forall|i: int| 0 <= i < pc.len() implies is_editing_key(#[trigger] pc[i]) by {
            assert(pc[i] == codes[i]);
        }
        assert forall|i: int| 0 <= i < pt.len() implies elapsed(
            if i == 0 {
                s.last_activity
            } else {
                pt[i - 1]
            },
            #[trigger] pt[i],
        ) <= s.idle_timeout by {
            assert(pt[i] == times[i]);
            if i > 0 {
                assert(pt[i - 1] == times[i - 1]);
            }
        }
        lemma_typing_accumulates(s, pc, pt);
        assert(is_editing_key(codes[n]));
        assert(elapsed(
            if n == 0 {
                s.last_activity
            } else {
                times[n - 1]
            },
            times[n],
        ) <= s.idle_timeout);
        if n > 0 {
            assert(pt[n - 1] == times[n - 1]);
        }
    }
}

/// Backspace on an empty buffer leaves it empty.
pub proof fn lemma_backspace_on_empty(s: BufferState, now: u64)
    requires
        s.text.len() == 0,
    ensures
        key_step(s, KEY_BACKSPACE, now).text.len() == 0,
{
}

/// A character key that arrives after the idle timeout has passed replaces
/// the earlier content: the buffer then holds that character alone.
pub proof fn lemma_pause_starts_fresh(s: BufferState, code: u16, now: u64)
    requires
        key_char(code) is Some,
        !is_boundary(code),
        elapsed(s.last_activity, now) > s.idle_timeout,
    ensures
        key_step(s, code, now).text == seq![key_char(code)->0],
{
}

/// The characters typed since the last reset, modulo backspace.
pub struct WordBuffer {
    text: Vec<char>,
    last_activity: u64,
    idle_timeout: u64,
}

impl View for WordBuffer {
    type V = BufferState;

    closed spec fn view(&self) -> BufferState {
        BufferState {
            text: self.text@,
            last_activity: self.last_activity,
            idle_timeout: self.idle_timeout,
        }
    }
}

impl WordBuffer {
    /// An empty buffer with the default idle timeout, created at `now`.
    pub fn new(now: u64) -> (b: Self)
        ensures
            b@.text.len() == 0,
            b@.last_activity == now,
            b@.idle_timeout == DEFAULT_IDLE_TIMEOUT_MS,
    {
        WordBuffer { text: Vec::new(), last_activity: now, idle_timeout: DEFAULT_IDLE_TIMEOUT_MS }
    }

    /// An empty buffer with the idle timeout `idle_timeout_ms`, created at `now`.
    pub fn with_timeout(now: u64, idle_timeout_ms: u64) -> (b: Self)
        ensures
            b@.text.len() == 0,
            b@.last_activity == now,
            b@.idle_timeout == idle_timeout_ms,
    {
        WordBuffer { text: Vec::new(), last_activity: now, idle_timeout: idle_timeout_ms }
    }

    fn is_stale_at(&self, now: u64) -> (r: bool)
        ensures
            r == is_stale(self@, now),
    {
        now >= self.last_activity && now - self.last_activity > self.idle_timeout
    }

    /// Appends a typed character at `now`; where more than the idle timeout
    /// has passed since the last activity, the buffer is cleared first.
    pub fn add_char(&mut self, c: char, now: u64)
        ensures
            final(self)@ == char_step(old(self)@, c, now),
    {
        if self.is_stale_at(now) {
            self.text.clear();
        }
        self.text.push(c);
        self.last_activity = now;
        proof {
            if is_stale(old(self)@, now) {
                assert(self.text@ =~= seq![c]);
            }
        }
    }

    /// Applies a key press at `now`: backspace removes the last character
    /// (nothing where the buffer is empty), space and enter append a space, a
    /// key that types a character appends it, and any other key is ignored.
    /// Returns whether the key ends a word.
    pub fn add_key(&mut self, code: u16, now: u64) -> (boundary: bool)
        ensures
            final(self)@ == key_step(old(self)@, code, now),
            boundary == is_boundary(code),
    {
        if code == KEY_BACKSPACE {
            self.text.pop();
            self.last_activity = now;
            false
        } else if code == KEY_SPACE || code == KEY_ENTER {
            self.text.push(' ');
            self.last_activity = now;
            true
        } else {
            match key_to_char(code) {
                Some(c) => self.add_char(c, now),
                None => {},
            }
            false
        }
    }

    /// Applies a batch of key presses in order, the `i`-th at `times[i]`.
    pub fn add_keys(&mut self, codes: &[u16], times: &[u64])
        requires
            codes@.len() == times@.len(),
        ensures
            final(self)@ == run_keys(old(self)@, codes@, times@),
    {
        let mut i: usize = 0;
        while i < codes.len()
            invariant
                codes@.len() == times@.len(),
                i <= codes@.len(),
                self@ == run_keys(old(self)@, codes@.subrange(0, i as int), times@.subrange(0, i as int)),
            decreases codes@.len() - i,
        {
            self.add_key(codes[i], times[i]);
            proof {
                let c = codes@.subrange(0, i + 1);
                let t = times@.subrange(0, i + 1);
                assert(c.drop_last() =~= codes@.subrange(0, i as int));
                assert(t.drop_last() =~= times@.subrange(0, i as int));
            }
            i = i + 1;
        }
        assert(codes@.subrange(0, codes@.len() as int) =~= codes@);
        assert(times@.subrange(0, times@.len() as int) =~= times@);
    }

    /// The last whitespace-separated word of the buffer, if any.
    pub fn get_last_word(&self) -> (r: Option<String>)
        ensures
            r matches Some(w) ==> last_word(self@.text) == Some(w@),
            r is None ==> last_word(self@.text) is None,
    {
        match last_word_of(&self.text) {
            Some(w) => Some(string_from_chars(&w)),
            None => None,
        }
    }

    /// Empties the buffer.
    pub fn clear(&mut self)
        ensures
            final(self)@ == (BufferState { text: Seq::empty(), ..old(self)@ }),
    {
        self.text.clear();
    }

    /// The number of characters in the buffer.
    pub fn len(&self) -> (n: usize)
        ensures
            n == self@.text.len(),
    {
        self.text.len()
    }

    /// Whether the buffer holds no character.
    pub fn is_empty(&self) -> (r: bool)
        ensures
            r == (self@.text.len() == 0),
    {
        self.text.len() == 0
    }

    /// The buffer's content.
    pub fn text(&self) -> (s: String)
        ensures
            s@ == self@.text,
    {
        string_from_chars(&self.text)
    }

    /// When the last character or editing key arrived.
    pub fn last_activity(&self) -> (t: u64)
        ensures
            t == self@.last_activity,
    {
        self.last_activity
    }
}

} // verus!
