//! Text replacement through a synthetic keyboard.
//!
//! A mistyped word has already reached the focused application when the
//! correction is known, so it is replaced by erasing it with backspace and
//! typing the correction. The injector decides what is sent; the caller owns
//! the output device, creates it when asked, and sends what the injector
//! queued. Holding the injector by `&mut` is what serialises replacements.

use vstd::prelude::*;
use vstd::string::StrSliceExecFns;

use crate::keymap::{char_to_key, output_of, OutputKey};

verus! {

/// One discrete action on the synthetic keyboard.
#[derive(Clone, Copy, Debug, PartialEq, Eq, Structural)]
pub enum KeyAction {
    Press(OutputKey),
    Release(OutputKey),
}

/// `n` backspace press and release pairs.
pub open spec fn erase_actions(n: nat) -> Seq<KeyAction>
    decreases n,
{
    if n == 0 {
        Seq::empty()
    } else {
        erase_actions((n - 1) as nat) + seq![
            KeyAction::Press(OutputKey::BackSpace),
            KeyAction::Release(OutputKey::BackSpace),
        ]
    }
}

/// The actions that type `c`: the key pressed and released, inside a press
/// and release of shift where `c` needs it; nothing for a character that no
/// key types.
pub open spec fn char_actions(c: char) -> Seq<KeyAction> {
    match output_of(c) {
        None => Seq::empty(),
        Some((k, shift)) => if shift {
            seq![
                KeyAction::Press(OutputKey::LeftShift),
                KeyAction::Press(k),
                KeyAction::Release(k),
                KeyAction::Release(OutputKey::LeftShift),
            ]
        } else {
            seq![KeyAction::Press(k), KeyAction::Release(k)]
        },
    }
}

/// The actions that type `s`, character by character.
pub open spec fn type_actions(s: Seq<char>) -> Seq<KeyAction>
    decreases s.len(),
{
    if s.len() == 0 {
        Seq::empty()
    } else {
        type_actions(s.drop_last()) + char_actions(s.last())
    }
}

/// The actions that turn `typed`, just typed, into `fixed`: one backspace per
/// character of `typed`, then `fixed` typed.
pub open spec fn replace_actions(typed: Seq<char>, fixed: Seq<char>) -> Seq<KeyAction> {
    erase_actions(typed.len()) + type_actions(fixed)
}

/// How many times `actions` presses `k`.
pub open spec fn presses_of(actions: Seq<KeyAction>, k: OutputKey) -> nat
    decreases actions.len(),
{
    if actions.len() == 0 {
        0
    } else {
        presses_of(actions.drop_last(), k) + if actions.last() == KeyAction::Press(k) {
            1nat
        } else {
            0nat
        }
    }
}

proof fn lemma_presses_of_concat(a: Seq<KeyAction>, b: Seq<KeyAction>, k: OutputKey)
    ensures
        presses_of(a + b, k) == presses_of(a, k) + presses_of(b, k),
    decreases b.len(),
{
    if b.len() > 0 {
        lemma_presses_of_concat(a, b.drop_last(), k);
        assert((a + b).drop_last() =~= a + b.drop_last());
    }
}

proof fn lemma_typing_never_erases(s: Seq<char>)
    ensures
        presses_of(type_actions(s), OutputKey::BackSpace) == 0,
    decreases s.len(),
{
    if s.len() > 0 {
        lemma_typing_never_erases(s.drop_last());
        let c = char_actions(s.last());
        lemma_presses_of_concat(type_actions(s.drop_last()), c, OutputKey::BackSpace);
        reveal_with_fuel(presses_of, 5);
    }
}

proof fn lemma_erase_count(n: nat)
    ensures
        presses_of(erase_actions(n), OutputKey::BackSpace) == n,
    decreases n,
{
    if n > 0 {
        lemma_erase_count((n - 1) as nat);
        let pair = seq![
            KeyAction::Press(OutputKey::BackSpace),
            KeyAction::Release(OutputKey::BackSpace),
        ];
        lemma_presses_of_concat(erase_actions((n - 1) as nat), pair, OutputKey::BackSpace);
        reveal_with_fuel(presses_of, 3);
    }
}

/// A replacement presses backspace exactly once per character of the typed
/// word, all before anything is typed; so what followed the word, such as
/// the space that ended it, is never erased.
pub proof fn lemma_replacement_erases_only_the_word(typed: Seq<char>, fixed: Seq<char>)
    ensures
        presses_of(replace_actions(typed, fixed), OutputKey::BackSpace) == typed.len(),
        presses_of(type_actions(fixed), OutputKey::BackSpace) == 0,
        replace_actions(typed, fixed).subrange(0, 2 * typed.len() as int) == erase_actions(
            typed.len(),
        ),
{
    lemma_erase_count(typed.len());
    lemma_typing_never_erases(fixed);
    lemma_presses_of_concat(erase_actions(typed.len()), type_actions(fixed), OutputKey::BackSpace);
    lemma_erase_len(typed.len());
    assert(replace_actions(typed, fixed).subrange(0, 2 * typed.len() as int) =~= erase_actions(
        typed.len(),
    ));
}

proof fn lemma_erase_len(n: nat)
    ensures
        erase_actions(n).len() == 2 * n,
    decreases n,
{
    if n > 0 {
        lemma_erase_len((n - 1) as nat);
    }
}

fn push_char_actions(out: &mut Vec<KeyAction>, c: char)
    ensures
        final(out)@ == old(out)@ + char_actions(c),
{
    match char_to_key(c) {
        None => {},
        Some((k, shift)) => {
            if shift {
                out.push(KeyAction::Press(OutputKey::LeftShift));
            }
            out.push(KeyAction::Press(k));
            out.push(KeyAction::Release(k));
            if shift {
                out.push(KeyAction::Release(OutputKey::LeftShift));
            }
        },
    }
    proof {
        if let Some((k, shift)) = output_of(c) {
            assert(final(out)@ =~= old(out)@ + char_actions(c));
        } else {
            assert(final(out)@ =~= old(out)@ + char_actions(c));
        }
    }
}

/// Appends to `out` the actions that replace `typed` by `fixed`.
fn push_replace_actions(out: &mut Vec<KeyAction>, typed: &str, fixed: &str)
    ensures
        final(out)@ == old(out)@ + replace_actions(typed@, fixed@),
{
    let ghost start = out@;
    let n = typed.unicode_len();
    let mut i: usize = 0;
    while i < n
        invariant
            n == typed@.len(),
            i <= n,
            out@ == start + erase_actions(i as nat),
        decreases n - i,
    {
        out.push(KeyAction::Press(OutputKey::BackSpace));
        out.push(KeyAction::Release(OutputKey::BackSpace));
        i = i + 1;
        assert(out@ =~= start + erase_actions(i as nat));
    }
    let ghost erased = out@;
    let m = fixed.unicode_len();
    let mut j: usize = 0;
    while j < m
        invariant
            m == fixed@.len(),
            j <= m,
            out@ == erased + type_actions(fixed@.subrange(0, j as int)),
            erased == start + erase_actions(typed@.len()),
        decreases m - j,
    {
        let c = fixed.get_char(j);
        push_char_actions(out, c);
        proof {
            let t = fixed@.subrange(0, j + 1);
            assert(t.drop_last() =~= fixed@.subrange(0, j as int));
            assert(t.last() == c);
        }
        j = j + 1;
        assert(out@ =~= erased + type_actions(fixed@.subrange(0, j as int)));
    }
    assert(fixed@.subrange(0, m as int) =~= fixed@);
    assert(out@ =~= old(out)@ + replace_actions(typed@, fixed@));
}

/// The key actions that replace the just-typed `typed` by `fixed`.
pub fn replacement_actions(typed: &str, fixed: &str) -> (r: Vec<KeyAction>)
    ensures
        r@ == replace_actions(typed@, fixed@),
{
    let mut out: Vec<KeyAction> = Vec::new();
    push_replace_actions(&mut out, typed, fixed);
    assert(out@ =~= replace_actions(typed@, fixed@));
    out
}

/// The synthetic output device, as far as the injector knows it.
#[derive(Clone, Copy, Debug, PartialEq, Eq, Structural)]
pub enum DeviceState {
    /// Not created yet: the next replacement asks for it.
    Uninitialized,
    /// Created, and used for every later replacement.
    Ready,
    /// Creation failed once; replacement is off for good.
    Disabled,
}

/// What became of a replacement request.
#[derive(Clone, Copy, Debug, PartialEq, Eq, Structural)]
pub enum ReplaceOutcome {
    /// The device must be created first; nothing was queued.
    NeedsDevice,
    /// The actions were queued for sending.
    Queued,
    /// Replacement is disabled; nothing was queued.
    Dropped,
}

/// What an injector holds: the device state and the actions queued for sending.
pub struct InjectorState {
    pub device: DeviceState,
    pub outbox: Seq<KeyAction>,
}

/// The state after a request to replace `typed` by `fixed`, and its outcome.
pub open spec fn replace_step(s: InjectorState, typed: Seq<char>, fixed: Seq<char>) -> (
    InjectorState,
    ReplaceOutcome,
) {
    match s.device {
        DeviceState::Uninitialized => (s, ReplaceOutcome::NeedsDevice),
        DeviceState::Ready => (
            InjectorState { outbox: s.outbox + replace_actions(typed, fixed), ..s },
            ReplaceOutcome::Queued,
        ),
        DeviceState::Disabled => (s, ReplaceOutcome::Dropped),
    }
}

/// The state once an attempt to create the device has succeeded (`created`) or failed.
/// Only a device that was never tried changes state.
pub open spec fn creation_step(s: InjectorState, created: bool) -> InjectorState {
    if s.device == DeviceState::Uninitialized {
        InjectorState {
            device: if created {
                DeviceState::Ready
            } else {
                DeviceState::Disabled
            },
            ..s
        }
    } else {
        s
    }
}

/// The state after the replacement requests `ops`, in order.
pub open spec fn run_replacements(s: InjectorState, ops: Seq<(Seq<char>, Seq<char>)>) -> InjectorState
    decreases ops.len(),
{
    if ops.len() == 0 {
        s
    } else {
        replace_step(run_replacements(s, ops.drop_last()), ops.last().0, ops.last().1).0
    }
}

/// The actions of each request of `ops`, one request after the other.
pub open spec fn all_replace_actions(ops: Seq<(Seq<char>, Seq<char>)>) -> Seq<KeyAction>
    decreases ops.len(),
{
    if ops.len() == 0 {
        Seq::empty()
    } else {
        all_replace_actions(ops.drop_last()) + replace_actions(ops.last().0, ops.last().1)
    }
}

/// Once creating the device has failed, no later request asks for it again
/// or queues any key, and no later creation result revives it.
pub proof fn lemma_failed_creation_is_final(
    s: InjectorState,
    ops: Seq<(Seq<char>, Seq<char>)>,
    typed: Seq<char>,
    fixed: Seq<char>,
    created: bool,
)
    requires
        s.device == DeviceState::Uninitialized,
    ensures
        creation_step(s, false).device == DeviceState::Disabled,
        replace_step(creation_step(s, false), typed, fixed) == (
            creation_step(s, false),
            ReplaceOutcome::Dropped,
        ),
        creation_step(creation_step(s, false), created) == creation_step(s, false),
        run_replacements(creation_step(s, false), ops) == creation_step(s, false),
    decreases ops.len(),
{
    if ops.len() > 0 {
        lemma_failed_creation_is_final(s, ops.drop_last(), typed, fixed, created);
    }
}

/// Replacements through one injector never interleave: with the device
/// ready, the queued output is the earlier output followed by each request's
/// whole action sequence, request after request.
pub proof fn lemma_replacements_contiguous(s: InjectorState, ops: Seq<(Seq<char>, Seq<char>)>)
    requires
        s.device == DeviceState::Ready,
    ensures
        run_replacements(s, ops).device == DeviceState::Ready,
        run_replacements(s, ops).outbox == s.outbox + all_replace_actions(ops),
    decreases ops.len(),
{
    if ops.len() > 0 {
        lemma_replacements_contiguous(s, ops.drop_last());
        assert(s.outbox + all_replace_actions(ops.drop_last()) + replace_actions(
            ops.last().0,
            ops.last().1,
        ) =~= s.outbox + all_replace_actions(ops));
    }
}

/// Decides and queues text replacements for one synthetic keyboard.
pub struct TextInjector {
    device: DeviceState,
    outbox: Vec<KeyAction>,
}

impl View for TextInjector {
    type V = InjectorState;

    closed spec fn view(&self) -> InjectorState {
        InjectorState { device: self.device, outbox: self.outbox@ }
    }
}

impl TextInjector {
    /// An injector whose device has not been created, with nothing queued.
    pub fn new() -> (r: Self)
        ensures
            r@.device == DeviceState::Uninitialized,
            r@.outbox.len() == 0,
    {
        TextInjector { device: DeviceState::Uninitialized, outbox: Vec::new() }
    }

    /// The state of the output device.
    pub fn device_state(&self) -> (d: DeviceState)
        ensures
            d == self@.device,
    {
        self.device
    }

    /// Requests that the just-typed `typed` be replaced by `fixed`. With the
    /// device ready, queues the whole replacement; otherwise queues nothing
    /// and says whether the device must be created first.
    pub fn replace(&mut self, typed: &str, fixed: &str) -> (r: ReplaceOutcome)
        ensures
            (final(self)@, r) == replace_step(old(self)@, typed@, fixed@),
    {
        match self.device {
            DeviceState::Uninitialized => ReplaceOutcome::NeedsDevice,
            DeviceState::Ready => {
                push_replace_actions(&mut self.outbox, typed, fixed);
                ReplaceOutcome::Queued
            },
            DeviceState::Disabled => ReplaceOutcome::Dropped,
        }
    }

    /// Records whether creating the device succeeded. A failure disables
    /// replacement for the injector's lifetime; a device already tried keeps
    /// its state.
    pub fn device_created(&mut self, created: bool)
        ensures
            final(self)@ == creation_step(old(self)@, created),
    {
        if self.device == DeviceState::Uninitialized {
            self.device = if created {
                DeviceState::Ready
            } else {
                DeviceState::Disabled
            };
        }
    }

    /// Hands out the queued actions, oldest first, and empties the queue.
    pub fn take_output(&mut self) -> (r: Vec<KeyAction>)
        ensures
            r@ == old(self)@.outbox,
            final(self)@.outbox.len() == 0,
            final(self)@.device == old(self)@.device,
    {
        let mut out: Vec<KeyAction> = Vec::new();
        std::mem::swap(&mut out, &mut self.outbox);
        out
    }
}

} // verus!
