//! The keyboard hook's decisions: what each low-level key event means for the
//! keystroke buffer, and the hold-and-replay of keys pressed while a
//! correction is being typed.

use vstd::prelude::*;

use crate::buffer::{Break, Buffer};
use crate::guards::{Context, Reason};
use crate::key::{Key, Stroke};
use crate::layout::LayoutId;
use crate::platform_windows::injector::{
    injection_of, lemma_press_and_release_tagged, utf16_of, Keystroke, ALTSHIFT_MAGIC_INFO,
};

verus! {

/// Virtual-key code of the space bar.
pub const VK_SPACE: u16 = 0x20;

/// Virtual-key code of Enter.
pub const VK_RETURN: u16 = 0x0D;

/// Virtual-key code of Tab.
pub const VK_TAB: u16 = 0x09;

/// Virtual-key code of Backspace.
pub const VK_BACK: u16 = 0x08;

/// The physical key a virtual-key code of the alphanumeric block stands for.
pub open spec fn key_of_vk(vk: u16) -> Option<Key> {
    match vk {
        0xC0 => Some(Key::Backquote),
        0x31 => Some(Key::Digit1),
        0x32 => Some(Key::Digit2),
        0x33 => Some(Key::Digit3),
        0x34 => Some(Key::Digit4),
        0x35 => Some(Key::Digit5),
        0x36 => Some(Key::Digit6),
        0x37 => Some(Key::Digit7),
        0x38 => Some(Key::Digit8),
        0x39 => Some(Key::Digit9),
        0x30 => Some(Key::Digit0),
        0xBD => Some(Key::Minus),
        0xBB => Some(Key::Equal),
        0x51 => Some(Key::KeyQ),
        0x57 => Some(Key::KeyW),
        0x45 => Some(Key::KeyE),
        0x52 => Some(Key::KeyR),
        0x54 => Some(Key::KeyT),
        0x59 => Some(Key::KeyY),
        0x55 => Some(Key::KeyU),
        0x49 => Some(Key::KeyI),
        0x4F => Some(Key::KeyO),
        0x50 => Some(Key::KeyP),
        0xDB => Some(Key::BracketLeft),
        0xDD => Some(Key::BracketRight),
        0xDC => Some(Key::Backslash),
        0x41 => Some(Key::KeyA),
        0x53 => Some(Key::KeyS),
        0x44 => Some(Key::KeyD),
        0x46 => Some(Key::KeyF),
        0x47 => Some(Key::KeyG),
        0x48 => Some(Key::KeyH),
        0x4A => Some(Key::KeyJ),
        0x4B => Some(Key::KeyK),
        0x4C => Some(Key::KeyL),
        0xBA => Some(Key::Semicolon),
        0xDE => Some(Key::Quote),
        0x5A => Some(Key::KeyZ),
        0x58 => Some(Key::KeyX),
        0x43 => Some(Key::KeyC),
        0x56 => Some(Key::KeyV),
        0x42 => Some(Key::KeyB),
        0x4E => Some(Key::KeyN),
        0x4D => Some(Key::KeyM),
        0xBC => Some(Key::Comma),
        0xBE => Some(Key::Period),
        0xBF => Some(Key::Slash),
        _ => None,
    }
}

/// The physical key behind a virtual-key code, for the keys that differ
/// between layouts; `None` for every other key.
pub fn vk_to_key(vk: u16) -> (r: Option<Key>)
    ensures
        r == key_of_vk(vk),
{
    match vk {
        0xC0 => Some(Key::Backquote),
        0x31 => Some(Key::Digit1),
        0x32 => Some(Key::Digit2),
        0x33 => Some(Key::Digit3),
        0x34 => Some(Key::Digit4),
        0x35 => Some(Key::Digit5),
        0x36 => Some(Key::Digit6),
        0x37 => Some(Key::Digit7),
        0x38 => Some(Key::Digit8),
        0x39 => Some(Key::Digit9),
        0x30 => Some(Key::Digit0),
        0xBD => Some(Key::Minus),
        0xBB => Some(Key::Equal),
        0x51 => Some(Key::KeyQ),
        0x57 => Some(Key::KeyW),
        0x45 => Some(Key::KeyE),
        0x52 => Some(Key::KeyR),
        0x54 => Some(Key::KeyT),
        0x59 => Some(Key::KeyY),
        0x55 => Some(Key::KeyU),
        0x49 => Some(Key::KeyI),
        0x4F => Some(Key::KeyO),
        0x50 => Some(Key::KeyP),
        0xDB => Some(Key::BracketLeft),
        0xDD => Some(Key::BracketRight),
        0xDC => Some(Key::Backslash),
        0x41 => Some(Key::KeyA),
        0x53 => Some(Key::KeyS),
        0x44 => Some(Key::KeyD),
        0x46 => Some(Key::KeyF),
        0x47 => Some(Key::KeyG),
        0x48 => Some(Key::KeyH),
        0x4A => Some(Key::KeyJ),
        0x4B => Some(Key::KeyK),
        0x4C => Some(Key::KeyL),
        0xBA => Some(Key::Semicolon),
        0xDE => Some(Key::Quote),
        0x5A => Some(Key::KeyZ),
        0x58 => Some(Key::KeyX),
        0x43 => Some(Key::KeyC),
        0x56 => Some(Key::KeyV),
        0x42 => Some(Key::KeyB),
        0x4E => Some(Key::KeyN),
        0x4D => Some(Key::KeyM),
        0xBC => Some(Key::Comma),
        0xBE => Some(Key::Period),
        0xBF => Some(Key::Slash),
        _ => None,
    }
}

/// Keys whose press must leave the buffer alone: Shift, Ctrl, Alt, Caps Lock
/// and the Windows keys, left and right. If pressing Shift to type a capital
/// dropped the buffer, no capitalised word could ever be corrected.
pub open spec fn modifier_vk(vk: u16) -> bool {
    (0x10 <= vk <= 0x12) || vk == 0x14 || (0x5B <= vk <= 0x5C) || (0xA0 <= vk <= 0xA5)
}

pub fn is_modifier(vk: u16) -> (r: bool)
    ensures
        r == modifier_vk(vk),
{
    (0x10 <= vk && vk <= 0x12) || vk == 0x14 || (0x5B <= vk && vk <= 0x5C) || (0xA0 <= vk && vk <= 0xA5)
}

/// What a low-level keyboard event calls for.
#[derive(Copy, Clone, PartialEq, Eq, Debug, Structural)]
pub enum HookAction {
    /// Hand the event on untouched.
    PassThrough,
    /// A correction is being typed: keep the key for later and swallow it.
    HoldAndSwallow,
    /// Space, Enter or Tab: the word is finished and needs a decision.
    WordEnd,
    /// Backspace: forget the last stroke.
    Backspace,
    /// A key that differs between layouts: remember it.
    Type(Key),
    /// Neither a character nor a word boundary (arrows, Home, Delete, F1...):
    /// the caret may have moved, so the buffer no longer matches the text.
    CaretMoved,
}

/// The action for an event: `n_code` from the hook, the event's extra info,
/// whether a correction is being typed, whether this is a key release, and
/// the virtual-key code with the physical key it maps to.
pub open spec fn hook_action(
    n_code: i32,
    extra_info: usize,
    injecting: bool,
    key_up: bool,
    vk: u16,
    key: Option<Key>,
) -> HookAction {
    if n_code < 0 {
        HookAction::PassThrough
    } else if extra_info == ALTSHIFT_MAGIC_INFO {
        // Our own injected keys: never listen to them again.
        HookAction::PassThrough
    } else if injecting {
        HookAction::HoldAndSwallow
    } else if key_up {
        HookAction::PassThrough
    } else if vk == VK_SPACE || vk == VK_RETURN || vk == VK_TAB {
        HookAction::WordEnd
    } else if vk == VK_BACK {
        HookAction::Backspace
    } else if key is Some {
        HookAction::Type(key->Some_0)
    } else if !modifier_vk(vk) {
        HookAction::CaretMoved
    } else {
        HookAction::PassThrough
    }
}

/// Classify a low-level keyboard event.
pub fn classify_key_event(
    n_code: i32,
    extra_info: usize,
    injecting: bool,
    key_up: bool,
    vk: u16,
    key: Option<Key>,
) -> (r: HookAction)
    ensures
        r == hook_action(n_code, extra_info, injecting, key_up, vk, key),
{
    if n_code < 0 {
        return HookAction::PassThrough;
    }
    if extra_info == ALTSHIFT_MAGIC_INFO {
        return HookAction::PassThrough;
    }
    if injecting {
        return HookAction::HoldAndSwallow;
    }
    if key_up {
        return HookAction::PassThrough;
    }
    if vk == VK_SPACE || vk == VK_RETURN || vk == VK_TAB {
        return HookAction::WordEnd;
    }
    if vk == VK_BACK {
        return HookAction::Backspace;
    }
    match key {
        Some(k) => HookAction::Type(k),
        None => if !is_modifier(vk) {
            HookAction::CaretMoved
        } else {
            HookAction::PassThrough
        },
    }
}

/// What the hook makes of the user's own key events (not tagged as this
/// program's). While a correction is being typed every one is held back;
/// otherwise a release passes through, and a press of Space (0x20), Enter
/// (0x0D) or Tab (0x09) ends the word, Backspace (0x08) erases, a key of the
/// alphanumeric block is typed, a modifier passes through, and anything else
/// moves the caret.
pub proof fn law_user_key_events(
    n_code: i32,
    extra_info: usize,
    injecting: bool,
    key_up: bool,
    vk: u16,
    key: Option<Key>,
)
    requires
        n_code >= 0,
        extra_info != ALTSHIFT_MAGIC_INFO,
    ensures
        injecting ==> hook_action(n_code, extra_info, injecting, key_up, vk, key) == HookAction::HoldAndSwallow,
        !injecting && key_up ==> hook_action(n_code, extra_info, injecting, key_up, vk, key) == HookAction::PassThrough,
        !injecting && !key_up && (vk == 0x20 || vk == 0x0D || vk == 0x09) ==> hook_action(
            n_code,
            extra_info,
            injecting,
            key_up,
            vk,
            key,
        ) == HookAction::WordEnd,
        !injecting && !key_up && vk == 0x08 ==> hook_action(n_code, extra_info, injecting, key_up, vk, key)
            == HookAction::Backspace,
        !injecting && !key_up && vk != 0x20 && vk != 0x0D && vk != 0x09 && vk != 0x08 ==> hook_action(
            n_code,
            extra_info,
            injecting,
            key_up,
            vk,
            key,
        ) == match key {
            Some(k) => HookAction::Type(k),
            None => if (0x10 <= vk <= 0x12) || vk == 0x14 || (0x5B <= vk <= 0x5C) || (0xA0 <= vk <= 0xA5) {
                HookAction::PassThrough
            } else {
                HookAction::CaretMoved
            },
        },
{
}

/// Events the hook is not to look at pass through: those the system marks
/// with a negative code, and those tagged as this program's own.
pub proof fn law_untouched_events_pass_through(
    n_code: i32,
    extra_info: usize,
    injecting: bool,
    key_up: bool,
    vk: u16,
    key: Option<Key>,
)
    requires
        n_code < 0 || extra_info == 0x1234_5678,
    ensures
        hook_action(n_code, extra_info, injecting, key_up, vk, key) == HookAction::PassThrough,
{
}

/// Apply an action that only touches the buffer: Backspace forgets the last
/// stroke, a typed key is remembered with the Shift state, a caret move drops
/// the buffer. Every other action leaves the buffer to its own handling.
pub fn apply_to_buffer(buf: &mut Buffer, action: HookAction, shift: bool)
    ensures
        action == HookAction::Backspace ==> final(buf)@ == if old(buf)@.len() > 0 {
            old(buf)@.drop_last()
        } else {
            old(buf)@
        } && final(buf).is_poisoned() == old(buf).is_poisoned(),
        action matches HookAction::Type(k) ==> {
            &&& old(buf).is_poisoned() ==> final(buf)@ == old(buf)@ && final(buf).is_poisoned()
            &&& !old(buf).is_poisoned() && old(buf)@.len() >= crate::buffer::MAX_STROKES ==> final(buf)@
                == Seq::<Stroke>::empty() && final(buf).is_poisoned()
            &&& !old(buf).is_poisoned() && old(buf)@.len() < crate::buffer::MAX_STROKES ==> final(buf)@
                == old(buf)@.push(Stroke { key: k, shift }) && !final(buf).is_poisoned()
        },
        action == HookAction::CaretMoved ==> final(buf)@ == Seq::<Stroke>::empty()
            && !final(buf).is_poisoned(),
        action == HookAction::PassThrough || action == HookAction::HoldAndSwallow || action
            == HookAction::WordEnd ==> final(buf)@ == old(buf)@
            && final(buf).is_poisoned() == old(buf).is_poisoned(),
{
    match action {
        HookAction::Backspace => buf.pop(),
        HookAction::Type(k) => buf.push(Stroke::new(k, shift)),
        HookAction::CaretMoved => buf.clear(Break::CaretMoved),
        _ => {},
    }
}

/// Note the foreground window seen at a word boundary; whether it differs
/// from the one seen last time (the focus moved).
pub fn note_focus(last: &mut isize, window: isize) -> (changed: bool)
    ensures
        changed == (*old(last) != window),
        *final(last) == window,
{
    let changed = *last != window;
    *last = window;
    changed
}

/// A key event kept while a correction is being typed, to be replayed after.
#[derive(Copy, Clone, PartialEq, Eq, Debug, Structural)]
pub struct HeldKey {
    pub vk: u16,
    pub scan: u16,
    pub flags: u32,
    pub time: u32,
}

/// Whether a correction is being typed, and the keys the user pressed
/// meanwhile.
pub struct InjectionLock {
    locked: bool,
    held: Vec<HeldKey>,
}

impl InjectionLock {
    pub fn new() -> (l: Self)
        ensures
            !l.is_locked(),
            l.held_keys() == Seq::<HeldKey>::empty(),
    {
        InjectionLock { locked: false, held: Vec::new() }
    }

    pub closed spec fn is_locked(&self) -> bool {
        self.locked
    }

    pub closed spec fn held_keys(&self) -> Seq<HeldKey> {
        self.held@
    }

    /// Whether a correction is being typed.
    pub fn locked(&self) -> (r: bool)
        ensures
            r == self.is_locked(),
    {
        self.locked
    }

    /// Keep a key the user pressed while a correction is being typed.
    pub fn hold(&mut self, key: HeldKey)
        ensures
            final(self).is_locked() == old(self).is_locked(),
            final(self).held_keys() == old(self).held_keys().push(key),
    {
        self.held.push(key);
    }
}

/// Called before a correction is typed: from now on the user's keys are held
/// back instead of reaching the application.
pub fn acquire_injection_lock(lock: &mut InjectionLock)
    ensures
        final(lock).is_locked(),
        final(lock).held_keys() == old(lock).held_keys(),
{
    lock.locked = true;
}

/// Called after a correction is typed: hands back the held keys, in the order
/// they were pressed, for replaying to the application, and lets keys through
/// again.
pub fn release_injection_lock_and_flush(lock: &mut InjectionLock) -> (keys: Vec<HeldKey>)
    ensures
        keys@ == old(lock).held_keys(),
        !final(lock).is_locked(),
        final(lock).held_keys() == Seq::<HeldKey>::empty(),
{
    let mut keys = Vec::new();
    std::mem::swap(&mut keys, &mut lock.held);
    lock.locked = false;
    keys
}

/// At a word boundary: note the foreground window, and if focus moved, drop
/// the buffer and forget which layout the last words were in, since neither
/// belongs to the new context. Returns whether focus moved.
pub fn begin_word_end(buf: &mut Buffer, recent: &mut Option<LayoutId>, last_window: &mut isize, window: isize) -> (changed: bool)
    ensures
        changed == (*old(last_window) != window),
        *final(last_window) == window,
        changed ==> final(buf)@ == Seq::<Stroke>::empty() && !final(buf).is_poisoned() && *final(recent) is None,
        !changed ==> final(buf)@ == old(buf)@ && final(buf).is_poisoned() == old(buf).is_poisoned()
            && *final(recent) == *old(recent),
{
    let changed = note_focus(last_window, window);
    if changed {
        buf.clear(Break::FocusChange);
        *recent = None;
    }
    changed
}

/// How a finished word ended.
#[derive(Copy, Clone, PartialEq, Eq, Debug, Structural)]
pub enum WordOutcome {
    /// The layout in use is not one the engine supports: nothing was decided.
    Unsupported,
    /// The word was left alone in layout `current`.
    Left { current: LayoutId },
    /// The word was rewritten for layout `target`; `injected` tells whether
    /// the replacement text went out.
    Corrected { target: LayoutId, injected: bool },
}

/// After a word is finished: the buffer is dropped either way, and the layout
/// the next word is expected in is updated. A word left alone is evidence its
/// layout is right; a correction that went out switches the layout, so the
/// target is the new evidence. Returns whether the word-ending key itself is
/// swallowed (the correction retyped it).
pub fn finish_word(buf: &mut Buffer, recent: &mut Option<LayoutId>, outcome: WordOutcome) -> (swallow: bool)
    ensures
        final(buf)@ == Seq::<Stroke>::empty(),
        !final(buf).is_poisoned(),
        swallow == (outcome is Corrected),
        *final(recent) == match outcome {
            WordOutcome::Unsupported => *old(recent),
            WordOutcome::Left { current } => Some(current),
            WordOutcome::Corrected { target, injected } => if injected {
                Some(target)
            } else {
                *old(recent)
            },
        },
{
    match outcome {
        WordOutcome::Unsupported => {
            buf.clear(Break::WordEnd);
            false
        },
        WordOutcome::Left { current } => {
            *recent = Some(current);
            buf.clear(Break::WordEnd);
            false
        },
        WordOutcome::Corrected { target, injected } => {
            if injected {
                *recent = Some(target);
            }
            buf.clear(Break::Applied);
            true
        },
    }
}

/// The layout to switch the window to once a word has ended: the target of a
/// correction whose text went out, and nothing otherwise. A correction that
/// could not be typed leaves the layout alone, or the next word would be
/// wrong in the other direction.
pub fn layout_to_switch(outcome: WordOutcome) -> (r: Option<LayoutId>)
    ensures
        r == match outcome {
            WordOutcome::Corrected { target, injected } => if injected {
                Some(target)
            } else {
                None
            },
            _ => None,
        },
{
    match outcome {
        WordOutcome::Corrected { target, injected } => if injected {
            Some(target)
        } else {
            None
        },
        _ => None,
    }
}

/// What was decided for a finished word, as the diagnostics report it.
#[derive(Copy, Clone, PartialEq, Eq, Debug, Structural)]
pub enum DecisionNote {
    /// Rewritten for this layout.
    Corrected(LayoutId),
    /// Left alone for this reason.
    Left(Reason),
    /// Left alone: no reading beat the current one by the margin.
    BelowThreshold,
}

/// The diagnostics a finished word leaves behind: how many keystrokes it had,
/// the layout it was typed in, the installed layouts, what the platform knew
/// of the field and the application, and the decision. Nothing in it is a
/// character or a key of the word: what the user typed never reaches the log.
pub struct WordEndSummary {
    pub word_len: usize,
    pub layout: LayoutId,
    pub available: Vec<LayoutId>,
    pub password_field: Option<bool>,
    pub app_blocked: bool,
    pub note: DecisionNote,
}

/// The diagnostics for the word in `buf`, typed in `layout` with `available`
/// installed, in context `ctx`, decided as `note`.
pub fn word_end_summary(
    buf: &Buffer,
    layout: LayoutId,
    available: &[LayoutId],
    ctx: &Context,
    note: DecisionNote,
) -> (s: WordEndSummary)
    ensures
        s.word_len == buf@.len(),
        s.layout == layout,
        s.available@ == available@,
        s.password_field == ctx.is_password_field,
        s.app_blocked == ctx.app_blocked,
        s.note == note,
{
    let mut copy: Vec<LayoutId> = Vec::new();
    let mut i: usize = 0;
    while i < available.len()
        invariant
            i <= available@.len(),
            copy@ == available@.take(i as int),
        decreases available@.len() - i,
    {
        copy.push(available[i]);
        i = i + 1;
        assert(copy@ =~= available@.take(i as int));
    }
    assert(copy@ =~= available@);
    WordEndSummary {
        word_len: buf.len(),
        layout,
        available: copy,
        password_field: ctx.is_password_field,
        app_blocked: ctx.app_blocked,
        note,
    }
}

/// A correction is never read back as typing: every event of the key events
/// that rewrite a word carries this program's tag, and the hook hands a tagged
/// event on untouched, whatever key it is and whether or not a correction is
/// being typed.
pub proof fn law_injected_keys_pass_through(
    backspaces: nat,
    text: Seq<char>,
    i: int,
    n_code: i32,
    injecting: bool,
    key_up: bool,
    vk: u16,
    key: Option<Key>,
)
    requires
        0 <= i < injection_of(backspaces, text).len(),
    ensures
        injection_of(backspaces, text)[i].extra_info == ALTSHIFT_MAGIC_INFO,
        hook_action(n_code, injection_of(backspaces, text)[i].extra_info, injecting, key_up, vk, key)
            == HookAction::PassThrough,
{
    lemma_press_and_release_tagged(
        Seq::new(backspaces, |j: int| Keystroke::Backspace) + utf16_of(text).map_values(|u: u16| Keystroke::Unit(u)),
    );
}

} // verus!
