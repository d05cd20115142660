//! Physical keys: the identity of a keypress independent of any layout.
//!
//! A layout switcher has to remember which key was pressed, not which
//! character appeared; the character is a function of the key and the active
//! layout, the key is the invariant. Key names follow the W3C UI Events `code`
//! values so that every platform backend has one target to normalise into.

use vstd::prelude::*;

verus! {

/// Number of keys in the alphanumeric block, the only keys whose output
/// differs between layouts.
pub const KEY_COUNT: usize = 47;

/// A key of the alphanumeric block, in physical order (digit row, upper letter
/// row, home row, lower letter row).
#[derive(Copy, Clone, PartialEq, Eq, Hash, Debug, Structural)]
pub enum Key {
    Backquote,
    Digit1,
    Digit2,
    Digit3,
    Digit4,
    Digit5,
    Digit6,
    Digit7,
    Digit8,
    Digit9,
    Digit0,
    Minus,
    Equal,
    KeyQ,
    KeyW,
    KeyE,
    KeyR,
    KeyT,
    KeyY,
    KeyU,
    KeyI,
    KeyO,
    KeyP,
    BracketLeft,
    BracketRight,
    Backslash,
    KeyA,
    KeyS,
    KeyD,
    KeyF,
    KeyG,
    KeyH,
    KeyJ,
    KeyK,
    KeyL,
    Semicolon,
    Quote,
    KeyZ,
    KeyX,
    KeyC,
    KeyV,
    KeyB,
    KeyN,
    KeyM,
    Comma,
    Period,
    Slash,
}

/// The key at position `i` of the physical order; meaningful for `0 <= i < KEY_COUNT`.
pub open spec fn key_at(i: int) -> Key {
    if i == 0 { Key::Backquote }
    else if i == 1 { Key::Digit1 }
    else if i == 2 { Key::Digit2 }
    else if i == 3 { Key::Digit3 }
    else if i == 4 { Key::Digit4 }
    else if i == 5 { Key::Digit5 }
    else if i == 6 { Key::Digit6 }
    else if i == 7 { Key::Digit7 }
    else if i == 8 { Key::Digit8 }
    else if i == 9 { Key::Digit9 }
    else if i == 10 { Key::Digit0 }
    else if i == 11 { Key::Minus }
    else if i == 12 { Key::Equal }
    else if i == 13 { Key::KeyQ }
    else if i == 14 { Key::KeyW }
    else if i == 15 { Key::KeyE }
    else if i == 16 { Key::KeyR }
    else if i == 17 { Key::KeyT }
    else if i == 18 { Key::KeyY }
    else if i == 19 { Key::KeyU }
    else if i == 20 { Key::KeyI }
    else if i == 21 { Key::KeyO }
    else if i == 22 { Key::KeyP }
    else if i == 23 { Key::BracketLeft }
    else if i == 24 { Key::BracketRight }
    else if i == 25 { Key::Backslash }
    else if i == 26 { Key::KeyA }
    else if i == 27 { Key::KeyS }
    else if i == 28 { Key::KeyD }
    else if i == 29 { Key::KeyF }
    else if i == 30 { Key::KeyG }
    else if i == 31 { Key::KeyH }
    else if i == 32 { Key::KeyJ }
    else if i == 33 { Key::KeyK }
    else if i == 34 { Key::KeyL }
    else if i == 35 { Key::Semicolon }
    else if i == 36 { Key::Quote }
    else if i == 37 { Key::KeyZ }
    else if i == 38 { Key::KeyX }
    else if i == 39 { Key::KeyC }
    else if i == 40 { Key::KeyV }
    else if i == 41 { Key::KeyB }
    else if i == 42 { Key::KeyN }
    else if i == 43 { Key::KeyM }
    else if i == 44 { Key::Comma }
    else if i == 45 { Key::Period }
    else { Key::Slash }
}

impl Key {
    /// Position of the key in the physical order, which indexes a layout table.
    pub open spec fn spec_index(self) -> usize {
        match self {
            Key::Backquote => 0,
            Key::Digit1 => 1,
            Key::Digit2 => 2,
            Key::Digit3 => 3,
            Key::Digit4 => 4,
            Key::Digit5 => 5,
            Key::Digit6 => 6,
            Key::Digit7 => 7,
            Key::Digit8 => 8,
            Key::Digit9 => 9,
            Key::Digit0 => 10,
            Key::Minus => 11,
            Key::Equal => 12,
            Key::KeyQ => 13,
            Key::KeyW => 14,
            Key::KeyE => 15,
            Key::KeyR => 16,
            Key::KeyT => 17,
            Key::KeyY => 18,
            Key::KeyU => 19,
            Key::KeyI => 20,
            Key::KeyO => 21,
            Key::KeyP => 22,
            Key::BracketLeft => 23,
            Key::BracketRight => 24,
            Key::Backslash => 25,
            Key::KeyA => 26,
            Key::KeyS => 27,
            Key::KeyD => 28,
            Key::KeyF => 29,
            Key::KeyG => 30,
            Key::KeyH => 31,
            Key::KeyJ => 32,
            Key::KeyK => 33,
            Key::KeyL => 34,
            Key::Semicolon => 35,
            Key::Quote => 36,
            Key::KeyZ => 37,
            Key::KeyX => 38,
            Key::KeyC => 39,
            Key::KeyV => 40,
            Key::KeyB => 41,
            Key::KeyN => 42,
            Key::KeyM => 43,
            Key::Comma => 44,
            Key::Period => 45,
            Key::Slash => 46,
        }
    }

    /// Index into a layout table.
    #[verifier::when_used_as_spec(spec_index)]
    pub fn index(self) -> (r: usize)
        ensures
            r == self.spec_index(),
            r < KEY_COUNT,
    {
        match self {
            Key::Backquote => 0,
            Key::Digit1 => 1,
            Key::Digit2 => 2,
            Key::Digit3 => 3,
            Key::Digit4 => 4,
            Key::Digit5 => 5,
            Key::Digit6 => 6,
            Key::Digit7 => 7,
            Key::Digit8 => 8,
            Key::Digit9 => 9,
            Key::Digit0 => 10,
            Key::Minus => 11,
            Key::Equal => 12,
            Key::KeyQ => 13,
            Key::KeyW => 14,
            Key::KeyE => 15,
            Key::KeyR => 16,
            Key::KeyT => 17,
            Key::KeyY => 18,
            Key::KeyU => 19,
            Key::KeyI => 20,
            Key::KeyO => 21,
            Key::KeyP => 22,
            Key::BracketLeft => 23,
            Key::BracketRight => 24,
            Key::Backslash => 25,
            Key::KeyA => 26,
            Key::KeyS => 27,
            Key::KeyD => 28,
            Key::KeyF => 29,
            Key::KeyG => 30,
            Key::KeyH => 31,
            Key::KeyJ => 32,
            Key::KeyK => 33,
            Key::KeyL => 34,
            Key::Semicolon => 35,
            Key::Quote => 36,
            Key::KeyZ => 37,
            Key::KeyX => 38,
            Key::KeyC => 39,
            Key::KeyV => 40,
            Key::KeyB => 41,
            Key::KeyN => 42,
            Key::KeyM => 43,
            Key::Comma => 44,
            Key::Period => 45,
            Key::Slash => 46,
        }
    }

    /// The key at position `i` of the physical order.
    pub fn from_index(i: usize) -> (k: Key)
        requires
            i < KEY_COUNT,
        ensures
            k == key_at(i as int),
            k.spec_index() == i,
    {
        match i {
            0 => Key::Backquote,
            1 => Key::Digit1,
            2 => Key::Digit2,
            3 => Key::Digit3,
            4 => Key::Digit4,
            5 => Key::Digit5,
            6 => Key::Digit6,
            7 => Key::Digit7,
            8 => Key::Digit8,
            9 => Key::Digit9,
            10 => Key::Digit0,
            11 => Key::Minus,
            12 => Key::Equal,
            13 => Key::KeyQ,
            14 => Key::KeyW,
            15 => Key::KeyE,
            16 => Key::KeyR,
            17 => Key::KeyT,
            18 => Key::KeyY,
            19 => Key::KeyU,
            20 => Key::KeyI,
            21 => Key::KeyO,
            22 => Key::KeyP,
            23 => Key::BracketLeft,
            24 => Key::BracketRight,
            25 => Key::Backslash,
            26 => Key::KeyA,
            27 => Key::KeyS,
            28 => Key::KeyD,
            29 => Key::KeyF,
            30 => Key::KeyG,
            31 => Key::KeyH,
            32 => Key::KeyJ,
            33 => Key::KeyK,
            34 => Key::KeyL,
            35 => Key::Semicolon,
            36 => Key::Quote,
            37 => Key::KeyZ,
            38 => Key::KeyX,
            39 => Key::KeyC,
            40 => Key::KeyV,
            41 => Key::KeyB,
            42 => Key::KeyN,
            43 => Key::KeyM,
            44 => Key::Comma,
            45 => Key::Period,
            _ => Key::Slash,
        }
    }

    /// Every key of the alphanumeric block, in physical order.
    pub fn all() -> (keys: Vec<Key>)
        ensures
            keys@.len() == KEY_COUNT,
            forall|i: int| 0 <= i < KEY_COUNT ==> #[trigger] keys@[i] == key_at(i),
    {
        let mut keys: Vec<Key> = Vec::new();
        let mut i: usize = 0;
        while i < KEY_COUNT
            invariant
                i <= KEY_COUNT,
                keys@.len() == i,
                forall|j: int| 0 <= j < i ==> #[trigger] keys@[j] == key_at(j),
            decreases KEY_COUNT - i,
        {
            keys.push(Key::from_index(i));
            i = i + 1;
        }
        keys
    }
}

/// The index of a key is its position in the physical order, and the order
/// lists every key exactly once.
pub proof fn lemma_key_index(k: Key)
    ensures
        k.spec_index() < KEY_COUNT,
        key_at(k.spec_index() as int) == k,
{
}

/// A single keypress: a physical key plus whether Shift was held.
///
/// AltGr / Option levels are deliberately absent: neither supported layout
/// needs them, and a level that cannot be reproduced on every platform could
/// let a wrong character reach the user.
#[derive(Copy, Clone, PartialEq, Eq, Debug, Structural)]
pub struct Stroke {
    pub key: Key,
    pub shift: bool,
}

impl Stroke {
    pub fn new(key: Key, shift: bool) -> (s: Self)
        ensures
            s.key == key,
            s.shift == shift,
    {
        Stroke { key, shift }
    }
}

} // verus!
