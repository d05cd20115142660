//! Keyboard layout tables and the conversions between keypresses and text.

use vstd::prelude::*;

use crate::key::{Key, Stroke, KEY_COUNT, key_at, lemma_key_index};
use crate::text::{chars_of, push_char};

verus! {

/// Writing system a layout produces. Two layouts of the same script are a
/// spell-checking problem, not a layout problem, and are never compared.
#[derive(Copy, Clone, PartialEq, Eq, Debug, Structural)]
pub enum Script {
    Latin,
    Cyrillic,
}

#[derive(Copy, Clone, PartialEq, Eq, Hash, Debug, Structural)]
pub enum LayoutId {
    /// United States QWERTY.
    UsQwerty,
    /// Russian ЙЦУКЕН.
    RuYcuken,
}

/// A keyboard layout. Its table, `[unshifted, shifted]` per key, is fixed by
/// its `id` (see `spec_row`).
pub struct Layout {
    pub id: LayoutId,
    pub name: &'static str,
    pub script: Script,
}

/// The script each layout writes.
pub open spec fn script_of(id: LayoutId) -> Script {
    match id {
        LayoutId::UsQwerty => Script::Latin,
        LayoutId::RuYcuken => Script::Cyrillic,
    }
}

/// The display name of each layout.
pub open spec fn name_of(id: LayoutId) -> Seq<char> {
    match id {
        LayoutId::UsQwerty => "English (US, QWERTY)"@,
        LayoutId::RuYcuken => "Russian (ЙЦУКЕН)"@,
    }
}

impl LayoutId {
    /// Every supported layout.
    pub fn all() -> (ids: [LayoutId; 2])
        ensures
            ids@ == seq![LayoutId::UsQwerty, LayoutId::RuYcuken],
    {
        [LayoutId::UsQwerty, LayoutId::RuYcuken]
    }

    /// The layout table this id names.
    pub fn layout(self) -> (l: Layout)
        ensures
            l.id == self,
            l.name@ == name_of(self),
            l.script == script_of(self),
    {
        match self {
            LayoutId::UsQwerty => Layout {
                id: LayoutId::UsQwerty,
                name: "English (US, QWERTY)",
                script: Script::Latin,
            },
            LayoutId::RuYcuken => Layout {
                id: LayoutId::RuYcuken,
                name: "Russian (ЙЦУКЕН)",
                script: Script::Cyrillic,
            },
        }
    }
}

/// US QWERTY: `(unshifted, shifted)` for each key.
pub open spec fn us_row(k: Key) -> (char, char) {
    match k {
        Key::Backquote => ('`', '~'),
        Key::Digit1 => ('1', '!'),
        Key::Digit2 => ('2', '@'),
        Key::Digit3 => ('3', '#'),
        Key::Digit4 => ('4', '$'),
        Key::Digit5 => ('5', '%'),
        Key::Digit6 => ('6', '^'),
        Key::Digit7 => ('7', '&'),
        Key::Digit8 => ('8', '*'),
        Key::Digit9 => ('9', '('),
        Key::Digit0 => ('0', ')'),
        Key::Minus => ('-', '_'),
        Key::Equal => ('=', '+'),
        Key::KeyQ => ('q', 'Q'),
        Key::KeyW => ('w', 'W'),
        Key::KeyE => ('e', 'E'),
        Key::KeyR => ('r', 'R'),
        Key::KeyT => ('t', 'T'),
        Key::KeyY => ('y', 'Y'),
        Key::KeyU => ('u', 'U'),
        Key::KeyI => ('i', 'I'),
        Key::KeyO => ('o', 'O'),
        Key::KeyP => ('p', 'P'),
        Key::BracketLeft => ('[', '{'),
        Key::BracketRight => (']', '}'),
        Key::Backslash => ('\\', '|'),
        Key::KeyA => ('a', 'A'),
        Key::KeyS => ('s', 'S'),
        Key::KeyD => ('d', 'D'),
        Key::KeyF => ('f', 'F'),
        Key::KeyG => ('g', 'G'),
        Key::KeyH => ('h', 'H'),
        Key::KeyJ => ('j', 'J'),
        Key::KeyK => ('k', 'K'),
        Key::KeyL => ('l', 'L'),
        Key::Semicolon => (';', ':'),
        Key::Quote => ('\'', '"'),
        Key::KeyZ => ('z', 'Z'),
        Key::KeyX => ('x', 'X'),
        Key::KeyC => ('c', 'C'),
        Key::KeyV => ('v', 'V'),
        Key::KeyB => ('b', 'B'),
        Key::KeyN => ('n', 'N'),
        Key::KeyM => ('m', 'M'),
        Key::Comma => (',', '<'),
        Key::Period => ('.', '>'),
        Key::Slash => ('/', '?'),
    }
}

/// Russian ЙЦУКЕН: `(unshifted, shifted)` for each key.
pub open spec fn ru_row(k: Key) -> (char, char) {
    match k {
        Key::Backquote => ('ё', 'Ё'),
        Key::Digit1 => ('1', '!'),
        Key::Digit2 => ('2', '"'),
        Key::Digit3 => ('3', '№'),
        Key::Digit4 => ('4', ';'),
        Key::Digit5 => ('5', '%'),
        Key::Digit6 => ('6', ':'),
        Key::Digit7 => ('7', '?'),
        Key::Digit8 => ('8', '*'),
        Key::Digit9 => ('9', '('),
        Key::Digit0 => ('0', ')'),
        Key::Minus => ('-', '_'),
        Key::Equal => ('=', '+'),
        Key::KeyQ => ('й', 'Й'),
        Key::KeyW => ('ц', 'Ц'),
        Key::KeyE => ('у', 'У'),
        Key::KeyR => ('к', 'К'),
        Key::KeyT => ('е', 'Е'),
        Key::KeyY => ('н', 'Н'),
        Key::KeyU => ('г', 'Г'),
        Key::KeyI => ('ш', 'Ш'),
        Key::KeyO => ('щ', 'Щ'),
        Key::KeyP => ('з', 'З'),
        Key::BracketLeft => ('х', 'Х'),
        Key::BracketRight => ('ъ', 'Ъ'),
        Key::Backslash => ('\\', '/'),
        Key::KeyA => ('ф', 'Ф'),
        Key::KeyS => ('ы', 'Ы'),
        Key::KeyD => ('в', 'В'),
        Key::KeyF => ('а', 'А'),
        Key::KeyG => ('п', 'П'),
        Key::KeyH => ('р', 'Р'),
        Key::KeyJ => ('о', 'О'),
        Key::KeyK => ('л', 'Л'),
        Key::KeyL => ('д', 'Д'),
        Key::Semicolon => ('ж', 'Ж'),
        Key::Quote => ('э', 'Э'),
        Key::KeyZ => ('я', 'Я'),
        Key::KeyX => ('ч', 'Ч'),
        Key::KeyC => ('с', 'С'),
        Key::KeyV => ('м', 'М'),
        Key::KeyB => ('и', 'И'),
        Key::KeyN => ('т', 'Т'),
        Key::KeyM => ('ь', 'Ь'),
        Key::Comma => ('б', 'Б'),
        Key::Period => ('ю', 'Ю'),
        Key::Slash => ('.', ','),
    }
}

/// The table row of `k` in layout `id`. `'\\0'` would mark a key that produces
/// nothing; neither supported table has one.
pub open spec fn spec_row(id: LayoutId, k: Key) -> (char, char) {
    match id {
        LayoutId::UsQwerty => us_row(k),
        LayoutId::RuYcuken => ru_row(k),
    }
}

/// The table entry for a keypress.
pub open spec fn table_char(id: LayoutId, s: Stroke) -> char {
    if s.shift {
        spec_row(id, s.key).1
    } else {
        spec_row(id, s.key).0
    }
}

/// The character layout `id` produces for a keypress, if any.
pub open spec fn produces(id: LayoutId, s: Stroke) -> Option<char> {
    if table_char(id, s) != '\0' {
        Some(table_char(id, s))
    } else {
        None
    }
}

/// The first keypress, scanning keys from physical position `i` on and trying
/// the unshifted level of a key before its shifted one, whose entry is `c`.
pub open spec fn first_stroke_from(id: LayoutId, c: char, i: int) -> Option<Stroke>
    decreases KEY_COUNT - i,
{
    if i < 0 || i >= KEY_COUNT {
        None
    } else if spec_row(id, key_at(i)).0 == c {
        Some(Stroke { key: key_at(i), shift: false })
    } else if spec_row(id, key_at(i)).1 == c {
        Some(Stroke { key: key_at(i), shift: true })
    } else {
        first_stroke_from(id, c, i + 1)
    }
}

/// The keypress that types `c` on layout `id`: the first one in table order.
pub open spec fn stroke_typing(id: LayoutId, c: char) -> Option<Stroke> {
    first_stroke_from(id, c, 0)
}

/// The text a run of keypresses produces on layout `id`; `None` when any of
/// them produces nothing.
pub open spec fn rendering(id: LayoutId, strokes: Seq<Stroke>) -> Option<Seq<char>> {
    if forall|i: int| 0 <= i < strokes.len() ==> #[trigger] produces(id, strokes[i]) is Some {
        Some(Seq::new(strokes.len(), |i: int| table_char(id, strokes[i])))
    } else {
        None
    }
}

/// The keypresses that type `text` on layout `id`; `None` when some character
/// cannot be typed there.
pub open spec fn typing(id: LayoutId, text: Seq<char>) -> Option<Seq<Stroke>> {
    if forall|i: int| 0 <= i < text.len() ==> #[trigger] stroke_typing(id, text[i]) is Some {
        Some(Seq::new(text.len(), |i: int| stroke_typing(id, text[i]).unwrap()))
    } else {
        None
    }
}

fn us_row_exec(k: Key) -> (r: (char, char))
    ensures
        r == us_row(k),
{
    match k {
        Key::Backquote => ('`', '~'),
        Key::Digit1 => ('1', '!'),
        Key::Digit2 => ('2', '@'),
        Key::Digit3 => ('3', '#'),
        Key::Digit4 => ('4', '$'),
        Key::Digit5 => ('5', '%'),
        Key::Digit6 => ('6', '^'),
        Key::Digit7 => ('7', '&'),
        Key::Digit8 => ('8', '*'),
        Key::Digit9 => ('9', '('),
        Key::Digit0 => ('0', ')'),
        Key::Minus => ('-', '_'),
        Key::Equal => ('=', '+'),
        Key::KeyQ => ('q', 'Q'),
        Key::KeyW => ('w', 'W'),
        Key::KeyE => ('e', 'E'),
        Key::KeyR => ('r', 'R'),
        Key::KeyT => ('t', 'T'),
        Key::KeyY => ('y', 'Y'),
        Key::KeyU => ('u', 'U'),
        Key::KeyI => ('i', 'I'),
        Key::KeyO => ('o', 'O'),
        Key::KeyP => ('p', 'P'),
        Key::BracketLeft => ('[', '{'),
        Key::BracketRight => (']', '}'),
        Key::Backslash => ('\\', '|'),
        Key::KeyA => ('a', 'A'),
        Key::KeyS => ('s', 'S'),
        Key::KeyD => ('d', 'D'),
        Key::KeyF => ('f', 'F'),
        Key::KeyG => ('g', 'G'),
        Key::KeyH => ('h', 'H'),
        Key::KeyJ => ('j', 'J'),
        Key::KeyK => ('k', 'K'),
        Key::KeyL => ('l', 'L'),
        Key::Semicolon => (';', ':'),
        Key::Quote => ('\'', '"'),
        Key::KeyZ => ('z', 'Z'),
        Key::KeyX => ('x', 'X'),
        Key::KeyC => ('c', 'C'),
        Key::KeyV => ('v', 'V'),
        Key::KeyB => ('b', 'B'),
        Key::KeyN => ('n', 'N'),
        Key::KeyM => ('m', 'M'),
        Key::Comma => (',', '<'),
        Key::Period => ('.', '>'),
        Key::Slash => ('/', '?'),
    }
}

fn ru_row_exec(k: Key) -> (r: (char, char))
    ensures
        r == ru_row(k),
{
    match k {
        Key::Backquote => ('ё', 'Ё'),
        Key::Digit1 => ('1', '!'),
        Key::Digit2 => ('2', '"'),
        Key::Digit3 => ('3', '№'),
        Key::Digit4 => ('4', ';'),
        Key::Digit5 => ('5', '%'),
        Key::Digit6 => ('6', ':'),
        Key::Digit7 => ('7', '?'),
        Key::Digit8 => ('8', '*'),
        Key::Digit9 => ('9', '('),
        Key::Digit0 => ('0', ')'),
        Key::Minus => ('-', '_'),
        Key::Equal => ('=', '+'),
        Key::KeyQ => ('й', 'Й'),
        Key::KeyW => ('ц', 'Ц'),
        Key::KeyE => ('у', 'У'),
        Key::KeyR => ('к', 'К'),
        Key::KeyT => ('е', 'Е'),
        Key::KeyY => ('н', 'Н'),
        Key::KeyU => ('г', 'Г'),
        Key::KeyI => ('ш', 'Ш'),
        Key::KeyO => ('щ', 'Щ'),
        Key::KeyP => ('з', 'З'),
        Key::BracketLeft => ('х', 'Х'),
        Key::BracketRight => ('ъ', 'Ъ'),
        Key::Backslash => ('\\', '/'),
        Key::KeyA => ('ф', 'Ф'),
        Key::KeyS => ('ы', 'Ы'),
        Key::KeyD => ('в', 'В'),
        Key::KeyF => ('а', 'А'),
        Key::KeyG => ('п', 'П'),
        Key::KeyH => ('р', 'Р'),
        Key::KeyJ => ('о', 'О'),
        Key::KeyK => ('л', 'Л'),
        Key::KeyL => ('д', 'Д'),
        Key::Semicolon => ('ж', 'Ж'),
        Key::Quote => ('э', 'Э'),
        Key::KeyZ => ('я', 'Я'),
        Key::KeyX => ('ч', 'Ч'),
        Key::KeyC => ('с', 'С'),
        Key::KeyV => ('м', 'М'),
        Key::KeyB => ('и', 'И'),
        Key::KeyN => ('т', 'Т'),
        Key::KeyM => ('ь', 'Ь'),
        Key::Comma => ('б', 'Б'),
        Key::Period => ('ю', 'Ю'),
        Key::Slash => ('.', ','),
    }
}

impl Layout {
    fn row(&self, k: Key) -> (r: (char, char))
        ensures
            r == spec_row(self.id, k),
    {
        match self.id {
            LayoutId::UsQwerty => us_row_exec(k),
            LayoutId::RuYcuken => ru_row_exec(k),
        }
    }

    /// The character this layout produces for a keypress.
    pub fn char_for(&self, stroke: Stroke) -> (r: Option<char>)
        ensures
            r == produces(self.id, stroke),
    {
        let row = self.row(stroke.key);
        let c = if stroke.shift {
            row.1
        } else {
            row.0
        };
        if c != '\0' {
            Some(c)
        } else {
            None
        }
    }

    /// Render a run of keypresses as the text this layout would have produced.
    ///
    /// `None` if any stroke is unmapped: a partially rendered candidate would
    /// offer the user text they could not have typed.
    pub fn render(&self, strokes: &[Stroke]) -> (r: Option<String>)
        ensures
            r is Some <==> rendering(self.id, strokes@) is Some,
            r matches Some(t) ==> rendering(self.id, strokes@) == Some(t@),
    {
        let mut out = String::new();
        let mut i: usize = 0;
        while i < strokes.len()
            invariant
                i <= strokes@.len(),
                out@ == Seq::new(i as nat, |j: int| table_char(self.id, strokes@[j])),
                forall|j: int| 0 <= j < i ==> #[trigger] produces(self.id, strokes@[j]) is Some,
            decreases strokes@.len() - i,
        {
            match self.char_for(strokes[i]) {
                Some(c) => {
                    push_char(&mut out, c);
                },
                None => {
                    return None;
                },
            }
            i = i + 1;
            assert(out@ =~= Seq::new(i as nat, |j: int| table_char(self.id, strokes@[j])));
        }
        assert(out@ =~= Seq::new(strokes@.len(), |j: int| table_char(self.id, strokes@[j])));
        Some(out)
    }

    /// Inverse of [`Layout::char_for`]: the first keypress in table order that
    /// produces `c`.
    pub fn stroke_for(&self, c: char) -> (r: Option<Stroke>)
        ensures
            r == stroke_typing(self.id, c),
    {
        let mut i: usize = 0;
        while i < KEY_COUNT
            invariant
                i <= KEY_COUNT,
                first_stroke_from(self.id, c, 0) == first_stroke_from(self.id, c, i as int),
            decreases KEY_COUNT - i,
        {
            let key = Key::from_index(i);
            let row = self.row(key);
            if row.0 == c {
                return Some(Stroke::new(key, false));
            }
            if row.1 == c {
                return Some(Stroke::new(key, true));
            }
            i = i + 1;
        }
        None
    }

    /// The keypresses a user would make to type `text` on this layout; `None`
    /// when some character of it is not on this layout.
    pub fn strokes_for(&self, text: &str) -> (r: Option<Vec<Stroke>>)
        ensures
            r is Some <==> typing(self.id, text@) is Some,
            r matches Some(v) ==> typing(self.id, text@) == Some(v@),
    {
        let chars = chars_of(text);
        let mut out: Vec<Stroke> = Vec::new();
        let mut i: usize = 0;
        while i < chars.len()
            invariant
                chars@ == text@,
                i <= chars@.len(),
                out@ == Seq::new(i as nat, |j: int| stroke_typing(self.id, chars@[j]).unwrap()),
                forall|j: int| 0 <= j < i ==> #[trigger] stroke_typing(self.id, chars@[j]) is Some,
            decreases chars@.len() - i,
        {
            match self.stroke_for(chars[i]) {
                Some(s) => {
                    out.push(s);
                },
                None => {
                    return None;
                },
            }
            i = i + 1;
            assert(out@ =~= Seq::new(i as nat, |j: int| stroke_typing(self.id, chars@[j]).unwrap()));
        }
        assert(out@ =~= Seq::new(chars@.len(), |j: int| stroke_typing(self.id, chars@[j]).unwrap()));
        Some(out)
    }
}

/// Decoding the US table: the keypress whose entry is `c`.
pub open spec fn us_entry_of(c: char) -> Option<Stroke> {
    match c {
        '`' => Some(Stroke { key: Key::Backquote, shift: false }),
        '~' => Some(Stroke { key: Key::Backquote, shift: true }),
        '1' => Some(Stroke { key: Key::Digit1, shift: false }),
        '!' => Some(Stroke { key: Key::Digit1, shift: true }),
        '2' => Some(Stroke { key: Key::Digit2, shift: false }),
        '@' => Some(Stroke { key: Key::Digit2, shift: true }),
        '3' => Some(Stroke { key: Key::Digit3, shift: false }),
        '#' => Some(Stroke { key: Key::Digit3, shift: true }),
        '4' => Some(Stroke { key: Key::Digit4, shift: false }),
        '$' => Some(Stroke { key: Key::Digit4, shift: true }),
        '5' => Some(Stroke { key: Key::Digit5, shift: false }),
        '%' => Some(Stroke { key: Key::Digit5, shift: true }),
        '6' => Some(Stroke { key: Key::Digit6, shift: false }),
        '^' => Some(Stroke { key: Key::Digit6, shift: true }),
        '7' => Some(Stroke { key: Key::Digit7, shift: false }),
        '&' => Some(Stroke { key: Key::Digit7, shift: true }),
        '8' => Some(Stroke { key: Key::Digit8, shift: false }),
        '*' => Some(Stroke { key: Key::Digit8, shift: true }),
        '9' => Some(Stroke { key: Key::Digit9, shift: false }),
        '(' => Some(Stroke { key: Key::Digit9, shift: true }),
        '0' => Some(Stroke { key: Key::Digit0, shift: false }),
        ')' => Some(Stroke { key: Key::Digit0, shift: true }),
        '-' => Some(Stroke { key: Key::Minus, shift: false }),
        '_' => Some(Stroke { key: Key::Minus, shift: true }),
        '=' => Some(Stroke { key: Key::Equal, shift: false }),
        '+' => Some(Stroke { key: Key::Equal, shift: true }),
        'q' => Some(Stroke { key: Key::KeyQ, shift: false }),
        'Q' => Some(Stroke { key: Key::KeyQ, shift: true }),
        'w' => Some(Stroke { key: Key::KeyW, shift: false }),
        'W' => Some(Stroke { key: Key::KeyW, shift: true }),
        'e' => Some(Stroke { key: Key::KeyE, shift: false }),
        'E' => Some(Stroke { key: Key::KeyE, shift: true }),
        'r' => Some(Stroke { key: Key::KeyR, shift: false }),
        'R' => Some(Stroke { key: Key::KeyR, shift: true }),
        't' => Some(Stroke { key: Key::KeyT, shift: false }),
        'T' => Some(Stroke { key: Key::KeyT, shift: true }),
        'y' => Some(Stroke { key: Key::KeyY, shift: false }),
        'Y' => Some(Stroke { key: Key::KeyY, shift: true }),
        'u' => Some(Stroke { key: Key::KeyU, shift: false }),
        'U' => Some(Stroke { key: Key::KeyU, shift: true }),
        'i' => Some(Stroke { key: Key::KeyI, shift: false }),
        'I' => Some(Stroke { key: Key::KeyI, shift: true }),
        'o' => Some(Stroke { key: Key::KeyO, shift: false }),
        'O' => Some(Stroke { key: Key::KeyO, shift: true }),
        'p' => Some(Stroke { key: Key::KeyP, shift: false }),
        'P' => Some(Stroke { key: Key::KeyP, shift: true }),
        '[' => Some(Stroke { key: Key::BracketLeft, shift: false }),
        '{' => Some(Stroke { key: Key::BracketLeft, shift: true }),
        ']' => Some(Stroke { key: Key::BracketRight, shift: false }),
        '}' => Some(Stroke { key: Key::BracketRight, shift: true }),
        '\\' => Some(Stroke { key: Key::Backslash, shift: false }),
        '|' => Some(Stroke { key: Key::Backslash, shift: true }),
        'a' => Some(Stroke { key: Key::KeyA, shift: false }),
        'A' => Some(Stroke { key: Key::KeyA, shift: true }),
        's' => Some(Stroke { key: Key::KeyS, shift: false }),
        'S' => Some(Stroke { key: Key::KeyS, shift: true }),
        'd' => Some(Stroke { key: Key::KeyD, shift: false }),
        'D' => Some(Stroke { key: Key::KeyD, shift: true }),
        'f' => Some(Stroke { key: Key::KeyF, shift: false }),
        'F' => Some(Stroke { key: Key::KeyF, shift: true }),
        'g' => Some(Stroke { key: Key::KeyG, shift: false }),
        'G' => Some(Stroke { key: Key::KeyG, shift: true }),
        'h' => Some(Stroke { key: Key::KeyH, shift: false }),
        'H' => Some(Stroke { key: Key::KeyH, shift: true }),
        'j' => Some(Stroke { key: Key::KeyJ, shift: false }),
        'J' => Some(Stroke { key: Key::KeyJ, shift: true }),
        'k' => Some(Stroke { key: Key::KeyK, shift: false }),
        'K' => Some(Stroke { key: Key::KeyK, shift: true }),
        'l' => Some(Stroke { key: Key::KeyL, shift: false }),
        'L' => Some(Stroke { key: Key::KeyL, shift: true }),
        ';' => Some(Stroke { key: Key::Semicolon, shift: false }),
        ':' => Some(Stroke { key: Key::Semicolon, shift: true }),
        '\'' => Some(Stroke { key: Key::Quote, shift: false }),
        '"' => Some(Stroke { key: Key::Quote, shift: true }),
        'z' => Some(Stroke { key: Key::KeyZ, shift: false }),
        'Z' => Some(Stroke { key: Key::KeyZ, shift: true }),
        'x' => Some(Stroke { key: Key::KeyX, shift: false }),
        'X' => Some(Stroke { key: Key::KeyX, shift: true }),
        'c' => Some(Stroke { key: Key::KeyC, shift: false }),
        'C' => Some(Stroke { key: Key::KeyC, shift: true }),
        'v' => Some(Stroke { key: Key::KeyV, shift: false }),
        'V' => Some(Stroke { key: Key::KeyV, shift: true }),
        'b' => Some(Stroke { key: Key::KeyB, shift: false }),
        'B' => Some(Stroke { key: Key::KeyB, shift: true }),
        'n' => Some(Stroke { key: Key::KeyN, shift: false }),
        'N' => Some(Stroke { key: Key::KeyN, shift: true }),
        'm' => Some(Stroke { key: Key::KeyM, shift: false }),
        'M' => Some(Stroke { key: Key::KeyM, shift: true }),
        ',' => Some(Stroke { key: Key::Comma, shift: false }),
        '<' => Some(Stroke { key: Key::Comma, shift: true }),
        '.' => Some(Stroke { key: Key::Period, shift: false }),
        '>' => Some(Stroke { key: Key::Period, shift: true }),
        '/' => Some(Stroke { key: Key::Slash, shift: false }),
        '?' => Some(Stroke { key: Key::Slash, shift: true }),
        _ => None,
    }
}

/// Decoding the Russian table: the keypress whose entry is `c`.
pub open spec fn ru_entry_of(c: char) -> Option<Stroke> {
    match c {
        'ё' => Some(Stroke { key: Key::Backquote, shift: false }),
        'Ё' => Some(Stroke { key: Key::Backquote, shift: true }),
        '1' => Some(Stroke { key: Key::Digit1, shift: false }),
        '!' => Some(Stroke { key: Key::Digit1, shift: true }),
        '2' => Some(Stroke { key: Key::Digit2, shift: false }),
        '"' => Some(Stroke { key: Key::Digit2, shift: true }),
        '3' => Some(Stroke { key: Key::Digit3, shift: false }),
        '№' => Some(Stroke { key: Key::Digit3, shift: true }),
        '4' => Some(Stroke { key: Key::Digit4, shift: false }),
        ';' => Some(Stroke { key: Key::Digit4, shift: true }),
        '5' => Some(Stroke { key: Key::Digit5, shift: false }),
        '%' => Some(Stroke { key: Key::Digit5, shift: true }),
        '6' => Some(Stroke { key: Key::Digit6, shift: false }),
        ':' => Some(Stroke { key: Key::Digit6, shift: true }),
        '7' => Some(Stroke { key: Key::Digit7, shift: false }),
        '?' => Some(Stroke { key: Key::Digit7, shift: true }),
        '8' => Some(Stroke { key: Key::Digit8, shift: false }),
        '*' => Some(Stroke { key: Key::Digit8, shift: true }),
        '9' => Some(Stroke { key: Key::Digit9, shift: false }),
        '(' => Some(Stroke { key: Key::Digit9, shift: true }),
        '0' => Some(Stroke { key: Key::Digit0, shift: false }),
        ')' => Some(Stroke { key: Key::Digit0, shift: true }),
        '-' => Some(Stroke { key: Key::Minus, shift: false }),
        '_' => Some(Stroke { key: Key::Minus, shift: true }),
        '=' => Some(Stroke { key: Key::Equal, shift: false }),
        '+' => Some(Stroke { key: Key::Equal, shift: true }),
        'й' => Some(Stroke { key: Key::KeyQ, shift: false }),
        'Й' => Some(Stroke { key: Key::KeyQ, shift: true }),
        'ц' => Some(Stroke { key: Key::KeyW, shift: false }),
        'Ц' => Some(Stroke { key: Key::KeyW, shift: true }),
        'у' => Some(Stroke { key: Key::KeyE, shift: false }),
        'У' => Some(Stroke { key: Key::KeyE, shift: true }),
        'к' => Some(Stroke { key: Key::KeyR, shift: false }),
        'К' => Some(Stroke { key: Key::KeyR, shift: true }),
        'е' => Some(Stroke { key: Key::KeyT, shift: false }),
        'Е' => Some(Stroke { key: Key::KeyT, shift: true }),
        'н' => Some(Stroke { key: Key::KeyY, shift: false }),
        'Н' => Some(Stroke { key: Key::KeyY, shift: true }),
        'г' => Some(Stroke { key: Key::KeyU, shift: false }),
        'Г' => Some(Stroke { key: Key::KeyU, shift: true }),
        'ш' => Some(Stroke { key: Key::KeyI, shift: false }),
        'Ш' => Some(Stroke { key: Key::KeyI, shift: true }),
        'щ' => Some(Stroke { key: Key::KeyO, shift: false }),
        'Щ' => Some(Stroke { key: Key::KeyO, shift: true }),
        'з' => Some(Stroke { key: Key::KeyP, shift: false }),
        'З' => Some(Stroke { key: Key::KeyP, shift: true }),
        'х' => Some(Stroke { key: Key::BracketLeft, shift: false }),
        'Х' => Some(Stroke { key: Key::BracketLeft, shift: true }),
        'ъ' => Some(Stroke { key: Key::BracketRight, shift: false }),
        'Ъ' => Some(Stroke { key: Key::BracketRight, shift: true }),
        '\\' => Some(Stroke { key: Key::Backslash, shift: false }),
        '/' => Some(Stroke { key: Key::Backslash, shift: true }),
        'ф' => Some(Stroke { key: Key::KeyA, shift: false }),
        'Ф' => Some(Stroke { key: Key::KeyA, shift: true }),
        'ы' => Some(Stroke { key: Key::KeyS, shift: false }),
        'Ы' => Some(Stroke { key: Key::KeyS, shift: true }),
        'в' => Some(Stroke { key: Key::KeyD, shift: false }),
        'В' => Some(Stroke { key: Key::KeyD, shift: true }),
        'а' => Some(Stroke { key: Key::KeyF, shift: false }),
        'А' => Some(Stroke { key: Key::KeyF, shift: true }),
        'п' => Some(Stroke { key: Key::KeyG, shift: false }),
        'П' => Some(Stroke { key: Key::KeyG, shift: true }),
        'р' => Some(Stroke { key: Key::KeyH, shift: false }),
        'Р' => Some(Stroke { key: Key::KeyH, shift: true }),
        'о' => Some(Stroke { key: Key::KeyJ, shift: false }),
        'О' => Some(Stroke { key: Key::KeyJ, shift: true }),
        'л' => Some(Stroke { key: Key::KeyK, shift: false }),
        'Л' => Some(Stroke { key: Key::KeyK, shift: true }),
        'д' => Some(Stroke { key: Key::KeyL, shift: false }),
        'Д' => Some(Stroke { key: Key::KeyL, shift: true }),
        'ж' => Some(Stroke { key: Key::Semicolon, shift: false }),
        'Ж' => Some(Stroke { key: Key::Semicolon, shift: true }),
        'э' => Some(Stroke { key: Key::Quote, shift: false }),
        'Э' => Some(Stroke { key: Key::Quote, shift: true }),
        'я' => Some(Stroke { key: Key::KeyZ, shift: false }),
        'Я' => Some(Stroke { key: Key::KeyZ, shift: true }),
        'ч' => Some(Stroke { key: Key::KeyX, shift: false }),
        'Ч' => Some(Stroke { key: Key::KeyX, shift: true }),
        'с' => Some(Stroke { key: Key::KeyC, shift: false }),
        'С' => Some(Stroke { key: Key::KeyC, shift: true }),
        'м' => Some(Stroke { key: Key::KeyV, shift: false }),
        'М' => Some(Stroke { key: Key::KeyV, shift: true }),
        'и' => Some(Stroke { key: Key::KeyB, shift: false }),
        'И' => Some(Stroke { key: Key::KeyB, shift: true }),
        'т' => Some(Stroke { key: Key::KeyN, shift: false }),
        'Т' => Some(Stroke { key: Key::KeyN, shift: true }),
        'ь' => Some(Stroke { key: Key::KeyM, shift: false }),
        'Ь' => Some(Stroke { key: Key::KeyM, shift: true }),
        'б' => Some(Stroke { key: Key::Comma, shift: false }),
        'Б' => Some(Stroke { key: Key::Comma, shift: true }),
        'ю' => Some(Stroke { key: Key::Period, shift: false }),
        'Ю' => Some(Stroke { key: Key::Period, shift: true }),
        '.' => Some(Stroke { key: Key::Slash, shift: false }),
        ',' => Some(Stroke { key: Key::Slash, shift: true }),
        _ => None,
    }
}

pub open spec fn entry_of(id: LayoutId, c: char) -> Option<Stroke> {
    match id {
        LayoutId::UsQwerty => us_entry_of(c),
        LayoutId::RuYcuken => ru_entry_of(c),
    }
}

proof fn lemma_us_entry(s: Stroke)
    ensures
        table_char(LayoutId::UsQwerty, s) != '\0',
        us_entry_of(table_char(LayoutId::UsQwerty, s)) == Some(s),
{
}

proof fn lemma_ru_entry(s: Stroke)
    ensures
        table_char(LayoutId::RuYcuken, s) != '\0',
        ru_entry_of(table_char(LayoutId::RuYcuken, s)) == Some(s),
{
}

/// Every entry of a table is a character, and no character appears twice in
/// one table.
pub proof fn lemma_table_entries_unique(id: LayoutId, s1: Stroke, s2: Stroke)
    ensures
        table_char(id, s1) != '\0',
        table_char(id, s1) == table_char(id, s2) ==> s1 == s2,
{
    match id {
        LayoutId::UsQwerty => {
            lemma_us_entry(s1);
            lemma_us_entry(s2);
        },
        LayoutId::RuYcuken => {
            lemma_ru_entry(s1);
            lemma_ru_entry(s2);
        },
    }
}

proof fn lemma_key_at_index(i: int)
    requires
        0 <= i < KEY_COUNT,
    ensures
        key_at(i).spec_index() == i,
{
}

proof fn lemma_first_stroke_from(id: LayoutId, s: Stroke, j: int)
    requires
        0 <= j <= s.key.spec_index(),
    ensures
        first_stroke_from(id, table_char(id, s), j) == Some(s),
    decreases s.key.spec_index() - j,
{
    let c = table_char(id, s);
    lemma_key_index(s.key);
    lemma_key_at_index(j);
    let k = key_at(j);
    let lo = Stroke { key: k, shift: false };
    let hi = Stroke { key: k, shift: true };
    lemma_table_entries_unique(id, lo, s);
    lemma_table_entries_unique(id, hi, s);
    if j < s.key.spec_index() {
        assert(k != s.key);
        lemma_first_stroke_from(id, s, j + 1);
    }
}

/// Every keypress a layout maps round-trips through its table: the character
/// it produces is typed back by that same keypress.
pub proof fn law_every_key_round_trips(id: LayoutId, s: Stroke)
    ensures
        produces(id, s) is Some,
        stroke_typing(id, table_char(id, s)) == Some(s),
{
    lemma_table_entries_unique(id, s, s);
    lemma_first_stroke_from(id, s, 0);
}

proof fn lemma_first_stroke_from_sound(id: LayoutId, c: char, i: int)
    ensures
        first_stroke_from(id, c, i) matches Some(s) ==> table_char(id, s) == c,
    decreases KEY_COUNT - i,
{
    if 0 <= i < KEY_COUNT {
        lemma_first_stroke_from_sound(id, c, i + 1);
    }
}

/// A keypress that `stroke_for` finds for `c` does produce `c`.
pub proof fn law_stroke_for_is_sound(id: LayoutId, c: char)
    ensures
        stroke_typing(id, c) matches Some(s) ==> produces(id, s) == Some(c),
{
    lemma_first_stroke_from_sound(id, c, 0);
    if let Some(s) = stroke_typing(id, c) {
        lemma_table_entries_unique(id, s, s);
    }
}

/// Typing a text on a layout and rendering those keypresses on the same
/// layout gives the text back.
pub proof fn law_render_of_typing(id: LayoutId, text: Seq<char>)
    ensures
        typing(id, text) matches Some(strokes) ==> rendering(id, strokes) == Some(text),
{
    if let Some(strokes) = typing(id, text) {
        assert forall|i: int| 0 <= i < strokes.len() implies #[trigger] produces(id, strokes[i]) == Some(text[i]) by {
            assert(stroke_typing(id, text[i]) is Some);
            law_stroke_for_is_sound(id, text[i]);
        }
        assert forall|i: int| 0 <= i < strokes.len() implies #[trigger] produces(id, strokes[i]) is Some by {
            assert(produces(id, strokes[i]) == Some(text[i]));
        }
        assert(strokes.len() == text.len());
        assert forall|i: int| 0 <= i < strokes.len() implies #[trigger] table_char(id, strokes[i]) == text[i] by {
            assert(produces(id, strokes[i]) == Some(text[i]));
        }
        assert(rendering(id, strokes).unwrap() =~= text);
    }
}

/// Rendering keypresses on a layout and typing that text on the same layout
/// gives the keypresses back.
pub proof fn law_typing_of_rendering(id: LayoutId, strokes: Seq<Stroke>)
    ensures
        rendering(id, strokes) matches Some(text) ==> typing(id, text) == Some(strokes),
{
    if let Some(text) = rendering(id, strokes) {
        assert forall|i: int| 0 <= i < text.len() implies #[trigger] stroke_typing(id, text[i]) == Some(strokes[i]) by {
            law_every_key_round_trips(id, strokes[i]);
        }
        assert forall|i: int| 0 <= i < text.len() implies #[trigger] stroke_typing(id, text[i]) is Some by {
            assert(stroke_typing(id, text[i]) == Some(strokes[i]));
        }
        assert(typing(id, text).unwrap() =~= strokes);
    }
}

/// The swap is symmetric: if `text` typed on layout `a` reads as `other` on
/// layout `b`, then `other` typed on `b` uses the same keys and reads as
/// `text` on `a`.
pub proof fn law_swap_is_symmetric(a: LayoutId, b: LayoutId, text: Seq<char>)
    ensures
        typing(a, text) matches Some(strokes) ==> (rendering(b, strokes) matches Some(other) ==> {
            &&& typing(b, other) == Some(strokes)
            &&& rendering(a, strokes) == Some(text)
        }),
{
    law_render_of_typing(a, text);
    if let Some(strokes) = typing(a, text) {
        law_typing_of_rendering(b, strokes);
    }
}

} // verus!
