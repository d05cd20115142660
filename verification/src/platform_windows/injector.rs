//! The key events that rewrite a word: backspaces, then the replacement typed
//! as literal UTF-16 code units so the text does not depend on which layout is
//! active while it is written.

use vstd::prelude::*;

use crate::text::chars_of;

verus! {

/// Marks key events this program sends itself, so the keyboard hook never
/// mistakes them for the user's.
pub const ALTSHIFT_MAGIC_INFO: usize = 0x1234_5678;

/// What one injected key event carries.
#[derive(Copy, Clone, PartialEq, Eq, Debug, Structural)]
pub enum Keystroke {
    /// The Backspace key.
    Backspace,
    /// One UTF-16 code unit typed as Unicode input.
    Unit(u16),
}

/// One injected key event: a press or a release, and the extra information
/// the event carries to the keyboard hook (this program's tag).
#[derive(Copy, Clone, PartialEq, Eq, Debug, Structural)]
pub struct InjectedKey {
    pub stroke: Keystroke,
    pub key_up: bool,
    pub extra_info: usize,
}

/// The UTF-16 encoding of one character: one unit below U+10000, otherwise a
/// surrogate pair.
pub open spec fn utf16_of_char(c: char) -> Seq<u16> {
    let v = (c as u32) as int;
    if v < 0x10000 {
        seq![v as u16]
    } else {
        seq![(0xD800 + (v - 0x10000) / 0x400) as u16, (0xDC00 + (v - 0x10000) % 0x400) as u16]
    }
}

/// The UTF-16 encoding of a text.
pub open spec fn utf16_of(s: Seq<char>) -> Seq<u16>
    decreases s.len(),
{
    if s.len() == 0 {
        Seq::empty()
    } else {
        utf16_of(s.drop_last()) + utf16_of_char(s.last())
    }
}

/// A press and a release of each of `strokes`, in order, each tagged as this
/// program's own.
pub open spec fn press_and_release(strokes: Seq<Keystroke>) -> Seq<InjectedKey>
    decreases strokes.len(),
{
    if strokes.len() == 0 {
        Seq::empty()
    } else {
        press_and_release(strokes.drop_last()) + seq![
            InjectedKey { stroke: strokes.last(), key_up: false, extra_info: ALTSHIFT_MAGIC_INFO },
            InjectedKey { stroke: strokes.last(), key_up: true, extra_info: ALTSHIFT_MAGIC_INFO },
        ]
    }
}

/// The events that delete `backspaces` characters and then type `text`.
pub open spec fn injection_of(backspaces: nat, text: Seq<char>) -> Seq<InjectedKey> {
    press_and_release(
        Seq::new(backspaces, |i: int| Keystroke::Backspace) + utf16_of(text).map_values(
            |u: u16| Keystroke::Unit(u),
        ),
    )
}

/// Every event of `press_and_release(strokes)` carries this program's tag.
pub(crate) proof fn lemma_press_and_release_tagged(strokes: Seq<Keystroke>)
    ensures
        forall|i: int| 0 <= i < press_and_release(strokes).len() ==> (#[trigger] press_and_release(strokes)[i]).extra_info
            == ALTSHIFT_MAGIC_INFO,
    decreases strokes.len(),
{
    if strokes.len() > 0 {
        lemma_press_and_release_tagged(strokes.drop_last());
        let front = press_and_release(strokes.drop_last());
        assert forall|i: int| 0 <= i < press_and_release(strokes).len() implies (#[trigger] press_and_release(
            strokes,
        )[i]).extra_info == ALTSHIFT_MAGIC_INFO by {
            if i < front.len() {
                assert(press_and_release(strokes)[i] == front[i]);
            }
        }
    }
}

proof fn lemma_press_and_release_push(strokes: Seq<Keystroke>, k: Keystroke)
    ensures
        press_and_release(strokes.push(k)) == press_and_release(strokes) + seq![
            InjectedKey { stroke: k, key_up: false, extra_info: ALTSHIFT_MAGIC_INFO },
            InjectedKey { stroke: k, key_up: true, extra_info: ALTSHIFT_MAGIC_INFO },
        ],
{
    assert(strokes.push(k).drop_last() =~= strokes);
}

/// The UTF-16 code units of `text`.
pub fn utf16_units(text: &str) -> (r: Vec<u16>)
    ensures
        r@ == utf16_of(text@),
{
    let chars = chars_of(text);
    let mut units: Vec<u16> = Vec::new();
    let mut i: usize = 0;
    while i < chars.len()
        invariant
            i <= chars@.len(),
            chars@ == text@,
            units@ == utf16_of(chars@.take(i as int)),
        decreases chars@.len() - i,
    {
        let c = chars[i];
        let v = c as u32;
        if v < 0x10000 {
            units.push(v as u16);
        } else {
            let u = v - 0x10000;
            units.push((0xD800 + u / 0x400) as u16);
            units.push((0xDC00 + u % 0x400) as u16);
        }
        assert(chars@.take(i + 1).drop_last() =~= chars@.take(i as int));
        assert(units@ =~= utf16_of(chars@.take(i + 1)));
        i = i + 1;
    }
    assert(chars@.take(chars@.len() as int) =~= chars@);
    units
}

/// The key events `replace_text` sends: a press and a release of Backspace
/// `backspaces` times, then a press and a release of each UTF-16 unit of
/// `replacement`, all marked as this program's own.
pub fn injection_plan(backspaces: usize, replacement: &str) -> (r: Vec<InjectedKey>)
    ensures
        r@ == injection_of(backspaces as nat, replacement@),
{
    let units = utf16_units(replacement);
    let ghost strokes = Seq::new(backspaces as nat, |i: int| Keystroke::Backspace) + units@.map_values(
        |u: u16| Keystroke::Unit(u),
    );
    let mut plan: Vec<InjectedKey> = Vec::new();
    let mut i: usize = 0;
    while i < backspaces
        invariant
            i <= backspaces,
            strokes == Seq::new(backspaces as nat, |i: int| Keystroke::Backspace) + units@.map_values(
                |u: u16| Keystroke::Unit(u),
            ),
            plan@ == press_and_release(strokes.take(i as int)),
        decreases backspaces - i,
    {
        plan.push(InjectedKey { stroke: Keystroke::Backspace, key_up: false, extra_info: ALTSHIFT_MAGIC_INFO });
        plan.push(InjectedKey { stroke: Keystroke::Backspace, key_up: true, extra_info: ALTSHIFT_MAGIC_INFO });
        proof {
            assert(strokes.take(i + 1) =~= strokes.take(i as int).push(Keystroke::Backspace));
            lemma_press_and_release_push(strokes.take(i as int), Keystroke::Backspace);
        }
        i = i + 1;
    }
    let mut j: usize = 0;
    while j < units.len()
        invariant
            j <= units@.len(),
            strokes == Seq::new(backspaces as nat, |i: int| Keystroke::Backspace) + units@.map_values(
                |u: u16| Keystroke::Unit(u),
            ),
            plan@ == press_and_release(strokes.take(backspaces + j)),
        decreases units@.len() - j,
    {
        let u = units[j];
        plan.push(InjectedKey { stroke: Keystroke::Unit(u), key_up: false, extra_info: ALTSHIFT_MAGIC_INFO });
        plan.push(InjectedKey { stroke: Keystroke::Unit(u), key_up: true, extra_info: ALTSHIFT_MAGIC_INFO });
        proof {
            assert(strokes.take(backspaces + j + 1) =~= strokes.take(backspaces + j).push(
                Keystroke::Unit(u),
            ));
            lemma_press_and_release_push(strokes.take(backspaces + j), Keystroke::Unit(u));
        }
        j = j + 1;
    }
    assert(strokes.take(backspaces + units@.len()) =~= strokes);
    plan
}

/// A batch of key events the system did not take whole: how many were to be
/// sent and how many it reported as sent.
#[derive(Copy, Clone, PartialEq, Eq, Debug, Structural)]
pub struct InjectionShortfall {
    pub expected: usize,
    pub sent: u32,
}

/// The outcome of sending `expected` key events of which the system reports
/// `sent` as sent: success exactly when the count matches (compared as the
/// system's 32-bit count).
pub fn injection_result(expected: usize, sent: u32) -> (r: Result<(), InjectionShortfall>)
    ensures
        match r {
            Ok(()) => sent == expected as u32,
            Err(e) => sent != expected as u32 && e.expected == expected && e.sent == sent,
        },
{
    if sent == expected as u32 {
        Ok(())
    } else {
        Err(InjectionShortfall { expected, sent })
    }
}

} // verus!
