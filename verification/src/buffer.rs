//! The keystroke buffer: the only place user text lives, and the shortest-lived
//! one possible.

use vstd::prelude::*;

use crate::key::Stroke;

verus! {

/// Why the buffer was discarded.
///
/// Each variant is a moment where the remembered strokes may no longer match
/// the text in front of the caret; correcting on stale strokes would delete
/// characters the user did not type.
#[derive(Copy, Clone, PartialEq, Eq, Debug, Structural)]
pub enum Break {
    /// Space or punctuation: the word is finished. The only break that asks for
    /// a decision first.
    WordEnd,
    /// Focus moved to another window or field.
    FocusChange,
    /// The caret was moved by mouse or arrow keys.
    CaretMoved,
    /// A password field became active.
    SecureField,
    /// The user idled long enough that continuity cannot be assumed.
    Timeout,
    /// The user changed layout by hand; earlier strokes were meant for the
    /// previous one.
    LayoutChanged,
    /// A correction was just applied or undone.
    Applied,
}

/// Fixed cap on remembered keystrokes.
///
/// A privacy boundary, not a performance one: the buffer cannot hold a
/// sentence, so there is no sentence for anyone to recover.
pub const MAX_STROKES: usize = 32;

pub struct Buffer {
    strokes: Vec<Stroke>,
    /// Set when the buffer overflows. An over-long run is dropped rather than
    /// truncated: half a password is still a password fragment.
    poisoned: bool,
}

impl View for Buffer {
    type V = Seq<Stroke>;

    /// The strokes the buffer hands out: none while it is poisoned.
    closed spec fn view(&self) -> Seq<Stroke> {
        if self.poisoned {
            Seq::empty()
        } else {
            self.strokes@
        }
    }
}

impl Default for Buffer {
    fn default() -> (b: Self)
        ensures
            b@ == Seq::<Stroke>::empty(),
            !b.is_poisoned(),
    {
        Buffer { strokes: Vec::new(), poisoned: false }
    }
}

impl Buffer {
    #[verifier::type_invariant]
    closed spec fn inv(self) -> bool {
        &&& self.strokes@.len() <= MAX_STROKES
        &&& self.poisoned ==> self.strokes@.len() == 0
    }

    /// Whether an overflowing run has been dropped and not yet cleared.
    pub closed spec fn is_poisoned(&self) -> bool {
        self.poisoned
    }

    pub fn new() -> (b: Self)
        ensures
            b@ == Seq::<Stroke>::empty(),
            !b.is_poisoned(),
    {
        Buffer { strokes: Vec::new(), poisoned: false }
    }

    /// Remember a keystroke. A buffer that is full drops everything it holds
    /// and refuses further strokes until it is cleared.
    pub fn push(&mut self, stroke: Stroke)
        ensures
            old(self).is_poisoned() ==> final(self)@ == old(self)@ && final(self).is_poisoned(),
            !old(self).is_poisoned() && old(self)@.len() >= MAX_STROKES ==> {
                &&& final(self)@ == Seq::<Stroke>::empty()
                &&& final(self).is_poisoned()
            },
            !old(self).is_poisoned() && old(self)@.len() < MAX_STROKES ==> {
                &&& final(self)@ == old(self)@.push(stroke)
                &&& !final(self).is_poisoned()
            },
            final(self)@.len() <= MAX_STROKES,
    {
        proof {
            use_type_invariant(&*self);
        }
        if self.poisoned {
            return;
        }
        if self.strokes.len() >= MAX_STROKES {
            self.clear(Break::Timeout);
            self.poisoned = true;
            return;
        }
        let mut strokes = Vec::new();
        std::mem::swap(&mut strokes, &mut self.strokes);
        strokes.push(stroke);
        self.strokes = strokes;
    }

    /// Remove the most recent stroke, mirroring a Backspace the user typed.
    pub fn pop(&mut self)
        ensures
            final(self)@ == if old(self)@.len() > 0 {
                old(self)@.drop_last()
            } else {
                old(self)@
            },
            final(self).is_poisoned() == old(self).is_poisoned(),
    {
        proof {
            use_type_invariant(&*self);
        }
        let mut strokes = Vec::new();
        std::mem::swap(&mut strokes, &mut self.strokes);
        strokes.pop();
        self.strokes = strokes;
    }

    /// Forget everything. `_why` makes every call site state its reason, so a
    /// reader can audit when text is retained.
    pub fn clear(&mut self, _why: Break)
        ensures
            final(self)@ == Seq::<Stroke>::empty(),
            !final(self).is_poisoned(),
    {
        let mut strokes = Vec::new();
        std::mem::swap(&mut strokes, &mut self.strokes);
        strokes.clear();
        self.poisoned = false;
    }

    /// The strokes of the current word; none while the buffer is poisoned.
    pub fn strokes(&self) -> (r: &[Stroke])
        ensures
            r@ == self@,
            self.is_poisoned() ==> r@ == Seq::<Stroke>::empty(),
            r@.len() <= MAX_STROKES,
    {
        proof {
            use_type_invariant(self);
        }
        if self.poisoned {
            &[]
        } else {
            self.strokes.as_slice()
        }
    }

    pub fn len(&self) -> (r: usize)
        ensures
            r == self@.len(),
            self.is_poisoned() ==> r == 0,
            r <= MAX_STROKES,
    {
        self.strokes().len()
    }

    pub fn is_empty(&self) -> (r: bool)
        ensures
            r == (self@.len() == 0),
    {
        self.strokes().len() == 0
    }
}

/// An overflowed buffer shows no strokes: from the push that overflowed it
/// until it is cleared, it hands out nothing, so no prefix of an over-long run
/// is ever kept.
pub proof fn law_poisoned_buffer_is_empty(b: Buffer)
    ensures
        b.is_poisoned() ==> b@ == Seq::<Stroke>::empty(),
{
}

} // verus!
