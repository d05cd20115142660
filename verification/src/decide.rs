//! The part of the rewrite decision that needs no scores: which finished words
//! may be looked at at all, and which alternative readings are worth scoring.
//!
//! Scoring itself compares log-probabilities; what is settled here is
//! everything before that comparison, so that the guards always win over the
//! score and a candidate can only ever be a layout the user has installed.

use vstd::prelude::*;

use crate::guards::{verdict_for, Context, Guards, Reason, Verdict};
use crate::key::Stroke;
use crate::layout::{rendering, LayoutId};
use crate::text::chars_of;

verus! {

/// An alternative reading of the strokes: what they would have typed on
/// another layout.
pub struct Candidate {
    pub layout: LayoutId,
    pub text: String,
}

/// What a finished word needs next.
pub enum Screening {
    /// Leave the word alone. Carries a reason when a guard was responsible.
    Leave(Option<Reason>),
    /// Score `typed` against each candidate reading.
    Compare {
        /// What the user sees now.
        typed: String,
        /// How many characters a correction has to delete first.
        backspaces: usize,
        /// The readings worth scoring, in the order the layouts were offered.
        candidates: Vec<Candidate>,
    },
}

/// Whether `id` offers a reading of `strokes` worth scoring against `typed`:
/// another layout, one the engine has a model for, on which every stroke
/// produces a character, and whose text differs from what is on screen
/// (punctuation-only runs read the same on every layout).
pub open spec fn offers_reading(
    strokes: Seq<Stroke>,
    current: LayoutId,
    typed: Seq<char>,
    modelled: Seq<LayoutId>,
    id: LayoutId,
) -> bool {
    &&& id != current
    &&& modelled.contains(id)
    &&& rendering(id, strokes) is Some
    &&& rendering(id, strokes).unwrap() != typed
}

/// The candidate readings, in the order of `available`.
pub open spec fn candidate_readings(
    strokes: Seq<Stroke>,
    current: LayoutId,
    typed: Seq<char>,
    modelled: Seq<LayoutId>,
    available: Seq<LayoutId>,
) -> Seq<(LayoutId, Seq<char>)>
    decreases available.len(),
{
    if available.len() == 0 {
        Seq::empty()
    } else {
        let rest = candidate_readings(strokes, current, typed, modelled, available.drop_last());
        let id = available.last();
        if offers_reading(strokes, current, typed, modelled, id) {
            rest.push((id, rendering(id, strokes).unwrap()))
        } else {
            rest
        }
    }
}

/// When a finished word is left alone before any scoring: `Some(reason)` to
/// leave it, `None` to go on and score.
pub open spec fn early_leave(
    exceptions: Set<Seq<char>>,
    strokes: Seq<Stroke>,
    current: LayoutId,
    modelled: Seq<LayoutId>,
    ctx: Context,
) -> Option<Option<Reason>> {
    if strokes.len() == 0 {
        Some(None)
    } else if rendering(current, strokes) is None {
        Some(None)
    } else if verdict_for(exceptions, rendering(current, strokes).unwrap(), ctx) is Block {
        Some(Some(verdict_for(exceptions, rendering(current, strokes).unwrap(), ctx)->Block_0))
    } else if !modelled.contains(current) {
        Some(None)
    } else {
        None
    }
}

/// The plain view of candidates.
pub open spec fn candidates_view(v: Seq<Candidate>) -> Seq<(LayoutId, Seq<char>)> {
    v.map_values(|c: Candidate| (c.layout, c.text@))
}

fn contains_layout(ids: &[LayoutId], id: LayoutId) -> (r: bool)
    ensures
        r == ids@.contains(id),
{
    let mut i: usize = 0;
    while i < ids.len()
        invariant
            i <= ids@.len(),
            forall|j: int| 0 <= j < i ==> ids@[j] != id,
        decreases ids@.len() - i,
    {
        if ids[i] == id {
            return true;
        }
        i = i + 1;
    }
    false
}

fn same_text(a: &String, b: &String) -> (r: bool)
    ensures
        r == (a@ == b@),
{
    *a == *b
}

/// Decide what a finished word needs before any scoring.
///
/// `available` is the set of layouts the user actually has installed: the
/// engine cannot switch to a layout the system does not have, and restricting
/// candidates to layouts in genuine use removes a class of false positives.
/// `modelled` lists the layouts the engine has a language model for.
pub fn screen(
    guards: &Guards,
    strokes: &[Stroke],
    current: LayoutId,
    available: &[LayoutId],
    modelled: &[LayoutId],
    ctx: &Context,
) -> (r: Screening)
    ensures
        early_leave(guards.exception_set(), strokes@, current, modelled@, *ctx) matches Some(reason)
            ==> r == Screening::Leave(reason),
        early_leave(guards.exception_set(), strokes@, current, modelled@, *ctx) is None ==> (
        r matches Screening::Compare { typed, backspaces, candidates } && {
            &&& rendering(current, strokes@) == Some(typed@)
            &&& backspaces == typed@.len()
            &&& candidates_view(candidates@) == candidate_readings(
                strokes@,
                current,
                typed@,
                modelled@,
                available@,
            )
        }),
{
    if strokes.len() == 0 {
        return Screening::Leave(None);
    }
    // What the user is looking at right now.
    let typed = match current.layout().render(strokes) {
        Some(t) => t,
        None => {
            return Screening::Leave(None);
        },
    };
    match guards.check(typed.as_str(), ctx) {
        Verdict::Block(reason) => {
            return Screening::Leave(Some(reason));
        },
        Verdict::Allow => {},
    }
    if !contains_layout(modelled, current) {
        return Screening::Leave(None);
    }
    let mut candidates: Vec<Candidate> = Vec::new();
    let mut i: usize = 0;
    while i < available.len()
        invariant
            i <= available@.len(),
            candidates_view(candidates@) == candidate_readings(
                strokes@,
                current,
                typed@,
                modelled@,
                available@.take(i as int),
            ),
        decreases available@.len() - i,
    {
        let id = available[i];
        let ghost before = candidates@;
        assert(available@.take(i + 1).drop_last() =~= available@.take(i as int));
        if id != current && contains_layout(modelled, id) {
            match id.layout().render(strokes) {
                Some(text) => {
                    if !same_text(&text, &typed) {
                        candidates.push(Candidate { layout: id, text });
                        assert(candidates_view(candidates@) =~= candidates_view(before).push(
                            (id, rendering(id, strokes@).unwrap()),
                        ));
                    }
                },
                None => {},
            }
        }
        i = i + 1;
    }
    assert(available@.take(available@.len() as int) =~= available@);
    let backspaces = chars_of(typed.as_str()).len();
    Screening::Compare { typed, backspaces, candidates }
}

/// The guards win over the score: a word the guards block is left alone with
/// their reason, however strongly another reading would score.
pub proof fn law_guards_win_over_the_score(
    exceptions: Set<Seq<char>>,
    strokes: Seq<Stroke>,
    current: LayoutId,
    modelled: Seq<LayoutId>,
    ctx: Context,
    reason: Reason,
)
    requires
        strokes.len() > 0,
        rendering(current, strokes) is Some,
        verdict_for(exceptions, rendering(current, strokes).unwrap(), ctx) == Verdict::Block(reason),
    ensures
        early_leave(exceptions, strokes, current, modelled, ctx) == Some(Some(reason)),
{
}

/// Only installed layouts are candidates: every reading offered for scoring
/// comes from an offered layout other than the current one, has a model, and
/// is exactly what the strokes type on that layout, differing from the screen.
pub proof fn law_only_installed_layouts_are_candidates(
    strokes: Seq<Stroke>,
    current: LayoutId,
    typed: Seq<char>,
    modelled: Seq<LayoutId>,
    available: Seq<LayoutId>,
    k: int,
)
    requires
        0 <= k < candidate_readings(strokes, current, typed, modelled, available).len(),
    ensures
        ({
            let (id, text) = candidate_readings(strokes, current, typed, modelled, available)[k];
            &&& available.contains(id)
            &&& id != current
            &&& modelled.contains(id)
            &&& rendering(id, strokes) == Some(text)
            &&& text != typed
        }),
    decreases available.len(),
{
    let rest = candidate_readings(strokes, current, typed, modelled, available.drop_last());
    if k < rest.len() {
        law_only_installed_layouts_are_candidates(strokes, current, typed, modelled, available.drop_last(), k);
        let id = rest[k].0;
        assert(available.drop_last().contains(id));
        let j = choose|j: int| 0 <= j < available.drop_last().len() && available.drop_last()[j] == id;
        assert(available[j] == id);
    } else {
        assert(available[available.len() - 1] == available.last());
    }
}

/// Every layout that offers a reading is among the candidates, with that
/// reading.
proof fn lemma_candidates_complete(
    strokes: Seq<Stroke>,
    current: LayoutId,
    typed: Seq<char>,
    modelled: Seq<LayoutId>,
    available: Seq<LayoutId>,
    id: LayoutId,
)
    requires
        available.contains(id),
        id != current,
        modelled.contains(id),
        rendering(id, strokes) is Some,
        rendering(id, strokes).unwrap() != typed,
    ensures
        candidate_readings(strokes, current, typed, modelled, available).contains(
            (id, rendering(id, strokes).unwrap()),
        ),
    decreases available.len(),
{
    let rest = candidate_readings(strokes, current, typed, modelled, available.drop_last());
    let all = candidate_readings(strokes, current, typed, modelled, available);
    let entry = (id, rendering(id, strokes).unwrap());
    if available.last() == id {
        assert(all == rest.push(entry));
        assert(all[all.len() - 1] == entry);
    } else {
        let j = choose|j: int| 0 <= j < available.len() && available[j] == id;
        assert(j < available.len() - 1);
        assert(available.drop_last()[j] == id);
        lemma_candidates_complete(strokes, current, typed, modelled, available.drop_last(), id);
        let k = choose|k: int| 0 <= k < rest.len() && rest[k] == entry;
        if all != rest {
            assert(all == rest.push((available.last(), rendering(available.last(), strokes).unwrap())));
            assert(all[k] == entry);
        }
    }
}

/// Screening is complete: a non-empty word that renders on the current
/// layout, that the guards allow, and whose layout has a model goes on to be
/// scored, whatever its keystrokes (Shift included); and every other installed
/// layout with a model on which the strokes type something different is among
/// the candidates, with exactly that text.
pub proof fn law_screening_is_complete(
    exceptions: Set<Seq<char>>,
    strokes: Seq<Stroke>,
    current: LayoutId,
    modelled: Seq<LayoutId>,
    available: Seq<LayoutId>,
    ctx: Context,
    id: LayoutId,
)
    requires
        strokes.len() > 0,
        rendering(current, strokes) is Some,
        verdict_for(exceptions, rendering(current, strokes).unwrap(), ctx) == Verdict::Allow,
        modelled.contains(current),
    ensures
        early_leave(exceptions, strokes, current, modelled, ctx) is None,
        available.contains(id) && id != current && modelled.contains(id) && rendering(id, strokes) is Some
            && rendering(id, strokes).unwrap() != rendering(current, strokes).unwrap() ==> candidate_readings(
            strokes,
            current,
            rendering(current, strokes).unwrap(),
            modelled,
            available,
        ).contains((id, rendering(id, strokes).unwrap())),
{
    if available.contains(id) && id != current && modelled.contains(id) && rendering(id, strokes) is Some
        && rendering(id, strokes).unwrap() != rendering(current, strokes).unwrap() {
        lemma_candidates_complete(strokes, current, rendering(current, strokes).unwrap(), modelled, available, id);
    }
}

/// A word is left alone before scoring exactly when it has no keystrokes, does
/// not render on the current layout, is blocked by the guards (with their
/// reason), or its layout has no model.
pub proof fn law_early_leave_exactly(
    exceptions: Set<Seq<char>>,
    strokes: Seq<Stroke>,
    current: LayoutId,
    modelled: Seq<LayoutId>,
    ctx: Context,
)
    ensures
        early_leave(exceptions, strokes, current, modelled, ctx) is Some <==> {
            ||| strokes.len() == 0
            ||| rendering(current, strokes) is None
            ||| verdict_for(exceptions, rendering(current, strokes).unwrap(), ctx) is Block
            ||| !modelled.contains(current)
        },
        early_leave(exceptions, strokes, current, modelled, ctx) matches Some(Some(reason)) ==> verdict_for(
            exceptions,
            rendering(current, strokes).unwrap(),
            ctx,
        ) == Verdict::Block(reason),
{
}

/// The language models an engine holds: at most one per layout.
pub struct Models<M> {
    us_qwerty: Option<M>,
    ru_ycuken: Option<M>,
}

impl<M> Models<M> {
    /// The model slot of layout `id`.
    pub closed spec fn slot(&self, id: LayoutId) -> Option<M> {
        match id {
            LayoutId::UsQwerty => self.us_qwerty,
            LayoutId::RuYcuken => self.ru_ycuken,
        }
    }
}

impl<M> View for Models<M> {
    type V = Map<LayoutId, M>;

    closed spec fn view(&self) -> Map<LayoutId, M> {
        Map::new(|id: LayoutId| self.slot(id) is Some, |id: LayoutId| self.slot(id)->Some_0)
    }
}

impl<M> Models<M> {
    pub fn new() -> (m: Self)
        ensures
            m@ == Map::<LayoutId, M>::empty(),
    {
        let m = Models { us_qwerty: None, ru_ycuken: None };
        assert(m@ =~= Map::<LayoutId, M>::empty());
        m
    }

    /// The models with `model` for layout `id`, replacing any model it had.
    pub fn with_model(self, id: LayoutId, model: M) -> (r: Self)
        ensures
            r@ == self@.insert(id, model),
    {
        let Models { us_qwerty, ru_ycuken } = self;
        let r = match id {
            LayoutId::UsQwerty => Models { us_qwerty: Some(model), ru_ycuken },
            LayoutId::RuYcuken => Models { us_qwerty, ru_ycuken: Some(model) },
        };
        assert(r@ =~= self@.insert(id, model));
        r
    }

    /// The model for layout `id`, if there is one.
    pub fn model(&self, id: LayoutId) -> (r: Option<&M>)
        ensures
            r is Some <==> self@.contains_key(id),
            r matches Some(m) ==> *m == self@[id],
    {
        let slot = match id {
            LayoutId::UsQwerty => &self.us_qwerty,
            LayoutId::RuYcuken => &self.ru_ycuken,
        };
        match slot {
            Some(m) => Some(m),
            None => None,
        }
    }

    /// The layouts there is a model for.
    pub fn layouts(&self) -> (r: Vec<LayoutId>)
        ensures
            forall|id: LayoutId| #[trigger] r@.contains(id) <==> self@.contains_key(id),
    {
        let mut r: Vec<LayoutId> = Vec::new();
        if self.us_qwerty.is_some() {
            r.push(LayoutId::UsQwerty);
        }
        if self.ru_ycuken.is_some() {
            r.push(LayoutId::RuYcuken);
        }
        assert forall|id: LayoutId| #[trigger] r@.contains(id) <==> self@.contains_key(id) by {
            if self@.contains_key(id) {
                match id {
                    LayoutId::UsQwerty => assert(r@[0] == id),
                    LayoutId::RuYcuken => assert(r@[r@.len() - 1] == id),
                }
            }
        }
        r
    }
}

} // verus!
