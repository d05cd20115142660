//! The bookkeeping of the accuracy harness: replaying runs of words and
//! counting how fast a wrong layout is recovered and how often correct text
//! is mangled. A correction switches the layout exactly as the real program
//! does, so the next word arrives in the new one.

use vstd::prelude::*;

use crate::layout::LayoutId;

verus! {

/// Totals over many runs.
pub struct Outcome {
    pub runs: usize,
    /// Runs that reached the layout the user meant to type in.
    pub recovered: usize,
    /// Words typed before recovery, counted only for runs that recovered.
    pub words_lost: usize,
    /// Corrections applied while the layout was already right.
    pub mangled: usize,
    /// Words typed while the layout was already right: what `mangled` is
    /// judged against.
    pub safe_words: usize,
}

impl Outcome {
    pub fn new() -> (o: Self)
        ensures
            o.runs == 0 && o.recovered == 0 && o.words_lost == 0 && o.mangled == 0 && o.safe_words == 0,
    {
        Outcome { runs: 0, recovered: 0, words_lost: 0, mangled: 0, safe_words: 0 }
    }
}

/// One run of words in progress.
pub struct Run {
    /// The layout currently active.
    pub active: LayoutId,
    /// The layout the last word ended in, if any word was decided yet.
    pub recent: Option<LayoutId>,
    /// Words typed in the wrong layout before recovery.
    pub lost: usize,
    /// The position of the word whose correction reached the intended layout.
    pub recovered_at: Option<usize>,
}

impl Run {
    /// A run starting in layout `start`.
    pub fn start(start: LayoutId) -> (r: Self)
        ensures
            r.active == start,
            r.recent is None,
            r.lost == 0,
            r.recovered_at is None,
    {
        Run { active: start, recent: None, lost: 0, recovered_at: None }
    }
}

/// Account for the word at position `index` of a run meant for `intended`,
/// whose decision corrected it to `corrected_to` (or left it alone). Returns
/// whether the word was mangled: corrected although the layout was right.
pub fn record_word(
    o: &mut Outcome,
    run: &mut Run,
    intended: LayoutId,
    index: usize,
    corrected_to: Option<LayoutId>,
) -> (mangled: bool)
    requires
        old(o).safe_words < usize::MAX,
        old(o).mangled < usize::MAX,
        old(run).lost < usize::MAX,
    ensures
        mangled == (old(run).active == intended && corrected_to is Some),
        final(o).safe_words == old(o).safe_words + if old(run).active == intended {
            1int
        } else {
            0
        },
        final(o).mangled == old(o).mangled + if mangled {
            1int
        } else {
            0
        },
        final(o).runs == old(o).runs,
        final(o).recovered == old(o).recovered,
        final(o).words_lost == old(o).words_lost,
        final(run).lost == old(run).lost + if old(run).active != intended && old(run).recovered_at is None {
            1int
        } else {
            0
        },
        final(run).recent == Some(
            match corrected_to {
                Some(target) => target,
                None => old(run).active,
            },
        ),
        final(run).active == match corrected_to {
            Some(target) => target,
            None => old(run).active,
        },
        final(run).recovered_at == if old(run).recovered_at is None && corrected_to == Some(intended) {
            Some(index)
        } else {
            old(run).recovered_at
        },
{
    let mut mangled = false;
    if run.active == intended {
        o.safe_words = o.safe_words + 1;
        if corrected_to.is_some() {
            o.mangled = o.mangled + 1;
            mangled = true;
        }
    } else if run.recovered_at.is_none() {
        run.lost = run.lost + 1;
    }
    match corrected_to {
        Some(target) => {
            run.recent = Some(target);
            run.active = target;
            if target == intended && run.recovered_at.is_none() {
                run.recovered_at = Some(index);
            }
        },
        None => {
            run.recent = Some(run.active);
        },
    }
    mangled
}

/// Close a run that started in `start`: it counts as recovered when it
/// started in the intended layout or a correction reached it, and only then
/// do its lost words count.
pub fn finish_run(o: &mut Outcome, run: &Run, start: LayoutId, intended: LayoutId)
    requires
        old(o).runs < usize::MAX,
        old(o).recovered < usize::MAX,
        old(o).words_lost + run.lost <= usize::MAX,
    ensures
        final(o).runs == old(o).runs + 1,
        (start == intended || run.recovered_at is Some) ==> final(o).recovered == old(o).recovered + 1
            && final(o).words_lost == old(o).words_lost + run.lost,
        !(start == intended || run.recovered_at is Some) ==> final(o).recovered == old(o).recovered
            && final(o).words_lost == old(o).words_lost,
        final(o).mangled == old(o).mangled,
        final(o).safe_words == old(o).safe_words,
{
    o.runs = o.runs + 1;
    if start == intended || run.recovered_at.is_some() {
        o.recovered = o.recovered + 1;
        o.words_lost = o.words_lost + run.lost;
    }
}

} // verus!
