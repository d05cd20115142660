//! Undoing a correction: a Backspace pressed soon enough after a correction
//! puts the original text and layout back, once.

use vstd::prelude::*;

use crate::layout::LayoutId;

verus! {

/// How soon after a correction a Backspace still undoes it, in nanoseconds.
pub const UNDO_WINDOW_NANOS: u128 = 800_000_000;

/// What undoing a correction needs.
pub struct CorrectionRecord {
    /// When the correction was made, in nanoseconds on the caller's monotonic clock.
    pub timestamp_nanos: u128,
    /// What the user actually typed (the text the correction replaced).
    pub original_text: String,
    /// The layout active before the correction.
    pub original_layout: LayoutId,
    /// How many characters the correction typed, so how many to delete.
    pub injected_length: usize,
}

/// The last correction, while it can still be undone.
pub struct UndoSlot {
    pub last: Option<CorrectionRecord>,
}

impl UndoSlot {
    pub fn new() -> (s: Self)
        ensures
            s.last is None,
    {
        UndoSlot { last: None }
    }
}

/// Whether a correction made at `made` may still be undone at `now`: no more
/// than the undo window has passed.
pub open spec fn within_undo_window(made: u128, now: u128) -> bool {
    now < made || now - made <= UNDO_WINDOW_NANOS
}

/// What undoing yields: the last correction if it is still within the undo
/// window, else nothing.
pub open spec fn undo_outcome(last: Option<CorrectionRecord>, now: u128) -> Option<CorrectionRecord> {
    match last {
        Some(rec) => if within_undo_window(rec.timestamp_nanos, now) {
            Some(rec)
        } else {
            None
        },
        None => None,
    }
}

/// Record the correction just made, replacing any earlier one.
pub fn record_correction(
    slot: &mut UndoSlot,
    now_nanos: u128,
    original_text: String,
    original_layout: LayoutId,
    injected_length: usize,
)
    ensures
        final(slot).last == Some(
            CorrectionRecord {
                timestamp_nanos: now_nanos,
                original_text,
                original_layout,
                injected_length,
            },
        ),
{
    slot.last = Some(
        CorrectionRecord { timestamp_nanos: now_nanos, original_text, original_layout, injected_length },
    );
}

/// Take the last correction for undoing, if it is still within the undo
/// window at `now_nanos`. The record is consumed either way: a correction can
/// be undone only once. The caller then retypes `original_text` over
/// `injected_length` characters and switches back to `original_layout`; the
/// returned text is what the engine must never offer again.
pub fn try_undo(slot: &mut UndoSlot, now_nanos: u128) -> (r: Option<CorrectionRecord>)
    ensures
        final(slot).last is None,
        r == undo_outcome(old(slot).last, now_nanos),
{
    let record = slot.last.take();
    match record {
        None => None,
        Some(rec) => {
            if now_nanos >= rec.timestamp_nanos && now_nanos - rec.timestamp_nanos > UNDO_WINDOW_NANOS {
                None
            } else {
                Some(rec)
            }
        },
    }
}

/// Any key other than Backspace closes the undo window.
pub fn cancel_undo_window(slot: &mut UndoSlot)
    ensures
        final(slot).last is None,
{
    slot.last = None;
}

/// A correction is undone at most once: undoing empties the slot, and an
/// empty slot undoes nothing, however soon it is asked.
pub proof fn law_a_correction_is_undone_at_most_once(last: Option<CorrectionRecord>, first: u128, second: u128)
    ensures
        undo_outcome(last, first) is Some ==> last is Some,
        undo_outcome(None, second) is None,
{
}

/// A correction asked to be undone within the window is handed back whole;
/// past the window it is not.
pub proof fn law_undo_window(rec: CorrectionRecord, now: u128)
    ensures
        rec.timestamp_nanos <= now && now - rec.timestamp_nanos <= UNDO_WINDOW_NANOS ==> undo_outcome(
            Some(rec),
            now,
        ) == Some(rec),
        rec.timestamp_nanos <= now && now - rec.timestamp_nanos > UNDO_WINDOW_NANOS ==> undo_outcome(
            Some(rec),
            now,
        ) is None,
{
}

} // verus!
