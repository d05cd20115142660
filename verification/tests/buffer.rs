use altshift::buffer::{Break, Buffer, MAX_STROKES};
use altshift::key::{Key, Stroke};

fn s(key: Key) -> Stroke {
    Stroke::new(key, false)
}

#[test]
fn strokes_accumulate_and_clear() {
    let mut b = Buffer::new();
    b.push(s(Key::KeyG));
    b.push(s(Key::KeyH));
    assert_eq!(b.len(), 2);
    b.clear(Break::WordEnd);
    assert!(b.is_empty());
}

#[test]
fn backspace_shortens_the_buffer() {
    let mut b = Buffer::new();
    b.push(s(Key::KeyG));
    b.push(s(Key::KeyH));
    b.pop();
    assert_eq!(b.len(), 1);
}

/// An over-long run must vanish entirely, not survive as a fragment.
#[test]
fn overflow_discards_rather_than_truncates() {
    let mut b = Buffer::new();
    for _ in 0..MAX_STROKES + 5 {
        b.push(s(Key::KeyA));
    }
    assert!(b.is_empty(), "an overflowing run must leave nothing behind");
}

#[test]
fn a_poisoned_buffer_stays_empty_until_cleared() {
    let mut b = Buffer::new();
    for _ in 0..MAX_STROKES + 1 {
        b.push(s(Key::KeyA));
    }
    b.push(s(Key::KeyB));
    assert!(b.is_empty());
    assert_eq!(b.len(), 0);
    assert!(b.strokes().is_empty());
    b.clear(Break::WordEnd);
    b.push(s(Key::KeyB));
    assert_eq!(b.len(), 1);
}

#[test]
fn a_full_buffer_still_holds_its_strokes() {
    let mut b = Buffer::new();
    for _ in 0..MAX_STROKES {
        b.push(s(Key::KeyA));
    }
    assert_eq!(b.len(), MAX_STROKES);
    assert_eq!(b.strokes().len(), MAX_STROKES);
    b.push(s(Key::KeyA));
    assert_eq!(b.len(), 0);
    assert!(b.strokes().is_empty());
}

#[test]
fn strokes_come_back_in_order() {
    let mut b = Buffer::default();
    b.push(Stroke::new(Key::KeyG, true));
    b.push(s(Key::KeyH));
    b.push(s(Key::KeyB));
    b.pop();
    assert_eq!(b.strokes(), &[Stroke::new(Key::KeyG, true), s(Key::KeyH)][..]);
}

#[test]
fn pop_on_an_empty_buffer_does_nothing() {
    let mut b = Buffer::new();
    b.pop();
    assert!(b.is_empty());
    b.push(s(Key::KeyA));
    assert_eq!(b.len(), 1);
}
