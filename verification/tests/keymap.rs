use altshift::key::{Key, Stroke, KEY_COUNT};
use altshift::layout::{LayoutId, Script};

/// The canonical example: "привет" typed while the US layout was active.
#[test]
fn ghbdtn_is_privet() {
    let strokes = LayoutId::UsQwerty.layout().strokes_for("ghbdtn").unwrap();
    assert_eq!(LayoutId::RuYcuken.layout().render(&strokes).unwrap(), "привет");
}

#[test]
fn the_swap_is_symmetric() {
    let strokes = LayoutId::RuYcuken.layout().strokes_for("привет").unwrap();
    assert_eq!(LayoutId::UsQwerty.layout().render(&strokes).unwrap(), "ghbdtn");
}

/// Every layout must round-trip through its own table, or a correction could
/// silently mangle text that was already correct.
#[test]
fn every_key_round_trips() {
    for id in LayoutId::all() {
        let layout = id.layout();
        for &key in Key::all().iter() {
            for shift in [false, true] {
                let stroke = Stroke::new(key, shift);
                if let Some(c) = layout.char_for(stroke) {
                    assert_eq!(
                        layout.stroke_for(c),
                        Some(stroke),
                        "{}: {c:?} did not round-trip",
                        layout.name
                    );
                }
            }
        }
    }
}

#[test]
fn shift_is_carried_through_the_swap() {
    let strokes = LayoutId::UsQwerty.layout().strokes_for("Ghbdtn").unwrap();
    assert_eq!(LayoutId::RuYcuken.layout().render(&strokes).unwrap(), "Привет");
}

/// A character the layout cannot produce must not yield a half-rendered
/// candidate.
#[test]
fn unmapped_input_yields_no_candidate() {
    assert!(LayoutId::UsQwerty.layout().strokes_for("café").is_none());
}

#[test]
fn key_indices_follow_the_physical_order() {
    let keys = Key::all();
    assert_eq!(keys.len(), KEY_COUNT);
    for (i, key) in keys.iter().enumerate() {
        assert_eq!(key.index(), i);
        assert_eq!(Key::from_index(i), *key);
    }
    assert_eq!(Key::Backquote.index(), 0);
    assert_eq!(Key::KeyQ.index(), 13);
    assert_eq!(Key::Slash.index(), 46);
}

#[test]
fn table_entries_are_exact() {
    let us = LayoutId::UsQwerty.layout();
    let ru = LayoutId::RuYcuken.layout();
    assert_eq!(us.char_for(Stroke::new(Key::KeyQ, false)), Some('q'));
    assert_eq!(us.char_for(Stroke::new(Key::Digit2, true)), Some('@'));
    assert_eq!(ru.char_for(Stroke::new(Key::KeyQ, false)), Some('й'));
    assert_eq!(ru.char_for(Stroke::new(Key::Digit2, true)), Some('"'));
    assert_eq!(ru.char_for(Stroke::new(Key::Slash, true)), Some(','));
    assert_eq!(ru.stroke_for('.'), Some(Stroke::new(Key::Slash, false)));
    assert_eq!(us.stroke_for('й'), None);
    assert_eq!(us.script, Script::Latin);
    assert_eq!(ru.script, Script::Cyrillic);
    assert_eq!(ru.name, "Russian (ЙЦУКЕН)");
}

#[test]
fn render_of_typing_is_the_text() {
    assert!(LayoutId::UsQwerty.layout().strokes_for("a b").is_none());
    for (id, text) in [
        (LayoutId::UsQwerty, "Hello,World!~`[]{}|\\;:'\"<>?/"),
        (LayoutId::RuYcuken, "Съешьжеещёэтихмягкихфранцузскихбулок,давыпейчаю."),
    ] {
        let layout = id.layout();
        let strokes = layout.strokes_for(text).unwrap();
        assert_eq!(strokes.len(), text.chars().count());
        assert_eq!(layout.render(&strokes).unwrap(), text);
    }
}

#[test]
fn empty_text_has_no_strokes() {
    let strokes = LayoutId::UsQwerty.layout().strokes_for("").unwrap();
    assert!(strokes.is_empty());
    assert_eq!(LayoutId::RuYcuken.layout().render(&strokes).unwrap(), "");
}

#[test]
fn swapping_back_restores_the_text() {
    let us = LayoutId::UsQwerty.layout();
    let ru = LayoutId::RuYcuken.layout();
    let strokes = us.strokes_for("j,zpfntkmyj").unwrap();
    let russian = ru.render(&strokes).unwrap();
    assert_eq!(russian, "обязательно");
    assert_eq!(ru.strokes_for(&russian).unwrap(), strokes);
    assert_eq!(us.render(&strokes).unwrap(), "j,zpfntkmyj");
}
