use altshift::decide::{screen, Models, Screening};
use altshift::guards::{Context, Guards, Reason};
use altshift::layout::LayoutId;

const BOTH: [LayoutId; 2] = [LayoutId::UsQwerty, LayoutId::RuYcuken];

fn safe() -> Context {
    Context { is_password_field: Some(false), ..Context::default() }
}

fn strokes(text: &str) -> Vec<altshift::key::Stroke> {
    LayoutId::UsQwerty.layout().strokes_for(text).unwrap()
}

#[test]
fn a_wrong_layout_word_gets_its_other_reading() {
    let g = Guards::new();
    match screen(&g, &strokes("ghbdtn"), LayoutId::UsQwerty, &BOTH, &BOTH, &safe()) {
        Screening::Compare { typed, backspaces, candidates } => {
            assert_eq!(typed, "ghbdtn");
            assert_eq!(backspaces, 6);
            assert_eq!(candidates.len(), 1);
            assert_eq!(candidates[0].layout, LayoutId::RuYcuken);
            assert_eq!(candidates[0].text, "привет");
        }
        Screening::Leave(r) => panic!("expected candidates, got Leave({r:?})"),
    }
}

#[test]
fn guards_win_before_any_scoring() {
    let g = Guards::new();
    let ctx = Context { is_password_field: Some(true), ..Context::default() };
    match screen(&g, &strokes("ghbdtn"), LayoutId::UsQwerty, &BOTH, &BOTH, &ctx) {
        Screening::Leave(r) => assert_eq!(r, Some(Reason::SecureField)),
        Screening::Compare { .. } => panic!("a password field must never be scored"),
    }
}

#[test]
fn a_rejected_word_is_left_alone() {
    let mut g = Guards::new();
    g.add_exception("ghbdtn");
    match screen(&g, &strokes("ghbdtn"), LayoutId::UsQwerty, &BOTH, &BOTH, &safe()) {
        Screening::Leave(r) => assert_eq!(r, Some(Reason::UserException)),
        Screening::Compare { .. } => panic!("a rejected word must not be offered again"),
    }
}

/// Screening offers no reading in a layout that is not installed; the scoring
/// that then leaves the word alone is floating point and lives outside the
/// library.
#[test]
fn screening_offers_only_installed_layouts() {
    let g = Guards::new();
    let only_us = [LayoutId::UsQwerty];
    match screen(&g, &strokes("ghbdtn"), LayoutId::UsQwerty, &only_us, &BOTH, &safe()) {
        Screening::Compare { candidates, .. } => assert!(candidates.is_empty()),
        Screening::Leave(r) => panic!("expected an empty comparison, got Leave({r:?})"),
    }
}

#[test]
fn empty_or_unmodelled_input_is_left_without_reason() {
    let g = Guards::new();
    assert!(matches!(
        screen(&g, &[], LayoutId::UsQwerty, &BOTH, &BOTH, &safe()),
        Screening::Leave(None)
    ));
    assert!(matches!(
        screen(&g, &strokes("ghbdtn"), LayoutId::UsQwerty, &BOTH, &[LayoutId::RuYcuken], &safe()),
        Screening::Leave(None)
    ));
}

/// Screening reads Russian-layout keystrokes back as English text, the reverse
/// of the usual case; whether that reading wins is decided by the floating
/// point scores outside the library.
#[test]
fn screening_reads_the_swap_in_both_directions() {
    let cyrillic = LayoutId::RuYcuken.layout().strokes_for("hello").unwrap_or_default();
    assert!(cyrillic.is_empty(), "sanity: latin text is not typeable on the RU table");
    let g = Guards::new();
    let ru = LayoutId::RuYcuken.layout().strokes_for("руддщ").unwrap();
    match screen(&g, &ru, LayoutId::RuYcuken, &BOTH, &BOTH, &safe()) {
        Screening::Compare { typed, candidates, .. } => {
            assert_eq!(typed, "руддщ");
            assert_eq!(candidates.len(), 1);
            assert_eq!(candidates[0].text, "hello");
            assert_eq!(candidates[0].layout, LayoutId::UsQwerty);
        }
        Screening::Leave(r) => panic!("expected candidates, got Leave({r:?})"),
    }
}

#[test]
fn models_hold_one_per_layout() {
    let m: Models<u32> = Models::new();
    assert!(m.layouts().is_empty());
    let m = m.with_model(LayoutId::RuYcuken, 1).with_model(LayoutId::UsQwerty, 2).with_model(LayoutId::RuYcuken, 3);
    assert_eq!(m.model(LayoutId::RuYcuken), Some(&3));
    assert_eq!(m.model(LayoutId::UsQwerty), Some(&2));
    let ids = m.layouts();
    assert_eq!(ids.len(), 2);
    assert!(ids.contains(&LayoutId::UsQwerty) && ids.contains(&LayoutId::RuYcuken));
    let only_ru: Models<u32> = Models::new().with_model(LayoutId::RuYcuken, 7);
    assert_eq!(only_ru.model(LayoutId::UsQwerty), None);
    assert_eq!(only_ru.layouts(), vec![LayoutId::RuYcuken]);
}
