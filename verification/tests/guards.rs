use altshift::guards::{capitalisation_from_classes, Context, Guards, Reason, Verdict};

/// A context where the platform proved the field is ordinary text.
fn safe() -> Context {
    Context { is_password_field: Some(false), ..Context::default() }
}

#[test]
fn an_ordinary_word_is_allowed() {
    assert_eq!(Guards::new().check("ghbdtn", &safe()), Verdict::Allow);
}

#[test]
fn a_password_field_blocks_everything() {
    let ctx = Context { is_password_field: Some(true), ..Context::default() };
    assert_eq!(Guards::new().check("ghbdtn", &ctx), Verdict::Block(Reason::SecureField));
}

/// The whole reason `is_password_field` is an `Option`.
#[test]
fn an_undetermined_field_blocks_too() {
    let ctx = Context { is_password_field: None, ..Context::default() };
    assert_eq!(Guards::new().check("ghbdtn", &ctx), Verdict::Block(Reason::SecureField));
}

#[test]
fn personal_data_is_left_alone() {
    let g = Guards::new();
    let ctx = safe();
    for (token, reason) in [
        ("alper@gmail.com", Reason::Address),
        ("https://example.com", Reason::UrlOrPath),
        ("C:\\Users\\alpertunc", Reason::UrlOrPath),
        ("sk-proj-a1b2c3", Reason::HasDigit),
        ("api_key", Reason::Identifier),
        ("hunter2", Reason::HasDigit),
        ("xK9mQ2vLp8Wz", Reason::HasDigit),
        ("getUserName", Reason::InternalCapital),
    ] {
        assert_eq!(g.check(token, &ctx), Verdict::Block(reason), "{token}");
    }
}

#[test]
fn a_name_mid_sentence_is_left_alone() {
    let g = Guards::new();
    assert_eq!(g.check("Cagri", &safe()), Verdict::Block(Reason::ProperNoun));
    // ...but the same word opening a sentence is fair game.
    let ctx = Context { sentence_initial: true, ..safe() };
    assert_eq!(g.check("Cagri", &ctx), Verdict::Allow);
}

#[test]
fn shouting_is_still_correctable() {
    assert_eq!(Guards::new().check("GHBDTN", &safe()), Verdict::Allow);
}

#[test]
fn a_long_secret_is_left_alone() {
    let g = Guards::new();
    assert_eq!(g.check("correcthorsebatterystaple", &safe()), Verdict::Block(Reason::TooLong));
}

#[test]
fn short_words_carry_too_little_signal() {
    assert_eq!(Guards::new().check("ab", &safe()), Verdict::Block(Reason::TooShort));
}

#[test]
fn a_rejected_word_is_never_offered_again() {
    let mut g = Guards::new();
    assert!(g.check("ghbdtn", &safe()).is_allowed());
    g.add_exception("ghbdtn");
    assert_eq!(
        g.check("GhBdTn".to_lowercase().as_str(), &safe()),
        Verdict::Block(Reason::UserException)
    );
}

#[test]
fn any_spelling_of_a_rejected_word_is_blocked() {
    let mut g = Guards::new();
    g.add_exception("GhBdTn");
    assert_eq!(g.check("GHBDTN", &safe()), Verdict::Block(Reason::UserException));
    assert_eq!(g.check("ghbdtn", &safe()), Verdict::Block(Reason::UserException));
    assert_eq!(g.exceptions(), vec!["ghbdtn".to_string()]);
    g.add_exception("ghbdtn");
    assert_eq!(g.exceptions().len(), 1);
    g.clear_exceptions();
    assert!(g.exceptions().is_empty());
    assert_eq!(g.check("ghbdtn", &safe()), Verdict::Allow);
}

#[test]
fn a_blocked_app_wins_over_everything() {
    let ctx = Context { is_password_field: None, app_blocked: true, sentence_initial: false };
    assert_eq!(Guards::new().check("ab", &ctx), Verdict::Block(Reason::BlockedApp));
    assert!(!Verdict::Block(Reason::BlockedApp).is_allowed());
}

#[test]
fn the_length_bounds_are_inclusive() {
    let g = Guards::new();
    assert_eq!(g.check("abc", &safe()), Verdict::Block(Reason::TooShort));
    assert_eq!(g.check("abcd", &safe()), Verdict::Allow);
    assert_eq!(g.check("абвгдеёжзийклмнопрстуфхц", &safe()), Verdict::Allow);
    assert_eq!(g.check("абвгдеёжзийклмнопрстуфхцч", &safe()), Verdict::Block(Reason::TooLong));
}

#[test]
fn the_default_context_assumes_a_password_field() {
    let ctx = Context::default();
    assert_eq!(ctx.is_password_field, None);
    assert!(!ctx.app_blocked);
    assert!(!ctx.sentence_initial);
}

#[test]
fn cyrillic_capitalisation_is_judged_too() {
    let g = Guards::new();
    assert_eq!(g.check("Привет", &safe()), Verdict::Block(Reason::ProperNoun));
    assert_eq!(g.check("ПРИВЕТ", &safe()), Verdict::Allow);
    assert_eq!(g.check("приВет", &safe()), Verdict::Block(Reason::InternalCapital));
}

#[test]
fn capitalisation_is_judged_from_character_classes() {
    let mid = safe();
    let start = Context { sentence_initial: true, ..safe() };
    let lower = (true, false);
    let upper = (true, true);
    let digit = (false, false);
    assert_eq!(capitalisation_from_classes(&[], &mid), Verdict::Block(Reason::TooShort));
    assert_eq!(capitalisation_from_classes(&[lower, lower, lower], &mid), Verdict::Allow);
    assert_eq!(capitalisation_from_classes(&[upper, upper, digit, upper], &mid), Verdict::Allow);
    assert_eq!(
        capitalisation_from_classes(&[lower, upper, lower], &mid),
        Verdict::Block(Reason::InternalCapital)
    );
    assert_eq!(
        capitalisation_from_classes(&[upper, lower, upper, lower], &start),
        Verdict::Block(Reason::InternalCapital)
    );
    assert_eq!(capitalisation_from_classes(&[upper, lower, lower], &mid), Verdict::Block(Reason::ProperNoun));
    assert_eq!(capitalisation_from_classes(&[upper, lower, lower], &start), Verdict::Allow);
}
