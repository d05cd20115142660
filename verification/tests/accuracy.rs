use altshift::accuracy::{finish_run, record_word, Outcome, Run};
use altshift::layout::LayoutId;

const US: LayoutId = LayoutId::UsQwerty;
const RU: LayoutId = LayoutId::RuYcuken;

#[test]
fn a_wrong_layout_run_recovers_after_one_lost_word() {
    let mut o = Outcome::new();
    let mut run = Run::start(US);
    assert!(!record_word(&mut o, &mut run, RU, 0, Some(RU)));
    assert_eq!(run.active, RU);
    assert_eq!(run.recovered_at, Some(0));
    assert!(!record_word(&mut o, &mut run, RU, 1, None));
    finish_run(&mut o, &run, US, RU);
    assert_eq!(o.runs, 1);
    assert_eq!(o.recovered, 1);
    assert_eq!(o.words_lost, 1);
    assert_eq!(o.safe_words, 1);
    assert_eq!(o.mangled, 0);
}

#[test]
fn a_correction_in_the_right_layout_is_mangling() {
    let mut o = Outcome::new();
    let mut run = Run::start(US);
    assert!(record_word(&mut o, &mut run, US, 0, Some(RU)));
    assert_eq!(o.mangled, 1);
    assert_eq!(run.recent, Some(RU));
    assert!(!record_word(&mut o, &mut run, US, 1, None));
    assert_eq!(run.lost, 1);
    finish_run(&mut o, &run, US, US);
    assert_eq!(o.recovered, 1);
    assert_eq!(o.words_lost, 1);
}

#[test]
fn a_run_that_never_recovers_loses_nothing_on_record() {
    let mut o = Outcome::new();
    let mut run = Run::start(US);
    record_word(&mut o, &mut run, RU, 0, None);
    record_word(&mut o, &mut run, RU, 1, None);
    assert_eq!(run.lost, 2);
    finish_run(&mut o, &run, US, RU);
    assert_eq!(o.runs, 1);
    assert_eq!(o.recovered, 0);
    assert_eq!(o.words_lost, 0);
}
