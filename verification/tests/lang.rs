use altshift::lang::{
    accepts_training_word, padded_trigrams, parse_frequency_list, training_word, trim,
    word_fits_script, word_table_of, WordTable, WORD_END, WORD_START,
};
use altshift::text::is_whitespace;
use altshift::layout::Script;

fn entries(list: &[(&str, u64)]) -> Vec<(String, u64)> {
    list.iter().map(|(w, c)| (w.to_string(), *c)).collect()
}

#[test]
fn a_frequency_list_parses_line_by_line() {
    let text = "the 900000\nAnd 500000\r\n  hello   90000  \n";
    assert_eq!(
        parse_frequency_list(text),
        entries(&[("the", 900000), ("and", 500000), ("hello", 90000)])
    );
}

#[test]
fn malformed_lines_are_skipped() {
    let text = "nocount\n\nword -5\nword 12x\nПривет 7\nbig 18446744073709551615\nbigger 18446744073709551616\nplus +3\n+ 4\nlast 1";
    assert_eq!(
        parse_frequency_list(text),
        entries(&[("привет", 7), ("big", u64::MAX), ("plus", 3), ("+", 4), ("last", 1)])
    );
}

#[test]
fn an_empty_list_has_no_entries() {
    assert!(parse_frequency_list("").is_empty());
    assert!(parse_frequency_list("\n\n").is_empty());
}

#[test]
fn the_count_is_what_follows_the_first_space() {
    assert_eq!(parse_frequency_list("a b 3"), Vec::<(String, u64)>::new());
    assert_eq!(parse_frequency_list("a  3"), entries(&[("a", 3)]));
    assert_eq!(parse_frequency_list("x\t3"), Vec::<(String, u64)>::new());
}

#[test]
fn training_keeps_only_alphabetic_words() {
    assert_eq!(training_word("  Hello "), Some("hello".to_string()));
    assert_eq!(training_word("ПРИВЕТ"), Some("привет".to_string()));
    assert_eq!(training_word("a"), None);
    assert_eq!(training_word("don't"), None);
    assert_eq!(training_word("r2d2"), None);
    assert_eq!(training_word(""), None);
}

#[test]
fn trigrams_cover_the_padded_word() {
    assert_eq!(
        padded_trigrams("abc"),
        vec![
            (WORD_START, 'a', 'b'),
            ('a', 'b', 'c'),
            ('b', 'c', WORD_END),
        ]
    );
    assert_eq!(padded_trigrams("я"), vec![(WORD_START, 'я', WORD_END)]);
    assert!(padded_trigrams("").is_empty());
}

#[test]
fn the_word_table_counts_words_and_letters() {
    let mut t = WordTable::new();
    assert!(t.is_empty());
    assert_eq!(t.max_count(), 1);
    assert_eq!(t.vocab(), 1);
    t.add("hello".to_string(), 90);
    t.add("hell".to_string(), 3);
    t.add("hello".to_string(), 10);
    assert!(!t.is_empty());
    assert_eq!(t.word_count(), 2);
    assert_eq!(t.count_of(&"hello".to_string()), Some(100));
    assert_eq!(t.count_of(&"world".to_string()), None);
    assert!(t.contains("HELL"));
    assert!(!t.contains("he"));
    assert_eq!(t.max_count(), 100);
    assert_eq!(t.vocab(), 4);
}

#[test]
fn held_out_words_must_fit_their_script() {
    assert!(word_fits_script("hello", Script::Latin));
    assert!(!word_fits_script("he", Script::Latin));
    assert!(!word_fits_script("Hello", Script::Latin));
    assert!(!word_fits_script("привет", Script::Latin));
    assert!(word_fits_script("ёлка", Script::Cyrillic));
    assert!(!word_fits_script("hello", Script::Cyrillic));
}

#[test]
fn white_space_is_the_unicode_list() {
    for c in ['\t', '\n', '\u{b}', '\u{c}', '\r', ' ', '\u{85}', '\u{a0}', '\u{1680}', '\u{2000}',
        '\u{2005}', '\u{200a}', '\u{2028}', '\u{2029}', '\u{202f}', '\u{205f}', '\u{3000}']
    {
        assert!(is_whitespace(c), "{:?}", c);
        assert_eq!(is_whitespace(c), c.is_whitespace());
    }
    for c in ['a', 'я', '_', '\u{0}', '\u{8}', '\u{e}', '\u{200b}', '\u{feff}', '\u{1fff}', '\u{200c}'] {
        assert!(!is_whitespace(c), "{:?}", c);
        assert_eq!(is_whitespace(c), c.is_whitespace());
    }
}

#[test]
fn trimming_drops_white_space_at_both_ends_only() {
    let v: Vec<char> = "\u{a0} ab c\t\u{3000}".chars().collect();
    assert_eq!(trim(&v), vec!['a', 'b', ' ', 'c']);
    let blank: Vec<char> = " \t\n".chars().collect();
    assert!(trim(&blank).is_empty());
    assert!(trim(&[]).is_empty());
}

#[test]
fn training_words_are_two_or_more_alphabetic_characters() {
    assert!(accepts_training_word(&[true, true]));
    assert!(accepts_training_word(&[true, true, true, true]));
    assert!(!accepts_training_word(&[true]));
    assert!(!accepts_training_word(&[]));
    assert!(!accepts_training_word(&[true, false, true]));
    assert!(!accepts_training_word(&[false, false]));
    assert_eq!(training_word("  Hello\u{a0}"), Some("hello".to_string()));
    assert_eq!(training_word("a"), None);
    assert_eq!(training_word("h3llo"), None);
    assert_eq!(training_word("ПРИВЕТ"), Some("привет".to_string()));
}

#[test]
fn the_commonest_word_sets_the_maximum_by_its_total() {
    let mut t = WordTable::new();
    t.add("hello".to_string(), 60);
    t.add("world".to_string(), 70);
    assert_eq!(t.max_count(), 70);
    t.add("hello".to_string(), 60);
    assert_eq!(t.max_count(), 120);
    t.add("world".to_string(), 5);
    assert_eq!(t.max_count(), 120);
}

#[test]
fn a_word_table_sums_the_accepted_entries() {
    let t = word_table_of(&entries(&[
        ("Hello", 60),
        ("a", 1000),
        ("h3llo", 1000),
        (" hello ", 50),
        ("мир", 70),
    ]))
    .unwrap();
    assert_eq!(t.word_count(), 2);
    assert_eq!(t.count_of(&"hello".to_string()), Some(110));
    assert_eq!(t.count_of(&"мир".to_string()), Some(70));
    assert_eq!(t.count_of(&"a".to_string()), None);
    assert_eq!(t.max_count(), 110);
    assert_eq!(t.vocab(), 7);
    let empty = word_table_of(&[]).unwrap();
    assert!(empty.is_empty());
    assert_eq!(empty.max_count(), 1);
}

#[test]
fn a_word_table_refuses_counts_that_overflow() {
    assert!(word_table_of(&entries(&[("hello", u64::MAX), ("hello", 1)])).is_none());
    assert!(word_table_of(&entries(&[("hello", u64::MAX), ("world", 1)])).is_some());
    assert!(word_table_of(&entries(&[("hello", u64::MAX - 1), ("HELLO", 1)])).is_some());
}
