//! The integer and text side of the language model: reading frequency lists,
//! choosing which corpus words train a model, and cutting a word into the
//! padded character trigrams that the scores are computed over.

use vstd::prelude::*;

use crate::keyed::KeyedList;
use crate::layout::Script;
use crate::text::{
    alphabetic, chars_of, is_alphabetic, is_whitespace, lowercase, string_of, to_lowercase,
    white_space,
};

verus! {

/// Word start marker, from a range no natural alphabet occupies.
pub const WORD_START: char = '\u{2}';

/// Word end marker, from a range no natural alphabet occupies.
pub const WORD_END: char = '\u{3}';

/// The index of the first `c` in `t` at or after `i`, or `t.len()` if none.
pub open spec fn first_from(t: Seq<char>, c: char, i: int) -> int
    decreases t.len() - i,
{
    if i < 0 {
        first_from(t, c, 0)
    } else if i >= t.len() {
        t.len() as int
    } else if t[i] == c {
        i
    } else {
        first_from(t, c, i + 1)
    }
}

proof fn lemma_first_from(t: Seq<char>, c: char, i: int)
    requires
        0 <= i <= t.len(),
    ensures
        i <= first_from(t, c, i) <= t.len(),
        first_from(t, c, i) < t.len() ==> t[first_from(t, c, i)] == c,
        forall|k: int| i <= k < first_from(t, c, i) ==> t[k] != c,
    decreases t.len() - i,
{
    if i < t.len() && t[i] != c {
        lemma_first_from(t, c, i + 1);
    }
}

/// Index of the first character at or after `i` that is not white space, or
/// `s.len()`.
pub open spec fn trim_start(s: Seq<char>, i: int) -> int
    decreases s.len() - i,
{
    if i < 0 || i >= s.len() {
        s.len() as int
    } else if white_space(s[i]) {
        trim_start(s, i + 1)
    } else {
        i
    }
}

/// One past the last character before `j` that is not white space, or 0.
pub open spec fn trim_end(s: Seq<char>, j: int) -> int
    decreases j,
{
    if j <= 0 {
        0
    } else if white_space(s[j - 1]) {
        trim_end(s, j - 1)
    } else {
        j
    }
}

/// `s` without leading and trailing white space (what `str::trim` returns).
pub open spec fn trimmed(s: Seq<char>) -> Seq<char> {
    let a = trim_start(s, 0);
    let b = trim_end(s, s.len() as int);
    if a < b {
        s.subrange(a, b)
    } else {
        Seq::empty()
    }
}

/// The number that a run of ASCII decimal digits spells.
pub open spec fn digits_value(d: Seq<char>) -> nat
    decreases d.len(),
{
    if d.len() == 0 {
        0
    } else {
        digits_value(d.drop_last()) * 10 + ((d.last() as int) - ('0' as int)) as nat
    }
}

/// The digits of a count: what follows an optional leading `+`.
pub open spec fn count_digits(s: Seq<char>) -> Seq<char> {
    if s.len() > 0 && s[0] == '+' {
        s.skip(1)
    } else {
        s
    }
}

/// Every character of `d` is an ASCII decimal digit.
pub open spec fn all_ascii_digits(d: Seq<char>) -> bool {
    forall|i: int| 0 <= i < d.len() ==> '0' <= #[trigger] d[i] <= '9'
}

/// The count a frequency list gives: an optional `+`, then one or more ASCII
/// digits spelling a value that fits in a `u64` (what `str::parse::<u64>`
/// accepts).
pub open spec fn parsed_count(s: Seq<char>) -> Option<u64> {
    let d = count_digits(s);
    if d.len() > 0 && all_ascii_digits(d) && digits_value(d) <= u64::MAX {
        Some(digits_value(d) as u64)
    } else {
        None
    }
}

/// One line of a frequency list: after trimming, a word, a space, and a count
/// (itself trimmed). The word comes back lowercased.
pub open spec fn parsed_line(line: Seq<char>) -> Option<(Seq<char>, u64)> {
    let t = trimmed(line);
    let i = first_from(t, ' ', 0);
    if i >= t.len() {
        None
    } else {
        match parsed_count(trimmed(t.skip(i + 1))) {
            Some(n) => Some((lowercase(t.take(i)), n)),
            None => None,
        }
    }
}

/// The entries of the lines of `text` from position `start` on; lines end at
/// `'\n'`, and a line that does not parse contributes nothing.
pub open spec fn entries_from(text: Seq<char>, start: int) -> Seq<(Seq<char>, u64)>
    decreases text.len() - start,
{
    if start < 0 || start > text.len() {
        Seq::empty()
    } else {
        let end = first_from(text, '\n', start);
        let here = match parsed_line(text.subrange(start, end)) {
            Some(e) => seq![e],
            None => Seq::empty(),
        };
        if start <= end < text.len() {
            here + entries_from(text, end + 1)
        } else {
            here
        }
    }
}

/// The `(word, count)` entries of a whole frequency list, in order.
pub open spec fn frequency_entries(text: Seq<char>) -> Seq<(Seq<char>, u64)> {
    entries_from(text, 0)
}

/// The plain view of parsed entries.
pub open spec fn entries_view(v: Seq<(String, u64)>) -> Seq<(Seq<char>, u64)> {
    v.map_values(|p: (String, u64)| (p.0@, p.1))
}

/// The first index of `c` in `v` at or after `from`, or `v.len()`.
fn find_from(v: &[char], c: char, from: usize) -> (r: usize)
    requires
        from <= v@.len(),
    ensures
        r == first_from(v@, c, from as int),
{
    proof {
        lemma_first_from(v@, c, from as int);
    }
    let mut i = from;
    while i < v.len()
        invariant
            from <= i <= v@.len(),
            first_from(v@, c, from as int) == first_from(v@, c, i as int),
        decreases v@.len() - i,
    {
        if v[i] == c {
            return i;
        }
        i = i + 1;
    }
    i
}

/// The characters of `v` from `from` up to `to`.
fn copy_range(v: &[char], from: usize, to: usize) -> (r: Vec<char>)
    requires
        from <= to <= v@.len(),
    ensures
        r@ == v@.subrange(from as int, to as int),
{
    let mut r: Vec<char> = Vec::new();
    let mut i = from;
    while i < to
        invariant
            from <= i <= to <= v@.len(),
            r@ == v@.subrange(from as int, i as int),
        decreases to - i,
    {
        r.push(v[i]);
        i = i + 1;
        assert(r@ =~= v@.subrange(from as int, i as int));
    }
    r
}

/// `v` without leading and trailing white space.
pub fn trim(v: &[char]) -> (r: Vec<char>)
    ensures
        r@ == trimmed(v@),
{
    let n = v.len();
    let mut a: usize = 0;
    while a < n && is_whitespace(v[a])
        invariant
            n == v@.len(),
            a <= n,
            trim_start(v@, 0) == trim_start(v@, a as int),
        decreases n - a,
    {
        a = a + 1;
    }
    let mut b: usize = n;
    while b > 0 && is_whitespace(v[b - 1])
        invariant
            n == v@.len(),
            b <= n,
            trim_end(v@, n as int) == trim_end(v@, b as int),
        decreases b,
    {
        b = b - 1;
    }
    if a < b {
        copy_range(v, a, b)
    } else {
        Vec::new()
    }
}

proof fn lemma_digits_value_prefix(d: Seq<char>, i: int)
    requires
        0 <= i <= d.len(),
        all_ascii_digits(d),
    ensures
        digits_value(d.take(i)) <= digits_value(d),
    decreases d.len(),
{
    if i < d.len() {
        assert(d.drop_last().take(i) =~= d.take(i));
        lemma_digits_value_prefix(d.drop_last(), i);
        assert(d.take(d.len() as int) =~= d);
    } else {
        assert(d.take(i) =~= d);
    }
}

/// A prefix of the digits that already overflows a `u64` makes the whole run
/// overflow.
proof fn lemma_overflow_is_final(d: Seq<char>, j: int)
    requires
        0 <= j <= d.len(),
        digits_value(d.take(j)) > u64::MAX,
    ensures
        all_ascii_digits(d) ==> digits_value(d) > u64::MAX,
{
    if all_ascii_digits(d) {
        lemma_digits_value_prefix(d, j);
    }
}

/// The count a frequency list entry gives, if it is one (see `parsed_count`).
fn parse_count(s: &[char]) -> (r: Option<u64>)
    ensures
        r == parsed_count(s@),
{
    let n = s.len();
    let start: usize = if n > 0 && s[0] == '+' {
        1
    } else {
        0
    };
    let ghost d = s@.skip(start as int);
    assert(d =~= count_digits(s@));
    if start >= n {
        return None;
    }
    let mut value: u64 = 0;
    let mut i = start;
    while i < n
        invariant
            start <= i <= n,
            n == s@.len(),
            d == s@.skip(start as int),
            d == count_digits(s@),
            d.len() == n - start,
            value == digits_value(d.take(i - start)),
            forall|k: int| start <= k < i ==> '0' <= #[trigger] s@[k] <= '9',
        decreases n - i,
    {
        let c = s[i];
        if !('0' <= c && c <= '9') {
            assert(!('0' <= d[i - start] <= '9'));
            return None;
        }
        let digit: u64 = (c as u32 - '0' as u32) as u64;
        assert(d.take(i - start + 1).drop_last() =~= d.take(i - start));
        assert(digits_value(d.take(i - start + 1)) == value * 10 + digit);
        match value.checked_mul(10) {
            Some(v10) => match v10.checked_add(digit) {
                Some(next) => {
                    value = next;
                },
                None => {
                    proof {
                        lemma_overflow_is_final(d, i - start + 1);
                    }
                    return None;
                },
            },
            None => {
                proof {
                    lemma_overflow_is_final(d, i - start + 1);
                }
                return None;
            },
        }
        i = i + 1;
    }
    assert(d.take(n - start) =~= d);
    Some(value)
}

/// One line of a frequency list, parsed (see `parsed_line`).
fn parse_line(line: &[char]) -> (r: Option<(String, u64)>)
    ensures
        match r {
            Some(e) => parsed_line(line@) == Some((e.0@, e.1)),
            None => parsed_line(line@) is None,
        },
{
    let t = trim(line);
    let i = find_from(&t, ' ', 0);
    proof {
        lemma_first_from(t@, ' ', 0);
    }
    if i >= t.len() {
        return None;
    }
    let rest = copy_range(&t, i + 1, t.len());
    assert(rest@ =~= t@.skip(i + 1));
    let count_chars = trim(&rest);
    match parse_count(&count_chars) {
        None => None,
        Some(n) => {
            let word_chars = copy_range(&t, 0, i);
            assert(word_chars@ =~= t@.take(i as int));
            let word = string_of(&word_chars);
            let lower = to_lowercase(word.as_str());
            Some((lower, n))
        },
    }
}

/// Parse a frequency list, one `word count` pair per line, into training
/// input. Lines that are not such a pair are skipped; words come back
/// lowercased.
///
/// Keeping the parser in one place means the desktop app, the accuracy harness
/// and the benchmark cannot disagree about the format.
pub fn parse_frequency_list(text: &str) -> (r: Vec<(String, u64)>)
    ensures
        entries_view(r@) == frequency_entries(text@),
{
    let chars = chars_of(text);
    let n = chars.len();
    let mut out: Vec<(String, u64)> = Vec::new();
    let mut start: usize = 0;
    let mut done = false;
    assert(entries_view(out@) =~= Seq::<(Seq<char>, u64)>::empty());
    while !done
        invariant
            n == chars@.len(),
            chars@ == text@,
            !done ==> start <= n,
            entries_view(out@) + (if done {
                Seq::<(Seq<char>, u64)>::empty()
            } else {
                entries_from(chars@, start as int)
            }) == entries_from(chars@, 0),
        decreases (if done {
            0
        } else {
            n + 1 - start
        }),
    {
        let end = find_from(&chars, '\n', start);
        proof {
            lemma_first_from(chars@, '\n', start as int);
        }
        let line = copy_range(&chars, start, end);
        let ghost before = out@;
        let ghost here = match parsed_line(chars@.subrange(start as int, end as int)) {
            Some(e) => seq![e],
            None => Seq::<(Seq<char>, u64)>::empty(),
        };
        match parse_line(&line) {
            Some(e) => {
                out.push(e);
                assert(entries_view(out@) =~= entries_view(before) + here);
            },
            None => {
                assert(entries_view(out@) =~= entries_view(before) + here);
            },
        }
        if end < n {
            assert(entries_from(chars@, start as int) == here + entries_from(chars@, end + 1));
            start = end + 1;
        } else {
            assert(entries_from(chars@, start as int) == here);
            done = true;
        }
    }
    out
}

/// Whether a lowercased corpus word may train a model, given for each of its
/// characters whether it is alphabetic: at least two characters, all of them
/// alphabetic. Anything else teaches the model nothing about the shape of the
/// language.
pub open spec fn accepted_for_training(alphabetic_flags: Seq<bool>) -> bool {
    alphabetic_flags.len() >= 2 && forall|i: int| 0 <= i < alphabetic_flags.len() ==> #[trigger] alphabetic_flags[i]
}

/// Which corpus words train a model: trimmed and lowercased, and then
/// accepted by `accepted_for_training` on std's alphabetic class.
pub open spec fn training_word_of(raw: Seq<char>) -> Option<Seq<char>> {
    let w = lowercase(trimmed(raw));
    if accepted_for_training(w.map_values(|c: char| alphabetic(c))) {
        Some(w)
    } else {
        None
    }
}

/// Whether a lowercased corpus word whose characters are alphabetic as
/// `alphabetic_flags` says may train a model.
pub fn accepts_training_word(alphabetic_flags: &[bool]) -> (r: bool)
    ensures
        r == accepted_for_training(alphabetic_flags@),
{
    let n = alphabetic_flags.len();
    if n < 2 {
        return false;
    }
    let mut i: usize = 0;
    while i < n
        invariant
            n == alphabetic_flags@.len(),
            i <= n,
            forall|j: int| 0 <= j < i ==> #[trigger] alphabetic_flags@[j],
        decreases n - i,
    {
        if !alphabetic_flags[i] {
            return false;
        }
        i = i + 1;
    }
    true
}

/// The word a corpus entry contributes to training, if any.
pub fn training_word(raw: &str) -> (r: Option<String>)
    ensures
        r is Some <==> training_word_of(raw@) is Some,
        r matches Some(w) ==> training_word_of(raw@) == Some(w@),
{
    let trimmed_chars = trim(&chars_of(raw));
    let trimmed_word = string_of(&trimmed_chars);
    let word = to_lowercase(trimmed_word.as_str());
    let chars = chars_of(word.as_str());
    let mut flags: Vec<bool> = Vec::new();
    let mut i: usize = 0;
    while i < chars.len()
        invariant
            i <= chars@.len(),
            flags@.len() == i,
            forall|j: int| 0 <= j < i ==> #[trigger] flags@[j] == alphabetic(chars@[j]),
        decreases chars@.len() - i,
    {
        flags.push(is_alphabetic(chars[i]));
        i = i + 1;
    }
    assert(flags@ =~= word@.map_values(|c: char| alphabetic(c)));
    if accepts_training_word(&flags) {
        Some(word)
    } else {
        None
    }
}

/// A word between its start and end markers.
pub open spec fn padded(word: Seq<char>) -> Seq<char> {
    seq![WORD_START] + word + seq![WORD_END]
}

/// The character trigrams of a padded word, in order: every window of three
/// consecutive characters.
pub open spec fn trigrams_of(word: Seq<char>) -> Seq<(char, char, char)> {
    let p = padded(word);
    Seq::new((p.len() - 2) as nat, |i: int| (p[i], p[i + 1], p[i + 2]))
}

/// The character trigrams a model counts and scores for `word`.
pub fn padded_trigrams(word: &str) -> (r: Vec<(char, char, char)>)
    ensures
        r@ == trigrams_of(word@),
{
    let chars = chars_of(word);
    let mut p: Vec<char> = Vec::new();
    p.push(WORD_START);
    let mut i: usize = 0;
    while i < chars.len()
        invariant
            i <= chars@.len(),
            p@ == seq![WORD_START] + chars@.take(i as int),
        decreases chars@.len() - i,
    {
        p.push(chars[i]);
        i = i + 1;
        assert(p@ =~= seq![WORD_START] + chars@.take(i as int));
    }
    p.push(WORD_END);
    assert(chars@.take(chars@.len() as int) =~= chars@);
    assert(p@ =~= padded(word@));
    let mut r: Vec<(char, char, char)> = Vec::new();
    let mut j: usize = 0;
    let limit = p.len() - 2;
    while j < limit
        invariant
            p@ == padded(word@),
            limit == p@.len() - 2,
            j <= limit,
            r@ == Seq::new(j as nat, |k: int| (p@[k], p@[k + 1], p@[k + 2])),
        decreases p@.len() - j,
    {
        r.push((p[j], p[j + 1], p[j + 2]));
        j = j + 1;
        assert(r@ =~= Seq::new(j as nat, |k: int| (p@[k], p@[k + 1], p@[k + 2])));
    }
    assert(r@ =~= trigrams_of(word@));
    r
}

/// The word side of a trained language model: corpus count per word, the
/// largest total count of any word, and the characters the words use.
pub struct WordTable {
    counts: KeyedList<u64>,
    max_count: u64,
    alphabet: Vec<char>,
}

impl WordTable {
    #[verifier::type_invariant]
    closed spec fn inv(self) -> bool {
        &&& self.max_count >= 1
        &&& self.alphabet@.no_duplicates()
    }

    /// Corpus occurrences per word.
    pub closed spec fn counts(&self) -> Map<Seq<char>, u64> {
        self.counts@
    }

    /// The largest total count of any word, and at least 1: the commonest
    /// word earns the full dictionary credit and no word earns more.
    pub closed spec fn spec_max_count(&self) -> u64 {
        self.max_count
    }

    /// Every character of every word added.
    pub closed spec fn alphabet(&self) -> Set<char> {
        self.alphabet@.to_set()
    }

    pub fn new() -> (t: Self)
        ensures
            t.counts() == Map::<Seq<char>, u64>::empty(),
            t.spec_max_count() == 1,
            t.alphabet() == Set::<char>::empty(),
    {
        let t = WordTable { counts: KeyedList::new(), max_count: 1, alphabet: Vec::new() };
        assert(t.alphabet() =~= Set::<char>::empty());
        t
    }

    /// Count `count` more occurrences of `word`.
    pub fn add(&mut self, word: String, count: u64)
        requires
            old(self).counts().contains_key(word@) ==> old(self).counts()[word@] + count <= u64::MAX,
        ensures
            final(self).counts() == old(self).counts().insert(
                word@,
                if old(self).counts().contains_key(word@) {
                    (old(self).counts()[word@] + count) as u64
                } else {
                    count
                },
            ),
            final(self).spec_max_count() == if final(self).counts()[word@] > old(self).spec_max_count() {
                final(self).counts()[word@]
            } else {
                old(self).spec_max_count()
            },
            final(self).alphabet() == old(self).alphabet() + word@.to_set(),
    {
        proof {
            use_type_invariant(&*self);
        }
        let chars = chars_of(word.as_str());
        let mut alphabet = Vec::new();
        std::mem::swap(&mut alphabet, &mut self.alphabet);
        let ghost old_alphabet = alphabet@;
        let mut i: usize = 0;
        while i < chars.len()
            invariant
                i <= chars@.len(),
                chars@ == word@,
                alphabet@.no_duplicates(),
                alphabet@.to_set() == old_alphabet.to_set() + chars@.take(i as int).to_set(),
            decreases chars@.len() - i,
        {
            let c = chars[i];
            let mut present = false;
            let mut j: usize = 0;
            while j < alphabet.len()
                invariant
                    j <= alphabet@.len(),
                    present == exists|k: int| 0 <= k < j && alphabet@[k] == c,
                decreases alphabet@.len() - j,
            {
                if alphabet[j] == c {
                    present = true;
                }
                j = j + 1;
            }
            let ghost before = alphabet@;
            if !present {
                alphabet.push(c);
                assert(alphabet@.no_duplicates()) by {
                    assert forall|a: int, b: int| 0 <= a < alphabet@.len() && 0 <= b < alphabet@.len() && a != b
                        implies alphabet@[a] != alphabet@[b] by {
                        if a < before.len() && b < before.len() {
                            assert(alphabet@[a] == before[a] && alphabet@[b] == before[b]);
                        } else if a < before.len() {
                            assert(alphabet@[a] == before[a]);
                        } else {
                            assert(alphabet@[b] == before[b]);
                        }
                    }
                }
            }
            assert(chars@.take(i + 1) =~= chars@.take(i as int).push(c));
            assert(alphabet@.to_set() =~= old_alphabet.to_set() + chars@.take(i + 1).to_set()) by {
                assert forall|x: char| alphabet@.to_set().contains(x) <==> (old_alphabet.to_set()
                    + chars@.take(i + 1).to_set()).contains(x) by {
                    if alphabet@.to_set().contains(x) {
                        let k = choose|k: int| 0 <= k < alphabet@.len() && alphabet@[k] == x;
                        if k < before.len() {
                            assert(before.to_set().contains(x));
                        } else {
                            assert(chars@.take(i + 1)[i as int] == x);
                        }
                    }
                    if old_alphabet.to_set().contains(x) || chars@.take(i as int).to_set().contains(x) {
                        assert(before.to_set().contains(x));
                        let k = choose|k: int| 0 <= k < before.len() && before[k] == x;
                        assert(alphabet@[k] == x);
                    }
                    if chars@.take(i + 1).to_set().contains(x) {
                        let t1 = chars@.take(i + 1);
                        let k = choose|k: int| 0 <= k < t1.len() && #[trigger] t1[k] == x;
                        if k < i {
                            assert(chars@.take(i as int)[k] == x);
                            assert(chars@.take(i as int).to_set().contains(x));
                            assert(before.to_set().contains(x));
                            let m = choose|m: int| 0 <= m < before.len() && before[m] == x;
                            assert(alphabet@[m] == x);
                        } else if present {
                            let m = choose|m: int| 0 <= m < before.len() && before[m] == c;
                            assert(alphabet@[m] == x);
                        } else {
                            assert(alphabet@[before.len() as int] == x);
                        }
                    }
                }
            }
            i = i + 1;
        }
        assert(chars@.take(chars@.len() as int) =~= chars@);
        self.alphabet = alphabet;
        let mut counts = KeyedList::new();
        std::mem::swap(&mut counts, &mut self.counts);
        let total = match counts.get(&word) {
            Some(existing) => existing + count,
            None => count,
        };
        counts.insert(word, total);
        self.counts = counts;
        if total > self.max_count {
            self.max_count = total;
        }
    }

    /// Whether no word has been added.
    pub fn is_empty(&self) -> (r: bool)
        ensures
            r == (self.counts().len() == 0),
    {
        self.counts.len() == 0
    }

    /// How many distinct words have been added.
    pub fn word_count(&self) -> (r: usize)
        ensures
            r == self.counts().len(),
    {
        self.counts.len()
    }

    /// Whether `word`, lowercased, has been added.
    pub fn contains(&self, word: &str) -> (r: bool)
        ensures
            r == self.counts().contains_key(lowercase(word@)),
    {
        self.counts.get(&to_lowercase(word)).is_some()
    }

    /// The count of exactly `word`, if it has been added.
    pub fn count_of(&self, word: &String) -> (r: Option<u64>)
        ensures
            r == if self.counts().contains_key(word@) {
                Some(self.counts()[word@])
            } else {
                None
            },
    {
        self.counts.get(word)
    }

    /// The largest total count of any word, at least 1.
    pub fn max_count(&self) -> (r: u64)
        ensures
            r == self.spec_max_count(),
            r >= 1,
    {
        proof {
            use_type_invariant(self);
        }
        self.max_count
    }

    /// The alphabet size the smoothing divides by: the number of distinct
    /// characters seen, or 1 before any.
    pub fn vocab(&self) -> (r: usize)
        ensures
            self.alphabet().finite(),
            r == if self.alphabet().len() > 1 {
                self.alphabet().len()
            } else {
                1
            },
    {
        proof {
            use_type_invariant(self);
            self.alphabet@.unique_seq_to_set();
        }
        if self.alphabet.len() > 1 {
            self.alphabet.len()
        } else {
            1
        }
    }
}

/// The word counts of a model trained on the entries `src`: each entry whose
/// word is accepted for training adds its count to that word's total.
pub open spec fn trained_counts(src: Seq<(Seq<char>, u64)>) -> Map<Seq<char>, u64>
    decreases src.len(),
{
    if src.len() == 0 {
        Map::empty()
    } else {
        let m = trained_counts(src.drop_last());
        match training_word_of(src.last().0) {
            None => m,
            Some(w) => m.insert(
                w,
                if m.contains_key(w) {
                    (m[w] + src.last().1) as u64
                } else {
                    src.last().1
                },
            ),
        }
    }
}

/// Whether training on `src` keeps every word's total within a `u64`: the
/// entries on which adding up the counts would overflow are the ones no model
/// can be trained on.
pub open spec fn trains_without_overflow(src: Seq<(Seq<char>, u64)>) -> bool
    decreases src.len(),
{
    if src.len() == 0 {
        true
    } else {
        &&& trains_without_overflow(src.drop_last())
        &&& match training_word_of(src.last().0) {
            None => true,
            Some(w) => trained_counts(src.drop_last()).contains_key(w) ==> trained_counts(src.drop_last())[w]
                + src.last().1 <= u64::MAX,
        }
    }
}

/// The largest total count of any word after training on `src`, and at
/// least 1.
pub open spec fn trained_max(src: Seq<(Seq<char>, u64)>) -> u64
    decreases src.len(),
{
    if src.len() == 0 {
        1
    } else {
        let m = trained_max(src.drop_last());
        match training_word_of(src.last().0) {
            None => m,
            Some(w) => if trained_counts(src)[w] > m {
                trained_counts(src)[w]
            } else {
                m
            },
        }
    }
}

/// Every character of every word accepted for training from `src`.
pub open spec fn trained_alphabet(src: Seq<(Seq<char>, u64)>) -> Set<char>
    decreases src.len(),
{
    if src.len() == 0 {
        Set::empty()
    } else {
        let a = trained_alphabet(src.drop_last());
        match training_word_of(src.last().0) {
            None => a,
            Some(w) => a + w.to_set(),
        }
    }
}

proof fn lemma_trains_prefix(src: Seq<(Seq<char>, u64)>, k: int)
    requires
        0 <= k <= src.len(),
        trains_without_overflow(src),
    ensures
        trains_without_overflow(src.take(k)),
    decreases src.len(),
{
    if k == src.len() {
        assert(src.take(k) =~= src);
    } else {
        lemma_trains_prefix(src.drop_last(), k);
        assert(src.drop_last().take(k) =~= src.take(k));
    }
}

/// The word table of a model trained on `(word, corpus count)` entries: the
/// accepted words with their summed counts, the largest total, and the
/// alphabet. `None` when the counts of some word add up past a `u64`, where no
/// table can be built.
pub fn word_table_of(source: &[(String, u64)]) -> (r: Option<WordTable>)
    ensures
        r is Some <==> trains_without_overflow(entries_view(source@)),
        r matches Some(t) ==> {
            &&& t.counts() == trained_counts(entries_view(source@))
            &&& t.spec_max_count() == trained_max(entries_view(source@))
            &&& t.alphabet() == trained_alphabet(entries_view(source@))
        },
{
    let ghost ev = entries_view(source@);
    let mut t = WordTable::new();
    let mut i: usize = 0;
    while i < source.len()
        invariant
            i <= source@.len(),
            ev == entries_view(source@),
            trains_without_overflow(ev.take(i as int)),
            t.counts() == trained_counts(ev.take(i as int)),
            t.spec_max_count() == trained_max(ev.take(i as int)),
            t.alphabet() == trained_alphabet(ev.take(i as int)),
        decreases source@.len() - i,
    {
        let raw = &source[i].0;
        let count = source[i].1;
        let ghost pre = ev.take(i as int);
        proof {
            assert(ev.take(i + 1).drop_last() =~= pre);
            assert(ev.take(i + 1).last() == (raw@, count));
        }
        match training_word(raw.as_str()) {
            None => {},
            Some(w) => {
                match t.count_of(&w) {
                    Some(existing) => {
                        if existing > u64::MAX - count {
                            proof {
                                if trains_without_overflow(ev) {
                                    lemma_trains_prefix(ev, i + 1);
                                }
                            }
                            return None;
                        }
                    },
                    None => {},
                }
                t.add(w, count);
            },
        }
        i = i + 1;
    }
    assert(ev.take(source@.len() as int) =~= ev);
    Some(t)
}

/// Whether `c` is a lowercase letter of `script`'s alphabet: `a` to `z` for
/// Latin, `а` to `я` and `ё` for Cyrillic.
pub open spec fn letter_of(c: char, script: Script) -> bool {
    match script {
        Script::Latin => 'a' <= c <= 'z',
        Script::Cyrillic => ('а' <= c <= 'я') || c == 'ё',
    }
}

/// Whether a held-out corpus word is usable for measuring `script`: at least
/// three letters, all lowercase letters of that script. Corpora leak the other
/// alphabet freely (brand names, song titles), and such entries would teach a
/// model to accept the very script it exists to reject.
pub open spec fn fits_script(word: Seq<char>, script: Script) -> bool {
    word.len() >= 3 && forall|i: int| 0 <= i < word.len() ==> letter_of(#[trigger] word[i], script)
}

pub fn word_fits_script(word: &str, script: Script) -> (r: bool)
    ensures
        r == fits_script(word@, script),
{
    let chars = chars_of(word);
    if chars.len() < 3 {
        return false;
    }
    let mut i: usize = 0;
    while i < chars.len()
        invariant
            i <= chars@.len(),
            chars@ == word@,
            forall|j: int| 0 <= j < i ==> letter_of(#[trigger] chars@[j], script),
        decreases chars@.len() - i,
    {
        let c = chars[i];
        let ok = match script {
            Script::Latin => 'a' <= c && c <= 'z',
            Script::Cyrillic => ('а' <= c && c <= 'я') || c == 'ё',
        };
        if !ok {
            assert(!letter_of(word@[i as int], script));
            return false;
        }
        i = i + 1;
    }
    true
}

/// Which held-out words measure a script: exactly those of three or more
/// characters, every one a lowercase letter of the script, `a` to `z` for
/// Latin and `а` to `я` or `ё` for Cyrillic.
pub proof fn law_words_that_fit_a_script(word: Seq<char>, script: Script)
    ensures
        fits_script(word, script) <==> {
            &&& word.len() >= 3
            &&& forall|i: int|
                0 <= i < word.len() ==> match script {
                    Script::Latin => 'a' <= #[trigger] word[i] && word[i] <= 'z',
                    Script::Cyrillic => ('а' <= #[trigger] word[i] && word[i] <= 'я') || word[i] == 'ё',
                }
        },
{
}

} // verus!
