//! Everything the correction engine is forbidden to touch.
//!
//! The governing rule is to fail closed: every uncertainty resolves to a
//! block. Leaving a word alone costs the user one keystroke; mangling a
//! password costs them an account.

use vstd::prelude::*;

use crate::text::{
    alphabetic, ascii_digit, chars_of, is_alphabetic, is_ascii_digit, is_uppercase, lowercase,
    to_lowercase, uppercase,
};

verus! {

/// Why a token was left alone. Carried rather than discarded so the settings
/// UI can explain a non-correction instead of looking broken.
#[derive(Copy, Clone, PartialEq, Eq, Debug, Structural)]
pub enum Reason {
    /// The focused field is a password field, or it could not be proved not to be.
    SecureField,
    /// The foreground application is on the block list.
    BlockedApp,
    /// The user rejected this correction before.
    UserException,
    /// Too short to carry a reliable signal.
    TooShort,
    /// Long enough to be a secret rather than a word.
    TooLong,
    /// Contains `@`: an email address or a handle.
    Address,
    /// Contains a path or URL separator.
    UrlOrPath,
    /// Contains a digit: an identifier, a version, or a credential.
    HasDigit,
    /// Contains `_`: a code identifier.
    Identifier,
    /// Internal capital letters: camelCase or a random secret.
    InternalCapital,
    /// Capitalised mid-sentence: most likely a name.
    ProperNoun,
}

#[derive(Copy, Clone, PartialEq, Eq, Debug, Structural)]
pub enum Verdict {
    Allow,
    Block(Reason),
}

impl Verdict {
    pub fn is_allowed(self) -> (r: bool)
        ensures
            r == (self is Allow),
    {
        match self {
            Verdict::Allow => true,
            Verdict::Block(_) => false,
        }
    }
}

/// What the platform layer managed to learn about where the user is typing.
#[derive(Copy, Clone, Debug)]
pub struct Context {
    /// `Some(false)` only when the platform positively determined the focused
    /// field is *not* a password field. `None` means it could not tell, which
    /// is treated exactly like `Some(true)`.
    pub is_password_field: Option<bool>,
    /// Foreground app is on the user's block list.
    pub app_blocked: bool,
    /// This token begins a sentence, so a leading capital is unremarkable.
    pub sentence_initial: bool,
}

impl Default for Context {
    /// The safe context: assume a password field until proven otherwise.
    fn default() -> (c: Self)
        ensures
            c.is_password_field is None,
            !c.app_blocked,
            !c.sentence_initial,
    {
        Context { is_password_field: None, app_blocked: false, sentence_initial: false }
    }
}

/// Under this many characters there is not enough signal to beat the
/// false-positive budget, whichever way the word is rendered.
pub const MIN_TOKEN_LEN: usize = 4;

/// Ordinary Russian and English words are comfortably under this; past it a
/// token is far more likely to be a secret.
pub const MAX_TOKEN_LEN: usize = 24;

/// How capitalisation judges a token from the classes of its characters
/// (for each, whether it is alphabetic and whether it is uppercase): all-caps
/// is shouting and stays correctable; a capital after the first character is
/// camelCase or a generated secret; a leading capital away from a sentence
/// start is a name.
pub open spec fn capitalisation_of(classes: Seq<(bool, bool)>, sentence_initial: bool) -> Verdict {
    if classes.len() == 0 {
        Verdict::Block(Reason::TooShort)
    } else if forall|i: int| 0 <= i < classes.len() && (#[trigger] classes[i]).0 ==> classes[i].1 {
        Verdict::Allow
    } else if exists|i: int| 1 <= i < classes.len() && (#[trigger] classes[i]).1 {
        Verdict::Block(Reason::InternalCapital)
    } else if classes[0].1 && !sentence_initial {
        Verdict::Block(Reason::ProperNoun)
    } else {
        Verdict::Allow
    }
}

/// The classes of the characters of `t`: whether each is alphabetic and
/// whether it is uppercase, as std's character tables say.
pub open spec fn classes_of(t: Seq<char>) -> Seq<(bool, bool)> {
    t.map_values(|c: char| (alphabetic(c), uppercase(c)))
}

/// How capitalisation judges token `t` in context `ctx`.
pub open spec fn capitalisation_verdict(t: Seq<char>, ctx: Context) -> Verdict {
    capitalisation_of(classes_of(t), ctx.sentence_initial)
}

/// The capitalisation verdict on a token whose characters have the classes
/// `classes` (alphabetic, uppercase), typed in context `ctx`.
pub fn capitalisation_from_classes(classes: &[(bool, bool)], ctx: &Context) -> (v: Verdict)
    ensures
        v == capitalisation_of(classes@, ctx.sentence_initial),
{
    let len = classes.len();
    if len == 0 {
        return Verdict::Block(Reason::TooShort);
    }
    // All-caps is shouting, not a secret. Leave it correctable.
    let mut all_upper = true;
    let mut i: usize = 0;
    while i < len
        invariant
            len == classes@.len(),
            i <= len,
            all_upper == forall|j: int| 0 <= j < i && (#[trigger] classes@[j]).0 ==> classes@[j].1,
        decreases len - i,
    {
        if classes[i].0 && !classes[i].1 {
            all_upper = false;
        }
        i = i + 1;
    }
    if all_upper {
        return Verdict::Allow;
    }
    // A capital anywhere but the front means camelCase or a generated token.
    let mut inner_capital = false;
    let mut j: usize = 1;
    while j < len
        invariant
            len == classes@.len(),
            1 <= j <= len,
            inner_capital == exists|k: int| 1 <= k < j && (#[trigger] classes@[k]).1,
        decreases len - j,
    {
        if classes[j].1 {
            inner_capital = true;
        }
        j = j + 1;
    }
    if inner_capital {
        return Verdict::Block(Reason::InternalCapital);
    }
    // A leading capital away from a sentence boundary reads as a name.
    if classes[0].1 && !ctx.sentence_initial {
        return Verdict::Block(Reason::ProperNoun);
    }
    Verdict::Allow
}

/// Whether some character of `t` is an ASCII digit.
pub open spec fn has_ascii_digit(t: Seq<char>) -> bool {
    exists|i: int| 0 <= i < t.len() && ascii_digit(#[trigger] t[i])
}

/// The verdict on token `t` given the user's rejected words (lowercased) and
/// the typing context; the checks run cheapest-and-most-serious first.
pub open spec fn verdict_for(exceptions: Set<Seq<char>>, t: Seq<char>, ctx: Context) -> Verdict {
    if ctx.app_blocked {
        Verdict::Block(Reason::BlockedApp)
    } else if ctx.is_password_field != Some(false) {
        Verdict::Block(Reason::SecureField)
    } else if exceptions.contains(lowercase(t)) {
        Verdict::Block(Reason::UserException)
    } else if t.len() < MIN_TOKEN_LEN {
        Verdict::Block(Reason::TooShort)
    } else if t.len() > MAX_TOKEN_LEN {
        Verdict::Block(Reason::TooLong)
    } else if t.contains('@') {
        Verdict::Block(Reason::Address)
    } else if t.contains('/') || t.contains('\\') || t.contains(':') {
        Verdict::Block(Reason::UrlOrPath)
    } else if has_ascii_digit(t) {
        Verdict::Block(Reason::HasDigit)
    } else if t.contains('_') {
        Verdict::Block(Reason::Identifier)
    } else {
        capitalisation_verdict(t, ctx)
    }
}

/// Whether `c` occurs in `v`.
fn contains_char(v: &[char], c: char) -> (r: bool)
    ensures
        r == v@.contains(c),
{
    let mut i: usize = 0;
    while i < v.len()
        invariant
            i <= v@.len(),
            forall|j: int| 0 <= j < i ==> v@[j] != c,
        decreases v@.len() - i,
    {
        if v[i] == c {
            return true;
        }
        i = i + 1;
    }
    false
}

pub struct Guards {
    /// Words the user has rejected, lowercased. This is the only user-typed
    /// text the program ever writes to disk, and the settings UI must be able
    /// to show and clear it.
    exceptions: Vec<String>,
}

impl Default for Guards {
    fn default() -> (g: Self)
        ensures
            g.exception_set() == Set::<Seq<char>>::empty(),
    {
        let g = Guards { exceptions: Vec::new() };
        assert(g.exception_set() =~= Set::<Seq<char>>::empty());
        g
    }
}

impl Guards {
    #[verifier::type_invariant]
    closed spec fn inv(self) -> bool {
        forall|i: int, j: int|
            0 <= i < j < self.exceptions@.len() ==> #[trigger] self.exceptions@[i]@
                != #[trigger] self.exceptions@[j]@
    }

    /// The rejected words, lowercased.
    pub closed spec fn exception_set(&self) -> Set<Seq<char>> {
        Set::new(|w: Seq<char>| exists|i: int| 0 <= i < self.exceptions@.len() && #[trigger] self.exceptions@[i]@ == w)
    }

    pub fn new() -> (g: Self)
        ensures
            g.exception_set() == Set::<Seq<char>>::empty(),
    {
        Self::default()
    }

    fn has_exception(&self, lower: &String) -> (r: bool)
        ensures
            r == self.exception_set().contains(lower@),
    {
        let mut i: usize = 0;
        while i < self.exceptions.len()
            invariant
                i <= self.exceptions@.len(),
                forall|j: int| 0 <= j < i ==> self.exceptions@[j]@ != lower@,
            decreases self.exceptions@.len() - i,
        {
            if self.exceptions[i] == *lower {
                assert(self.exceptions@[i as int]@ == lower@);
                return true;
            }
            i = i + 1;
        }
        false
    }

    /// Record a correction the user undid.
    pub fn add_exception(&mut self, word: &str)
        ensures
            final(self).exception_set() == old(self).exception_set().insert(lowercase(word@)),
    {
        proof {
            use_type_invariant(&*self);
        }
        let lower = to_lowercase(word);
        if self.has_exception(&lower) {
            assert(old(self).exception_set().insert(lowercase(word@)) =~= old(self).exception_set());
            return;
        }
        let mut exceptions = Vec::new();
        std::mem::swap(&mut exceptions, &mut self.exceptions);
        let ghost before = exceptions@;
        exceptions.push(lower);
        assert forall|i: int, j: int|
            0 <= i < j < exceptions@.len() implies #[trigger] exceptions@[i]@
                != #[trigger] exceptions@[j]@ by {
            if j == before.len() {
                assert(old(self).exceptions@[i]@ != lowercase(word@));
            } else {
                assert(exceptions@[i] == old(self).exceptions@[i]);
                assert(exceptions@[j] == old(self).exceptions@[j]);
            }
        }
        self.exceptions = exceptions;
        assert(self.exception_set() =~= old(self).exception_set().insert(lowercase(word@))) by {
            assert forall|w: Seq<char>| #[trigger] self.exception_set().contains(w)
                == old(self).exception_set().insert(lowercase(word@)).contains(w) by {
                if old(self).exception_set().contains(w) {
                    let i = choose|i: int| 0 <= i < old(self).exceptions@.len() && #[trigger] old(self).exceptions@[i]@ == w;
                    assert(self.exceptions@[i] == old(self).exceptions@[i]);
                }
                if w == lowercase(word@) {
                    assert(self.exceptions@[before.len() as int]@ == w);
                }
                if self.exception_set().contains(w) {
                    let i = choose|i: int| 0 <= i < self.exceptions@.len() && #[trigger] self.exceptions@[i]@ == w;
                    if i < before.len() {
                        assert(self.exceptions@[i] == old(self).exceptions@[i]);
                    }
                }
            }
        }
    }

    /// The rejected words, lowercased, each once.
    pub fn exceptions(&self) -> (r: Vec<String>)
        ensures
            forall|w: Seq<char>| self.exception_set().contains(w) <==> exists|i: int| 0 <= i < r@.len() && #[trigger] r@[i]@ == w,
            forall|i: int, j: int| 0 <= i < j < r@.len() ==> #[trigger] r@[i]@ != #[trigger] r@[j]@,
    {
        proof {
            use_type_invariant(self);
        }
        let mut r: Vec<String> = Vec::new();
        let mut i: usize = 0;
        while i < self.exceptions.len()
            invariant
                i <= self.exceptions@.len(),
                r@.len() == i,
                forall|j: int| 0 <= j < i ==> #[trigger] r@[j]@ == self.exceptions@[j]@,
                forall|a: int, b: int| 0 <= a < b < self.exceptions@.len() ==> #[trigger] self.exceptions@[a]@
                    != #[trigger] self.exceptions@[b]@,
            decreases self.exceptions@.len() - i,
        {
            r.push(self.exceptions[i].clone());
            i = i + 1;
        }
        assert forall|w: Seq<char>| self.exception_set().contains(w) <==> exists|i: int| 0 <= i < r@.len() && #[trigger] r@[i]@ == w by {
            if self.exception_set().contains(w) {
                let k = choose|k: int| 0 <= k < self.exceptions@.len() && #[trigger] self.exceptions@[k]@ == w;
                assert(r@[k]@ == w);
            }
            if exists|i: int| 0 <= i < r@.len() && #[trigger] r@[i]@ == w {
                let k = choose|k: int| 0 <= k < r@.len() && #[trigger] r@[k]@ == w;
                assert(self.exceptions@[k]@ == w);
            }
        }
        assert forall|a: int, b: int| 0 <= a < b < r@.len() implies #[trigger] r@[a]@ != #[trigger] r@[b]@ by {
            assert(r@[a]@ == self.exceptions@[a]@);
            assert(r@[b]@ == self.exceptions@[b]@);
        }
        r
    }

    pub fn clear_exceptions(&mut self)
        ensures
            final(self).exception_set() == Set::<Seq<char>>::empty(),
    {
        self.exceptions = Vec::new();
        assert(self.exception_set() =~= Set::<Seq<char>>::empty());
    }

    /// Decide whether `token`, as the user typed it, may be corrected at all.
    ///
    /// Ordered cheapest-and-most-serious first, so the common rejection paths
    /// cost almost nothing on the typing hot path.
    pub fn check(&self, token: &str, ctx: &Context) -> (v: Verdict)
        ensures
            v == verdict_for(self.exception_set(), token@, *ctx),
    {
        if ctx.app_blocked {
            return Verdict::Block(Reason::BlockedApp);
        }
        // Anything other than a positive "not a password" blocks.
        match ctx.is_password_field {
            Some(false) => {},
            _ => {
                return Verdict::Block(Reason::SecureField);
            },
        }
        let lower = to_lowercase(token);
        if self.has_exception(&lower) {
            return Verdict::Block(Reason::UserException);
        }
        let chars = chars_of(token);
        let len = chars.len();
        if len < MIN_TOKEN_LEN {
            return Verdict::Block(Reason::TooShort);
        }
        if len > MAX_TOKEN_LEN {
            return Verdict::Block(Reason::TooLong);
        }
        if contains_char(&chars, '@') {
            return Verdict::Block(Reason::Address);
        }
        if contains_char(&chars, '/') || contains_char(&chars, '\\') || contains_char(&chars, ':') {
            return Verdict::Block(Reason::UrlOrPath);
        }
        let mut has_digit = false;
        let mut i: usize = 0;
        while i < len
            invariant
                len == chars@.len(),
                chars@ == token@,
                i <= len,
                has_digit == exists|j: int| 0 <= j < i && ascii_digit(#[trigger] chars@[j]),
            decreases len - i,
        {
            if is_ascii_digit(chars[i]) {
                has_digit = true;
            }
            i = i + 1;
        }
        if has_digit {
            return Verdict::Block(Reason::HasDigit);
        }
        if contains_char(&chars, '_') {
            return Verdict::Block(Reason::Identifier);
        }
        Self::check_capitalisation(&chars, ctx)
    }

    /// Capitalisation carries most of the "this belongs to the user" signal:
    /// names, camelCase identifiers and random secrets all show up here.
    fn check_capitalisation(token: &[char], ctx: &Context) -> (v: Verdict)
        ensures
            v == capitalisation_verdict(token@, *ctx),
    {
        let mut classes: Vec<(bool, bool)> = Vec::new();
        let mut i: usize = 0;
        while i < token.len()
            invariant
                i <= token@.len(),
                classes@.len() == i,
                forall|j: int| 0 <= j < i ==> #[trigger] classes@[j] == (alphabetic(token@[j]), uppercase(token@[j])),
            decreases token@.len() - i,
        {
            classes.push((is_alphabetic(token[i]), is_uppercase(token[i])));
            i = i + 1;
        }
        assert(classes@ =~= classes_of(token@));
        capitalisation_from_classes(&classes, ctx)
    }
}

/// Fail closed: a token is never cleared for correction in a blocked
/// application, nor in a field the platform has not positively shown to be
/// ordinary text.
pub proof fn law_fail_closed(exceptions: Set<Seq<char>>, t: Seq<char>, ctx: Context)
    ensures
        ctx.app_blocked ==> verdict_for(exceptions, t, ctx) == Verdict::Block(Reason::BlockedApp),
        !ctx.app_blocked && ctx.is_password_field != Some(false) ==> verdict_for(exceptions, t, ctx)
            == Verdict::Block(Reason::SecureField),
{
}

/// A rejected word is never offered again: once a word is recorded as an
/// exception, no spelling of it that lowercases the same way is allowed.
pub proof fn law_rejected_word_is_never_offered_again(
    exceptions: Set<Seq<char>>,
    word: Seq<char>,
    t: Seq<char>,
    ctx: Context,
)
    requires
        lowercase(t) == lowercase(word),
    ensures
        verdict_for(exceptions.insert(lowercase(word)), t, ctx) is Block,
{
}

/// What an allowed token looks like: typed in ordinary text outside a blocked
/// application, not rejected before, between the length bounds, and free of
/// the characters that mark addresses, paths, identifiers and credentials.
pub proof fn law_allowed_tokens_are_plain_words(exceptions: Set<Seq<char>>, t: Seq<char>, ctx: Context)
    requires
        verdict_for(exceptions, t, ctx) == Verdict::Allow,
    ensures
        !ctx.app_blocked,
        ctx.is_password_field == Some(false),
        !exceptions.contains(lowercase(t)),
        MIN_TOKEN_LEN <= t.len() <= MAX_TOKEN_LEN,
        !t.contains('@') && !t.contains('/') && !t.contains('\\') && !t.contains(':') && !t.contains('_'),
        forall|i: int| 0 <= i < t.len() ==> !ascii_digit(#[trigger] t[i]),
{
}

/// The character classes of a token are those of its characters, position
/// by position.
proof fn lemma_classes_of(t: Seq<char>)
    ensures
        classes_of(t).len() == t.len(),
        forall|i: int| 0 <= i < t.len() ==> #[trigger] classes_of(t)[i] == (alphabetic(t[i]), uppercase(t[i])),
{
}

/// The guards are complete: an ordinary word is never blocked. In a field the
/// platform has shown to be ordinary text, outside a blocked application, a
/// token the user has not rejected, of 4 to 24 characters, with none of `@`,
/// `/`, `\`, `:`, `_` or an ASCII digit, and with no capital after its first
/// character (and a leading capital only at a sentence start) is allowed.
pub proof fn law_plain_words_are_allowed(exceptions: Set<Seq<char>>, t: Seq<char>, ctx: Context)
    requires
        !ctx.app_blocked,
        ctx.is_password_field == Some(false),
        !exceptions.contains(lowercase(t)),
        4 <= t.len() <= 24,
        forall|i: int|
            0 <= i < t.len() ==> {
                let c = #[trigger] t[i];
                &&& c != '@' && c != '/' && c != '\\' && c != ':' && c != '_'
                &&& !('0' <= c && c <= '9')
            },
        forall|i: int| 1 <= i < t.len() ==> !uppercase(#[trigger] t[i]),
        uppercase(t[0]) ==> ctx.sentence_initial,
    ensures
        verdict_for(exceptions, t, ctx) == Verdict::Allow,
{
    lemma_classes_of(t);
    assert(!t.contains('@'));
    assert(!t.contains('/'));
    assert(!t.contains('\\'));
    assert(!t.contains(':'));
    assert(!t.contains('_'));
    assert(!has_ascii_digit(t));
    let cl = classes_of(t);
    assert(!(exists|i: int| 1 <= i < cl.len() && (#[trigger] cl[i]).1));
    assert(cl[0].1 == uppercase(t[0]));
}

/// Shouting is not a secret: a plain token (as in `law_plain_words_are_allowed`)
/// whose letters are all capitals is allowed wherever it stands.
pub proof fn law_shouted_words_are_allowed(exceptions: Set<Seq<char>>, t: Seq<char>, ctx: Context)
    requires
        !ctx.app_blocked,
        ctx.is_password_field == Some(false),
        !exceptions.contains(lowercase(t)),
        4 <= t.len() <= 24,
        forall|i: int|
            0 <= i < t.len() ==> {
                let c = #[trigger] t[i];
                &&& c != '@' && c != '/' && c != '\\' && c != ':' && c != '_'
                &&& !('0' <= c && c <= '9')
            },
        forall|i: int| 0 <= i < t.len() && alphabetic(#[trigger] t[i]) ==> uppercase(t[i]),
    ensures
        verdict_for(exceptions, t, ctx) == Verdict::Allow,
{
    lemma_classes_of(t);
    assert(!t.contains('@'));
    assert(!t.contains('/'));
    assert(!t.contains('\\'));
    assert(!t.contains(':'));
    assert(!t.contains('_'));
    assert(!has_ascii_digit(t));
    let cl = classes_of(t);
    assert forall|i: int| 0 <= i < cl.len() && (#[trigger] cl[i]).0 implies cl[i].1 by {
        assert(cl[i] == (alphabetic(t[i]), uppercase(t[i])));
    }
}

} // verus!
