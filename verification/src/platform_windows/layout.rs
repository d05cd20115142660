//! Mapping Windows keyboard-layout handles (HKLs) to the supported layouts.
//!
//! The low 16 bits of a handle are its language identifier; that is all this
//! module reads of one.

use vstd::prelude::*;

use crate::layout::LayoutId;

verus! {

/// Language identifier of English (United States).
pub const LANG_ENGLISH_US: usize = 0x0409;

/// Language identifier of Russian.
pub const LANG_RUSSIAN: usize = 0x0419;

/// The language identifier of a keyboard-layout handle: its low 16 bits.
pub open spec fn language_of(hkl: usize) -> usize {
    hkl & 0xFFFF
}

/// The supported layout a language identifier stands for, if any.
pub open spec fn layout_of_language(lang: usize) -> Option<LayoutId> {
    if lang == LANG_ENGLISH_US {
        Some(LayoutId::UsQwerty)
    } else if lang == LANG_RUSSIAN {
        Some(LayoutId::RuYcuken)
    } else {
        None
    }
}

/// The language identifier a layout is requested by.
pub open spec fn language_for(target: LayoutId) -> usize {
    match target {
        LayoutId::UsQwerty => LANG_ENGLISH_US,
        LayoutId::RuYcuken => LANG_RUSSIAN,
    }
}

/// The supported layout a language identifier stands for (Turkish, German and
/// the rest are left alone).
pub fn layout_for_language(lang: usize) -> (r: Option<LayoutId>)
    ensures
        r == layout_of_language(lang),
{
    if lang == LANG_ENGLISH_US {
        Some(LayoutId::UsQwerty)
    } else if lang == LANG_RUSSIAN {
        Some(LayoutId::RuYcuken)
    } else {
        None
    }
}

/// The supported layouts among the installed handles, each once, in the
/// order their first handle appears.
pub open spec fn installed_from(hkls: Seq<usize>) -> Seq<LayoutId>
    decreases hkls.len(),
{
    if hkls.len() == 0 {
        Seq::empty()
    } else {
        let before = installed_from(hkls.drop_last());
        match layout_of_language(language_of(hkls.last())) {
            Some(id) => if before.contains(id) {
                before
            } else {
                before.push(id)
            },
            None => before,
        }
    }
}

/// The supported layouts among the installed keyboard-layout handles.
pub fn get_installed_layouts(hkls: &[usize]) -> (r: Vec<LayoutId>)
    ensures
        r@ == installed_from(hkls@),
{
    let mut layouts: Vec<LayoutId> = Vec::new();
    let mut i: usize = 0;
    while i < hkls.len()
        invariant
            i <= hkls@.len(),
            layouts@ == installed_from(hkls@.take(i as int)),
        decreases hkls@.len() - i,
    {
        assert(hkls@.take(i + 1).drop_last() =~= hkls@.take(i as int));
        let lang = hkls[i] & 0xFFFF;
        match layout_for_language(lang) {
            Some(id) => {
                let mut present = false;
                let mut j: usize = 0;
                while j < layouts.len()
                    invariant
                        j <= layouts@.len(),
                        present == exists|k: int| 0 <= k < j && layouts@[k] == id,
                    decreases layouts@.len() - j,
                {
                    if layouts[j] == id {
                        present = true;
                    }
                    j = j + 1;
                }
                if !present {
                    layouts.push(id);
                }
            },
            None => {},
        }
        i = i + 1;
    }
    assert(hkls@.take(hkls@.len() as int) =~= hkls@);
    layouts
}

/// Why a layout switch could not be requested.
#[derive(Copy, Clone, PartialEq, Eq, Debug, Structural)]
pub enum SwitchError {
    /// There is no window to switch.
    InvalidWindow,
    /// The system reports no installed keyboard layout.
    NoLayouts,
    /// The requested layout is not installed.
    NotInstalled,
    /// The switch request could not be posted to the window.
    NotPosted,
}

impl SwitchError {
    /// The message the backend reports for this failure.
    pub fn message(self) -> (m: String)
        ensures
            m@ == match self {
                SwitchError::InvalidWindow => "Geçersiz HWND"@,
                SwitchError::NoLayouts => "Kurulu klavye düzeni bulunamadı"@,
                SwitchError::NotInstalled => "İstenen klavye düzeni sistemde kurulu değil"@,
                SwitchError::NotPosted => "WM_INPUTLANGCHANGEREQUEST gönderilemedi"@,
            },
    {
        match self {
            SwitchError::InvalidWindow => String::from_str("Geçersiz HWND"),
            SwitchError::NoLayouts => String::from_str("Kurulu klavye düzeni bulunamadı"),
            SwitchError::NotInstalled => String::from_str("İstenen klavye düzeni sistemde kurulu değil"),
            SwitchError::NotPosted => String::from_str("WM_INPUTLANGCHANGEREQUEST gönderilemedi"),
        }
    }
}

/// The index of the first handle at or after `i` whose language is `lang`,
/// or `hkls.len()`.
pub open spec fn first_handle_from(hkls: Seq<usize>, lang: usize, i: int) -> int
    decreases hkls.len() - i,
{
    if i < 0 || i >= hkls.len() {
        hkls.len() as int
    } else if language_of(hkls[i]) == lang {
        i
    } else {
        first_handle_from(hkls, lang, i + 1)
    }
}

/// The handle to request for `target`: the first installed handle of its
/// language. `count` is the number of layouts the system reported and `hkls`
/// the handles it then handed over.
pub open spec fn handle_for(count: i32, hkls: Seq<usize>, target: LayoutId) -> Result<usize, SwitchError> {
    if count <= 0 {
        Err(SwitchError::NoLayouts)
    } else if first_handle_from(hkls, language_for(target), 0) < hkls.len() {
        Ok(hkls[first_handle_from(hkls, language_for(target), 0)])
    } else {
        Err(SwitchError::NotInstalled)
    }
}

/// The keyboard-layout handle to request when switching to `target`.
pub fn layout_handle_for(count: i32, hkls: &[usize], target: LayoutId) -> (r: Result<usize, SwitchError>)
    ensures
        r == handle_for(count, hkls@, target),
{
    if count <= 0 {
        return Err(SwitchError::NoLayouts);
    }
    let lang: usize = match target {
        LayoutId::UsQwerty => LANG_ENGLISH_US,
        LayoutId::RuYcuken => LANG_RUSSIAN,
    };
    let mut i: usize = 0;
    while i < hkls.len()
        invariant
            i <= hkls@.len(),
            count > 0,
            lang == language_for(target),
            first_handle_from(hkls@, lang, 0) == first_handle_from(hkls@, lang, i as int),
        decreases hkls@.len() - i,
    {
        if hkls[i] & 0xFFFF == lang {
            return Ok(hkls[i]);
        }
        i = i + 1;
    }
    Err(SwitchError::NotInstalled)
}

/// The first step of a layout switch: a null window handle cannot be asked
/// to change its layout.
pub fn check_window(window: isize) -> (r: Result<(), SwitchError>)
    ensures
        r == if window == 0 {
            Err::<(), SwitchError>(SwitchError::InvalidWindow)
        } else {
            Ok(())
        },
{
    if window == 0 {
        Err(SwitchError::InvalidWindow)
    } else {
        Ok(())
    }
}

/// The last step of a layout switch: whether posting the change request to
/// the window succeeded decides the outcome.
pub fn post_outcome(posted: bool) -> (r: Result<(), SwitchError>)
    ensures
        r == if posted {
            Ok::<(), SwitchError>(())
        } else {
            Err(SwitchError::NotPosted)
        },
{
    if posted {
        Ok(())
    } else {
        Err(SwitchError::NotPosted)
    }
}

/// The language identifier a layout is requested by, as a number: 0x0409
/// for US English, 0x0419 for Russian.
pub open spec fn requested_language(target: LayoutId) -> int {
    match target {
        LayoutId::UsQwerty => 0x0409,
        LayoutId::RuYcuken => 0x0419,
    }
}

proof fn lemma_language_is_low_bits(h: usize)
    ensures
        language_of(h) as int == (h as int) % 0x10000,
{
    assert(h & 0xFFFF == h % 0x10000) by (bit_vector);
}

proof fn lemma_first_handle_at(hkls: Seq<usize>, lang: usize, i: int, k: int)
    requires
        0 <= i <= k < hkls.len(),
        language_of(hkls[k]) == lang,
        forall|j: int| i <= j < k ==> language_of(#[trigger] hkls[j]) != lang,
    ensures
        first_handle_from(hkls, lang, i) == k,
    decreases k - i,
{
    if i < k {
        lemma_first_handle_at(hkls, lang, i + 1, k);
    }
}

proof fn lemma_no_handle(hkls: Seq<usize>, lang: usize, i: int)
    requires
        0 <= i <= hkls.len(),
        forall|j: int| i <= j < hkls.len() ==> language_of(#[trigger] hkls[j]) != lang,
    ensures
        first_handle_from(hkls, lang, i) == hkls.len(),
    decreases hkls.len() - i,
{
    if i < hkls.len() {
        lemma_no_handle(hkls, lang, i + 1);
    }
}

/// The handle requested for a layout is the first installed handle whose low
/// 16 bits are that layout's language (0x0409 for US, 0x0419 for Russian);
/// with none, the layout is not installed, and with no layouts reported at
/// all, there are none.
pub proof fn law_switch_requests_the_first_matching_handle(count: i32, hkls: Seq<usize>, target: LayoutId, k: int)
    ensures
        count <= 0 ==> handle_for(count, hkls, target) == Err::<usize, SwitchError>(SwitchError::NoLayouts),
        count > 0 && 0 <= k < hkls.len() && (hkls[k] as int) % 0x10000 == requested_language(target) && (forall|j: int|
            0 <= j < k ==> (#[trigger] hkls[j] as int) % 0x10000 != requested_language(target)) ==> handle_for(
            count,
            hkls,
            target,
        ) == Ok::<usize, SwitchError>(hkls[k]),
        count > 0 && (forall|j: int| 0 <= j < hkls.len() ==> (#[trigger] hkls[j] as int) % 0x10000 != requested_language(target))
            ==> handle_for(count, hkls, target) == Err::<usize, SwitchError>(SwitchError::NotInstalled),
{
    let lang = language_for(target);
    assert forall|j: int| 0 <= j < hkls.len() implies (language_of(#[trigger] hkls[j]) == lang) == ((hkls[j] as int)
        % 0x10000 == requested_language(target)) by {
        lemma_language_is_low_bits(hkls[j]);
    }
    if count > 0 && 0 <= k < hkls.len() && (hkls[k] as int) % 0x10000 == requested_language(target) && (forall|j: int|
        0 <= j < k ==> (#[trigger] hkls[j] as int) % 0x10000 != requested_language(target)) {
        lemma_first_handle_at(hkls, lang, 0, k);
    }
    if count > 0 && (forall|j: int| 0 <= j < hkls.len() ==> (#[trigger] hkls[j] as int) % 0x10000 != requested_language(target)) {
        lemma_no_handle(hkls, lang, 0);
    }
}

/// The installed layouts list every supported layout with an installed
/// handle, and only those, each once.
pub proof fn law_installed_layouts_are_exact(hkls: Seq<usize>)
    ensures
        forall|id: LayoutId| #[trigger] installed_from(hkls).contains(id) <==> exists|i: int|
            0 <= i < hkls.len() && layout_of_language(language_of(#[trigger] hkls[i])) == Some(id),
        forall|a: int, b: int|
            0 <= a < b < installed_from(hkls).len() ==> installed_from(hkls)[a] != installed_from(hkls)[b],
    decreases hkls.len(),
{
    if hkls.len() > 0 {
        let init = hkls.drop_last();
        let before = installed_from(init);
        let last = hkls.last();
        law_installed_layouts_are_exact(init);
        assert(hkls[hkls.len() - 1] == last);
        match layout_of_language(language_of(last)) {
            Some(x) => {
                if !before.contains(x) {
                    assert(installed_from(hkls) == before.push(x));
                    assert forall|a: int, b: int|
                        0 <= a < b < installed_from(hkls).len() implies installed_from(hkls)[a]
                            != installed_from(hkls)[b] by {
                        if b == before.len() {
                            assert(installed_from(hkls)[b] == x);
                            assert(installed_from(hkls)[a] == before[a]);
                        } else {
                            assert(installed_from(hkls)[a] == before[a]);
                            assert(installed_from(hkls)[b] == before[b]);
                        }
                    }
                } else {
                    assert(installed_from(hkls) == before);
                }
            },
            None => {
                assert(installed_from(hkls) == before);
            },
        }
        assert forall|id: LayoutId| #[trigger] installed_from(hkls).contains(id) <==> exists|i: int|
            0 <= i < hkls.len() && layout_of_language(language_of(#[trigger] hkls[i])) == Some(id) by {
            if before.contains(id) {
                let i = choose|i: int| 0 <= i < init.len() && layout_of_language(language_of(#[trigger] init[i])) == Some(id);
                assert(hkls[i] == init[i]);
            }
            if installed_from(hkls).contains(id) && !before.contains(id) {
                let k = choose|k: int| 0 <= k < installed_from(hkls).len() && installed_from(hkls)[k] == id;
                assert(layout_of_language(language_of(last)) == Some(id));
            }
            if exists|i: int| 0 <= i < hkls.len() && layout_of_language(language_of(#[trigger] hkls[i])) == Some(id) {
                let i = choose|i: int| 0 <= i < hkls.len() && layout_of_language(language_of(#[trigger] hkls[i])) == Some(id);
                if i < init.len() {
                    assert(init[i] == hkls[i]);
                    assert(before.contains(id));
                    if installed_from(hkls) != before {
                        let x = layout_of_language(language_of(last))->Some_0;
                        assert(installed_from(hkls) == before.push(x));
                        let k = choose|k: int| 0 <= k < before.len() && before[k] == id;
                        assert(installed_from(hkls)[k] == id);
                    }
                } else {
                    assert(i == hkls.len() - 1);
                    if !before.contains(id) {
                        assert(installed_from(hkls) == before.push(id));
                        assert(installed_from(hkls)[before.len() as int] == id);
                    }
                }
            }
        }
    }
}

} // verus!
