//! Password-field detection: the decisions between the two probes.
//!
//! The classic Win32 probe is fast and can only ever prove a field *is* a
//! password field; UI Automation (browsers, Electron, UWP) is asked otherwise.
//! When neither can tell, the answer is "unknown", which the guards treat as a
//! password field.

use vstd::prelude::*;

verus! {

/// The edit-control style bit of a password field.
pub const ES_PASSWORD: i32 = 0x0020;

/// Whether a window style marks a classic edit control as a password field.
pub fn style_marks_password(style: i32) -> (r: bool)
    ensures
        r == (style & ES_PASSWORD == ES_PASSWORD),
{
    style & ES_PASSWORD == ES_PASSWORD
}

/// Where the detection stands after the Win32 probe.
#[derive(Copy, Clone, PartialEq, Eq, Debug, Structural)]
pub enum PasswordProbe {
    /// The answer is known.
    Settled(Option<bool>),
    /// Ask UI Automation and report what it says.
    AskAutomation,
}

/// The whole cascade: no foreground window means unknown; a Win32 password
/// style settles it; otherwise UI Automation's answer stands.
pub open spec fn password_answer(window_valid: bool, win32: Option<bool>, automation: Option<bool>) -> Option<bool> {
    if !window_valid {
        None
    } else if win32 == Some(true) {
        Some(true)
    } else {
        automation
    }
}

/// What to do after the Win32 probe, which ran only if the window is valid.
pub fn after_win32_probe(window_valid: bool, win32: Option<bool>) -> (r: PasswordProbe)
    ensures
        !window_valid ==> r == PasswordProbe::Settled(None),
        window_valid && win32 == Some(true) ==> r == PasswordProbe::Settled(Some(true)),
        window_valid && win32 != Some(true) ==> r == PasswordProbe::AskAutomation,
        forall|automation: Option<bool>|
            #![trigger password_answer(window_valid, win32, automation)]
            r matches PasswordProbe::Settled(answer) ==> answer == password_answer(window_valid, win32, automation),
{
    if !window_valid {
        return PasswordProbe::Settled(None);
    }
    match win32 {
        Some(true) => PasswordProbe::Settled(Some(true)),
        _ => PasswordProbe::AskAutomation,
    }
}

/// Fail closed: a field is reported as ordinary text only when there is a
/// window, the Win32 probe did not find a password style, and UI Automation
/// positively said it is not a password field.
pub proof fn law_ordinary_text_only_on_positive_evidence(
    window_valid: bool,
    win32: Option<bool>,
    automation: Option<bool>,
)
    ensures
        password_answer(window_valid, win32, automation) == Some(false) ==> window_valid && win32
            != Some(true) && automation == Some(false),
{
}

} // verus!
