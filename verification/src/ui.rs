//! The settings and diagnostics the desktop app shows.

use vstd::prelude::*;

verus! {

/// The user's settings, as the settings screen edits them and as they are
/// stored on disk.
pub struct AppSettings {
    pub enabled: bool,
    pub default_layout: String,
    pub aggressiveness: u8,
    pub blacklist: Vec<String>,
}

impl Default for AppSettings {
    /// Enabled, US QWERTY by default, aggressiveness 65, and editor, terminal
    /// and password manager on the block list.
    fn default() -> (s: Self)
        ensures
            s.enabled,
            s.default_layout@ == "us-qwerty"@,
            s.aggressiveness == 65,
            s.blacklist@.map_values(|b: String| b@) == seq![
                "code.exe"@,
                "wezterm.exe"@,
                "1password.exe"@,
            ],
    {
        let mut blacklist: Vec<String> = Vec::new();
        blacklist.push(String::from_str("code.exe"));
        blacklist.push(String::from_str("wezterm.exe"));
        blacklist.push(String::from_str("1password.exe"));
        let s = AppSettings {
            enabled: true,
            default_layout: String::from_str("us-qwerty"),
            aggressiveness: 65,
            blacklist,
        };
        assert(s.blacklist@.map_values(|b: String| b@) =~= seq![
            "code.exe"@,
            "wezterm.exe"@,
            "1password.exe"@,
        ]);
        s
    }
}

/// What the program can say about its own state, shown in the settings so a
/// user reporting "it doesn't work" need not find a log file.
pub struct Diagnostics {
    pub version: String,
    pub hook_installed: bool,
    pub installed_layouts: Vec<String>,
    pub last_decision: String,
}

} // verus!
