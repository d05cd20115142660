//! The block list: applications in which nothing is ever corrected.

use vstd::prelude::*;

use crate::text::{chars_of, lowercase, string_of, to_lowercase};

verus! {

/// Executable names of the applications on the block list, lowercased.
pub struct Blacklist {
    names: Vec<String>,
}

impl View for Blacklist {
    type V = Seq<Seq<char>>;

    closed spec fn view(&self) -> Seq<Seq<char>> {
        self.names@.map_values(|s: String| s@)
    }
}

/// The list a fresh installation starts with: terminals, editors and IDEs,
/// password managers and remote-desktop clients.
pub open spec fn default_blacklist() -> Seq<Seq<char>> {
    seq![
        "cmd.exe"@,
        "pwsh.exe"@,
        "powershell.exe"@,
        "windowsterminal.exe"@,
        "mintty.exe"@,
        "code.exe"@,
        "idea64.exe"@,
        "datagrip64.exe"@,
        "pycharm64.exe"@,
        "rider64.exe"@,
        "devenv.exe"@,
        "1password.exe"@,
        "bitwarden.exe"@,
        "keepassxc.exe"@,
        "keepass.exe"@,
        "mstsc.exe"@,
        "vmware-view.exe"@,
        "vmconnect.exe"@,
    ]
}

impl Blacklist {
    /// The default block list.
    pub fn new() -> (b: Self)
        ensures
            b@ == default_blacklist(),
    {
        let mut names: Vec<String> = Vec::new();
        names.push(String::from_str("cmd.exe"));
        names.push(String::from_str("pwsh.exe"));
        names.push(String::from_str("powershell.exe"));
        names.push(String::from_str("windowsterminal.exe"));
        names.push(String::from_str("mintty.exe"));
        names.push(String::from_str("code.exe"));
        names.push(String::from_str("idea64.exe"));
        names.push(String::from_str("datagrip64.exe"));
        names.push(String::from_str("pycharm64.exe"));
        names.push(String::from_str("rider64.exe"));
        names.push(String::from_str("devenv.exe"));
        names.push(String::from_str("1password.exe"));
        names.push(String::from_str("bitwarden.exe"));
        names.push(String::from_str("keepassxc.exe"));
        names.push(String::from_str("keepass.exe"));
        names.push(String::from_str("mstsc.exe"));
        names.push(String::from_str("vmware-view.exe"));
        names.push(String::from_str("vmconnect.exe"));
        let b = Blacklist { names };
        assert(b@ =~= default_blacklist());
        b
    }
}

/// Replace the block list with the user's, lowercasing every name.
pub fn update_blacklist(blacklist: &mut Blacklist, new_list: Vec<String>)
    ensures
        final(blacklist)@ == new_list@.map_values(|s: String| lowercase(s@)),
{
    let mut names: Vec<String> = Vec::new();
    let mut i: usize = 0;
    while i < new_list.len()
        invariant
            i <= new_list@.len(),
            names@.map_values(|s: String| s@) == new_list@.take(i as int).map_values(
                |s: String| lowercase(s@),
            ),
        decreases new_list@.len() - i,
    {
        let ghost before = names@;
        names.push(to_lowercase(new_list[i].as_str()));
        assert(new_list@.take(i + 1) =~= new_list@.take(i as int).push(new_list@[i as int]));
        assert(names@.map_values(|s: String| s@) =~= before.map_values(|s: String| s@).push(
            lowercase(new_list@[i as int]@),
        ));
        assert(new_list@.take(i + 1).map_values(|s: String| lowercase(s@)) =~= new_list@.take(
            i as int,
        ).map_values(|s: String| lowercase(s@)).push(lowercase(new_list@[i as int]@)));
        i = i + 1;
    }
    assert(new_list@.take(new_list@.len() as int) =~= new_list@);
    blacklist.names = names;
}

/// Whether the foreground application, whose executable name `active_process`
/// holds when it could be read, is on the block list (compared lowercased).
/// When the name could not be read, the application counts as not blocked.
pub fn is_active_app_blocked(blacklist: &Blacklist, active_process: Option<String>) -> (r: bool)
    ensures
        r == match active_process {
            Some(name) => blacklist@.contains(lowercase(name@)),
            None => false,
        },
{
    match active_process {
        Some(name) => {
            let lower = to_lowercase(name.as_str());
            let mut i: usize = 0;
            while i < blacklist.names.len()
                invariant
                    i <= blacklist.names@.len(),
                    forall|j: int| 0 <= j < i ==> #[trigger] blacklist@[j] != lower@,
                    blacklist@.len() == blacklist.names@.len(),
                    lower@ == lowercase(name@),
                    active_process == Some(name),
                decreases blacklist.names@.len() - i,
            {
                if blacklist.names[i] == lower {
                    assert(blacklist@[i as int] == lower@);
                    assert(blacklist@.contains(lower@));
                    return true;
                }
                i = i + 1;
            }
            false
        },
        None => false,
    }
}

/// Index of the last `'\\'` in `path`, or -1.
pub open spec fn last_separator(path: Seq<char>) -> int
    decreases path.len(),
{
    if path.len() == 0 {
        -1
    } else if path.last() == '\\' {
        path.len() - 1
    } else {
        last_separator(path.drop_last())
    }
}

/// The executable name in a full image path: what follows the last `'\\'`.
pub open spec fn exe_name_of(path: Seq<char>) -> Seq<char> {
    path.skip(last_separator(path) + 1)
}

proof fn lemma_last_separator(path: Seq<char>)
    ensures
        -1 <= last_separator(path) < path.len(),
    decreases path.len(),
{
    if path.len() > 0 && path.last() != '\\' {
        lemma_last_separator(path.drop_last());
    }
}

/// The executable name in the full image path of a process.
pub fn exe_name_from_path(path: &str) -> (r: String)
    ensures
        r@ == exe_name_of(path@),
{
    let chars = chars_of(path);
    let mut end = chars.len();
    proof {
        lemma_last_separator(chars@);
        assert(chars@.take(end as int) =~= chars@);
    }
    while end > 0 && chars[end - 1] != '\\'
        invariant
            end <= chars@.len(),
            last_separator(chars@) == last_separator(chars@.take(end as int)),
        decreases end,
    {
        assert(chars@.take(end as int).drop_last() =~= chars@.take(end - 1));
        end = end - 1;
    }
    assert(last_separator(chars@.take(end as int)) == end - 1);
    let mut name: Vec<char> = Vec::new();
    let mut i = end;
    while i < chars.len()
        invariant
            end <= i <= chars@.len(),
            name@ == chars@.subrange(end as int, i as int),
        decreases chars@.len() - i,
    {
        name.push(chars[i]);
        i = i + 1;
        assert(name@ =~= chars@.subrange(end as int, i as int));
    }
    assert(name@ =~= path@.skip(end as int));
    string_of(&name)
}

} // verus!
