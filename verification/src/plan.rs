//! What the theme manager does, in what order, on each operating system.

use vstd::prelude::*;
use crate::text::chars_of;

verus! {

/// The operating systems the program tells apart.
#[derive(Clone, Copy, Debug, PartialEq, Eq, Structural)]
pub enum Platform {
    Linux,
    MacOs,
    Windows,
    Other,
}

/// The platform that `std::env::consts::OS` names.
pub open spec fn platform_named(os: Seq<char>) -> Platform {
    if os == "linux"@ {
        Platform::Linux
    } else if os == "macos"@ {
        Platform::MacOs
    } else if os == "windows"@ {
        Platform::Windows
    } else {
        Platform::Other
    }
}


/// The platform that the name `os` (as `std::env::consts::OS` gives it)
/// stands for.
pub fn platform_of(os: &str) -> (r: Platform)
    ensures
        r == platform_named(os@),
{
    let o = chars_of(os);
    if crate::text::same_chars(&o, &chars_of("linux")) {
        Platform::Linux
    } else if crate::text::same_chars(&o, &chars_of("macos")) {
        Platform::MacOs
    } else if crate::text::same_chars(&o, &chars_of("windows")) {
        Platform::Windows
    } else {
        Platform::Other
    }
}

/// What the user asked for on the command line.
#[derive(Clone, Copy, Debug, PartialEq, Eq, Structural)]
pub enum Mode {
    /// Remove the installed theme (`--reset`).
    Reset,
    /// Install the theme at the given address.
    Install,
    /// Set up the browser addon's helper (`--addon`).
    Addon,
    /// Nothing usable: show how to use the program.
    Usage,
}

/// The mode, from which of `--reset`, the address and `--addon` were given;
/// `--reset` wins over an address, and an address over `--addon`.
pub fn mode_of(reset: bool, url: bool, addon: bool) -> (r: Mode)
    ensures
        reset ==> r == Mode::Reset,
        !reset && url ==> r == Mode::Install,
        !reset && !url && addon ==> r == Mode::Addon,
        !reset && !url && !addon ==> r == Mode::Usage,
{
    if reset {
        Mode::Reset
    } else if url {
        Mode::Install
    } else if addon {
        Mode::Addon
    } else {
        Mode::Usage
    }
}

/// One step of installing or removing a theme.
#[derive(Debug, PartialEq, Eq)]
pub enum Step {
    /// Change into the folder where Firefox keeps its profiles.
    LocateFirefox,
    /// Change into the `firefox` folder within it.
    EnterFirefoxFolder,
    /// Change into the profile, turn on stylesheets and deal with its
    /// `chrome` folder (see `profile::chrome_step`); `ask_user` lets the user
    /// pick the profile.
    FindProfile { go_chrome: bool, ask_user: bool },
    /// Fetch the theme from `url` (a git repository when `git`) into the
    /// current folder.
    Download { url: String, git: bool },
    /// Delete the `chrome` folder.
    RemoveChrome,
    /// Stop: the operating system is not supported.
    Unsupported,
}

/// The steps that install the theme at `url` (a git repository when `git`);
/// `ask_user` is whether `--profile` was given.
pub fn install_plan(p: Platform, url: String, git: bool, ask_user: bool) -> (r: Vec<Step>)
    ensures
        p == Platform::Linux ==> r@ == seq![
            Step::LocateFirefox,
            Step::EnterFirefoxFolder,
            Step::FindProfile { go_chrome: true, ask_user },
            Step::Download { url, git },
        ],
        p == Platform::MacOs ==> r@ == seq![
            Step::LocateFirefox,
            Step::FindProfile { go_chrome: true, ask_user },
            Step::Download { url, git },
        ],
        p == Platform::Windows ==> r@ == seq![
            Step::LocateFirefox,
            Step::EnterFirefoxFolder,
            Step::FindProfile { go_chrome: true, ask_user },
            Step::Download { url, git },
        ],
        p == Platform::Other ==> r@ == seq![Step::Unsupported],
{
    let mut r: Vec<Step> = Vec::new();
    match p {
        Platform::Other => {
            r.push(Step::Unsupported);
        },
        _ => {
            r.push(Step::LocateFirefox);
            if p != Platform::MacOs {
                r.push(Step::EnterFirefoxFolder);
            }
            r.push(Step::FindProfile { go_chrome: true, ask_user });
            r.push(Step::Download { url, git });
        },
    }
    r
}

/// The steps that remove the installed theme: find the profile and delete
/// its `chrome` folder.
pub fn reset_plan(p: Platform, ask_user: bool) -> (r: Vec<Step>)
    ensures
        p == Platform::MacOs ==> r@ == seq![
            Step::LocateFirefox,
            Step::FindProfile { go_chrome: false, ask_user },
            Step::RemoveChrome,
        ],
        p == Platform::Linux || p == Platform::Windows ==> r@ == seq![
            Step::LocateFirefox,
            Step::EnterFirefoxFolder,
            Step::FindProfile { go_chrome: false, ask_user },
            Step::RemoveChrome,
        ],
        p == Platform::Other ==> r@.len() == 0,
{
    let mut r: Vec<Step> = Vec::new();
    if p != Platform::Other {
        r.push(Step::LocateFirefox);
        if p != Platform::MacOs {
            r.push(Step::EnterFirefoxFolder);
        }
        r.push(Step::FindProfile { go_chrome: false, ask_user });
        r.push(Step::RemoveChrome);
    }
    r
}

/// Where the Firefox folder is, relative to the home folder.
#[derive(Debug, PartialEq, Eq)]
pub enum FirefoxDir {
    /// At this path.
    Found(String),
    /// Not found, or `--dir` was given: the user names it.
    AskUser,
    /// The program knows no place for this operating system; it stays with
    /// an empty path, which it cannot change into.
    Unknown,
}

/// The path whose existence shows a Firefox installed the native way.
pub fn native_probe(p: Platform) -> (r: Option<String>)
    ensures
        p == Platform::Linux ==> (r matches Some(s) && s@ == ".mozilla/"@),
        p == Platform::MacOs ==> (r matches Some(s) && s@
            == "Library/Application Support/Firefox/Profiles"@),
        p == Platform::Windows ==> (r matches Some(s) && s@
            == "AppData\\Roaming\\Mozilla\\Firefox\\Profiles"@),
        p == Platform::Other ==> r is None,
{
    match p {
        Platform::Linux => Some(".mozilla/".to_owned()),
        Platform::MacOs => Some("Library/Application Support/Firefox/Profiles".to_owned()),
        Platform::Windows => Some("AppData\\Roaming\\Mozilla\\Firefox\\Profiles".to_owned()),
        Platform::Other => None,
    }
}

/// The path whose existence shows a Firefox installed as a snap (Linux only).
pub fn snap_probe(p: Platform) -> (r: Option<String>)
    ensures
        p == Platform::Linux ==> (r matches Some(s) && s@ == "snap/firefox/common/.mozilla/"@),
        p != Platform::Linux ==> r is None,
{
    match p {
        Platform::Linux => Some("snap/firefox/common/.mozilla/".to_owned()),
        _ => None,
    }
}

/// Where the Firefox folder is, from whether the native and snap
/// installations exist and whether `--dir` was given.
pub fn firefox_dir(p: Platform, native: bool, snap: bool, dir_flag: bool) -> (r: FirefoxDir)
    ensures
        p == Platform::Linux && native && !dir_flag ==> (r matches FirefoxDir::Found(s) && s@
            == ".mozilla/"@),
        p == Platform::Linux && !native && snap && !dir_flag ==> (r matches FirefoxDir::Found(s)
            && s@ == "snap/firefox/common/.mozilla/"@),
        p == Platform::Linux && (dir_flag || (!native && !snap)) ==> r == FirefoxDir::AskUser,
        p == Platform::MacOs && native && !dir_flag ==> (r matches FirefoxDir::Found(s) && s@
            == "Library/Application Support/Firefox"@),
        p == Platform::Windows && native && !dir_flag ==> (r matches FirefoxDir::Found(s) && s@
            == "AppData\\Roaming\\Mozilla\\Firefox"@),
        (p == Platform::MacOs || p == Platform::Windows) && (dir_flag || !native) ==> r
            == FirefoxDir::AskUser,
        p == Platform::Other ==> r == FirefoxDir::Unknown,
{
    match p {
        Platform::Linux => {
            if native && !dir_flag {
                FirefoxDir::Found(".mozilla/".to_owned())
            } else if snap && !dir_flag {
                FirefoxDir::Found("snap/firefox/common/.mozilla/".to_owned())
            } else {
                FirefoxDir::AskUser
            }
        },
        Platform::MacOs => {
            if native && !dir_flag {
                FirefoxDir::Found("Library/Application Support/Firefox".to_owned())
            } else {
                FirefoxDir::AskUser
            }
        },
        Platform::Windows => {
            if native && !dir_flag {
                FirefoxDir::Found("AppData\\Roaming\\Mozilla\\Firefox".to_owned())
            } else {
                FirefoxDir::AskUser
            }
        },
        Platform::Other => FirefoxDir::Unknown,
    }
}

/// Whether the profiles lie in a `Profiles` folder below the Firefox folder
/// (on macOS and Windows), which the program changes into before listing
/// them.
pub fn profiles_in_subfolder(p: Platform) -> (r: bool)
    ensures
        r == (p == Platform::MacOs || p == Platform::Windows),
{
    p == Platform::MacOs || p == Platform::Windows
}

} // verus!
