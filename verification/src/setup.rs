//! Setting up the native-messaging helper that the browser addon calls.

use vstd::prelude::*;
use crate::json::utf8_text;
use crate::plan::Platform;
use crate::text::{chars_of, replace_all, replace_all_exec, string_of};

verus! {

/// Where the helper's manifest goes.
#[derive(Clone, Copy, Debug, PartialEq, Eq, Structural)]
pub enum SetupLocation {
    /// The Firefox folder, found as for a theme install.
    FirefoxFolder,
    /// `Library/Application Support/Mozilla` below the home folder.
    MozillaSupportFolder,
    /// The folder the program was started in.
    CurrentFolder,
}

/// Where the helper's manifest goes on platform `p`.
pub fn setup_location(p: Platform) -> (r: SetupLocation)
    ensures
        p == Platform::Linux ==> r == SetupLocation::FirefoxFolder,
        p == Platform::MacOs ==> r == SetupLocation::MozillaSupportFolder,
        p == Platform::Windows || p == Platform::Other ==> r == SetupLocation::CurrentFolder,
{
    match p {
        Platform::Linux => SetupLocation::FirefoxFolder,
        Platform::MacOs => SetupLocation::MozillaSupportFolder,
        _ => SetupLocation::CurrentFolder,
    }
}

/// The folder, inside the setup location, that holds native-messaging
/// manifests.
pub fn messaging_folder(p: Platform) -> (r: String)
    ensures
        p == Platform::MacOs ==> r@ == "NativeMessagingHosts"@,
        p != Platform::MacOs ==> r@ == "native-messaging-hosts"@,
{
    if p == Platform::MacOs {
        "NativeMessagingHosts".to_owned()
    } else {
        "native-messaging-hosts".to_owned()
    }
}

/// How making a folder that the setup needs turned out.
#[derive(Clone, Copy, Debug, PartialEq, Eq, Structural)]
pub enum FolderOutcome {
    Created,
    /// It could not be made because it was already there.
    AlreadyThere,
}

/// How making a folder turned out, from whether making it succeeded and,
/// when it did not, whether the folder exists. A folder that could neither
/// be made nor found is left out: the program stops there.
pub fn folder_outcome(created: bool, exists: bool) -> (r: FolderOutcome)
    requires
        created || exists,
    ensures
        created ==> r == FolderOutcome::Created,
        !created ==> r == FolderOutcome::AlreadyThere,
{
    if created {
        FolderOutcome::Created
    } else {
        FolderOutcome::AlreadyThere
    }
}

/// The folder under which home folders lie on platform `p` (a placeholder
/// on the others).
pub open spec fn home_root(p: Platform) -> Seq<char> {
    if p == Platform::Linux {
        "/home"@
    } else if p == Platform::MacOs {
        "/Users"@
    } else {
        "F U Windows"@
    }
}

fn home_root_exec(p: Platform) -> (r: String)
    ensures
        r@ == home_root(p),
{
    if p == Platform::Linux {
        "/home".to_owned()
    } else if p == Platform::MacOs {
        "/Users".to_owned()
    } else {
        "F U Windows".to_owned()
    }
}

/// The helper's manifest for `user`: the downloaded template with every
/// `$USER` replaced by the user's home folder.
pub open spec fn manifest_text(template: Seq<char>, p: Platform, user: Seq<char>) -> Seq<char> {
    replace_all(template, "$USER"@, home_root(p) + "/"@ + user)
}

/// A template without the `$USER` placeholder is used as it is.
pub proof fn lemma_manifest_without_placeholder(template: Seq<char>, p: Platform, user: Seq<char>)
    requires
        !crate::text::contains_text(template, "$USER"@),
    ensures
        manifest_text(template, p, user) == template,
{
    crate::text::lemma_replace_all_absent(template, "$USER"@, home_root(p) + "/"@ + user);
}

/// The helper's manifest, from the downloaded template (raw bytes, which must
/// be UTF-8), the platform and the user's name; `None` when the template is
/// not UTF-8.
pub fn manifest_for(template: &[u8], p: Platform, user: &str) -> (r: Option<String>)
    ensures
        r is Some <==> vstd::utf8::valid_utf8(template@),
        r matches Some(m) ==> m@ == manifest_text(vstd::utf8::decode_utf8(template@), p, user@),
{
    let text = match utf8_text(template) {
        Some(t) => t,
        None => return None,
    };
    let mut home = home_root_exec(p);
    home.append("/");
    home.append(user);
    let pat = chars_of("$USER");
    proof {
        reveal_strlit("$USER");
    }
    let out = replace_all_exec(&chars_of(text.as_str()), &pat, &chars_of(home.as_str()));
    Some(string_of(&out))
}

/// Where the helper program is downloaded from (the text `error` on a
/// platform with no helper).
pub fn helper_url(p: Platform) -> (r: String)
    ensures
        p == Platform::Linux ==> r@
            == "https://github.com/alx365/Themefox-Manager/releases/download/v0.9.9.9/stdin-themefox-manager"@,
        p == Platform::MacOs ==> r@
            == "https://github.com/alx365/Themefox-Manager/releases/download/v0.9.9.9/stdin-themefox-manager-mac"@,
        p != Platform::Linux && p != Platform::MacOs ==> r@ == "error"@,
{
    match p {
        Platform::Linux => "https://github.com/alx365/Themefox-Manager/releases/download/v0.9.9.9/stdin-themefox-manager".to_owned(),
        Platform::MacOs => "https://github.com/alx365/Themefox-Manager/releases/download/v0.9.9.9/stdin-themefox-manager-mac".to_owned(),
        _ => "error".to_owned(),
    }
}

/// Whether the downloaded helper must be made executable.
pub fn helper_needs_chmod(p: Platform) -> (r: bool)
    ensures
        r == (p == Platform::Linux || p == Platform::MacOs),
{
    p == Platform::Linux || p == Platform::MacOs
}

/// The command that opens the addon's page for the user, where there is one.
pub fn addon_page_command(p: Platform) -> (r: Option<Vec<String>>)
    ensures
        p == Platform::MacOs ==> (r matches Some(c) && c@.len() == 2 && c@[0]@ == "open"@ && c@[1]@
            == "https://addons.mozilla.org/en-US/firefox/addon/themefox-manager/"@),
        p == Platform::Linux ==> (r matches Some(c) && c@.len() == 3 && c@[0]@ == "firefox"@
            && c@[1]@ == "--new-tab"@ && c@[2]@
            == "https://addons.mozilla.org/en-US/firefox/addon/themefox-manager/"@),
        p != Platform::MacOs && p != Platform::Linux ==> r is None,
{
    let page = "https://addons.mozilla.org/en-US/firefox/addon/themefox-manager/";
    match p {
        Platform::MacOs => {
            let mut c: Vec<String> = Vec::new();
            c.push("open".to_owned());
            c.push(page.to_owned());
            Some(c)
        },
        Platform::Linux => {
            let mut c: Vec<String> = Vec::new();
            c.push("firefox".to_owned());
            c.push("--new-tab".to_owned());
            c.push(page.to_owned());
            Some(c)
        },
        _ => None,
    }
}

} // verus!
