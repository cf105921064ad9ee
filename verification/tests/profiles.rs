use themefox_manager::profile::{
    chrome_step, default_profile_field, default_profile_path, ini_file, ini_file_name,
    lenient_chrome_step, profile_choices, profile_problem, ChromeNotice, ChromeStep, IniFile,
    ProfileError,
};
use themefox_manager::setup::{
    addon_page_command, folder_outcome, helper_needs_chmod, helper_url, manifest_for,
    messaging_folder, setup_location, FolderOutcome, SetupLocation,
};
use themefox_manager::plan::Platform;
use themefox_manager::theme_search::{needs_search, search_theme, FsEntry};

fn file(path: &str, name: &str) -> FsEntry {
    FsEntry { path: path.to_string(), name: name.to_string(), is_dir: false, children: vec![] }
}

fn dir(path: &str, name: &str, children: Vec<FsEntry>) -> FsEntry {
    FsEntry { path: path.to_string(), name: name.to_string(), is_dir: true, children }
}

#[test]
fn ini_choice() {
    assert_eq!(ini_file(true, true), IniFile::Installs);
    assert_eq!(ini_file(true, false), IniFile::Installs);
    assert_eq!(ini_file(false, true), IniFile::Profiles);
    assert_eq!(ini_file_name(IniFile::Installs), "installs.ini");
    assert_eq!(ini_file_name(IniFile::Profiles), "profiles.ini");
}

#[test]
fn default_profile_from_installs_ini() {
    let ini = "[Install4F96D1932A9F858E]\nDefault=Profiles/abcd.default-release \nLocked=1\n";
    assert_eq!(profile_problem(ini), None);
    assert_eq!(
        default_profile_path(ini),
        vec!["Profiles".to_string(), "abcd.default-release".to_string()]
    );
    assert_eq!(default_profile_field(ini), "Profiles/abcd.default-release ".to_string());
}

#[test]
fn default_profile_trims_unicode_whitespace() {
    let ini = "[X]\nDefault=a.b\u{3000}\t/c \nx";
    assert_eq!(default_profile_path(ini), vec!["a.b".to_string(), "c".to_string()]);
    let windows_lines = "[Install1]\r\nDefault=Profiles/x.default-release\r\nLocked=1\r\n";
    assert_eq!(
        default_profile_path(windows_lines),
        vec!["Profiles".to_string(), "x.default-release".to_string()]
    );
}

#[test]
fn default_profile_errors() {
    assert_eq!(profile_problem("[Profile0]\nName=default\n"), Some(ProfileError::OutdatedFirefox));
    assert_eq!(profile_problem("a=b"), Some(ProfileError::MissingEntry));
    assert_eq!(profile_problem(""), Some(ProfileError::MissingEntry));
}

#[test]
fn chrome_steps() {
    assert_eq!(chrome_step(true, false), ChromeStep { create: true, enter: true });
    assert_eq!(chrome_step(true, true), ChromeStep { create: false, enter: true });
    assert_eq!(chrome_step(false, true), ChromeStep { create: false, enter: false });
    assert_eq!(
        lenient_chrome_step(false, false),
        (ChromeStep { create: false, enter: false }, ChromeNotice::NothingToRemove)
    );
    assert_eq!(
        lenient_chrome_step(true, false),
        (ChromeStep { create: true, enter: true }, ChromeNotice::Created)
    );
    assert_eq!(lenient_chrome_step(true, true).1, ChromeNotice::WillOverwrite);
    assert_eq!(lenient_chrome_step(false, true).1, ChromeNotice::WillDelete);
}

#[test]
fn profile_choices_are_sorted_profiles() {
    let entries = vec![
        dir("./zeta.default", "zeta.default", vec![]),
        dir("./Crash Reports", "Crash Reports", vec![]),
        file("./times.json", "times.json"),
        dir("./abc.default", "abc.default", vec![]),
        dir("./Pending Pings", "Pending Pings", vec![]),
        dir("./Abc", "Abc", vec![]),
    ];
    assert_eq!(
        profile_choices(&entries),
        vec!["Abc".to_string(), "abc.default".to_string(), "zeta.default".to_string()]
    );
}

#[test]
fn theme_search_finds_nested_folders() {
    let top = vec![
        dir("./.git", ".git", vec![file("./.git/userChrome.css", "userChrome.css")]),
        dir(
            "./themes",
            "themes",
            vec![
                file("./themes/README.md", "README.md"),
                dir(
                    "./themes/dark",
                    "dark",
                    vec![
                        file("./themes/dark/userChrome.css", "userChrome.css"),
                        file("./themes/dark/userContent.css", "userContent.css"),
                    ],
                ),
                dir("./themes/blue", "blue", vec![file("./themes/blue/userChrome.js", "userChrome.js")]),
            ],
        ),
        dir("./flat", "flat", vec![file("./flat/userContent.css", "userContent.css")]),
        file("./LICENSE", "LICENSE"),
    ];
    let r = search_theme(&top);
    assert_eq!(
        r.options,
        vec![
            "./flat/userContent.css".to_string(),
            "./themes/blue".to_string(),
            "./themes/dark".to_string(),
        ]
    );
    assert_eq!(r.visited, vec!["./themes/dark".to_string(), "./themes/blue".to_string()]);
}

#[test]
fn theme_search_stops_at_sixth_level() {
    let mut deepest = dir("./a/b/c/d/e/f/g", "g", vec![file("./a/b/c/d/e/f/g/userChrome.css", "userChrome.css")]);
    let names = ["f", "e", "d", "c", "b", "a"];
    let mut path = "./a/b/c/d/e/f".to_string();
    for n in names.iter() {
        deepest = dir(&path, n, vec![deepest]);
        path = path[..path.rfind('/').unwrap()].to_string();
    }
    let r = search_theme(&vec![deepest]);
    assert!(r.options.is_empty());
    assert_eq!(r.visited.len(), 5);
}

#[test]
fn search_needed_without_both_files() {
    assert!(!needs_search(true, true));
    assert!(needs_search(true, false));
    assert!(needs_search(false, true));
}

#[test]
fn setup_decisions() {
    assert_eq!(setup_location(Platform::Linux), SetupLocation::FirefoxFolder);
    assert_eq!(setup_location(Platform::MacOs), SetupLocation::MozillaSupportFolder);
    assert_eq!(setup_location(Platform::Windows), SetupLocation::CurrentFolder);
    assert_eq!(messaging_folder(Platform::MacOs), "NativeMessagingHosts");
    assert_eq!(messaging_folder(Platform::Linux), "native-messaging-hosts");
    assert_eq!(folder_outcome(true, false), FolderOutcome::Created);
    assert_eq!(folder_outcome(false, true), FolderOutcome::AlreadyThere);
    assert!(helper_needs_chmod(Platform::MacOs));
    assert!(!helper_needs_chmod(Platform::Windows));
    assert_eq!(helper_url(Platform::Windows), "error");
    assert!(helper_url(Platform::MacOs).ends_with("stdin-themefox-manager-mac"));
    assert_eq!(addon_page_command(Platform::Windows), None);
    assert_eq!(addon_page_command(Platform::Linux).unwrap()[1], "--new-tab");
}

#[test]
fn manifest_gets_home_folder() {
    let template = b"{\"path\": \"$USER/.local/bin/stdin-themefox-manager\", \"x\": \"$USER$USER\"}";
    assert_eq!(
        manifest_for(template, Platform::Linux, "ann"),
        Some("{\"path\": \"/home/ann/.local/bin/stdin-themefox-manager\", \"x\": \"/home/ann/home/ann\"}".to_string())
    );
    assert_eq!(manifest_for(b"$USER", Platform::MacOs, "bo"), Some("/Users/bo".to_string()));
    assert_eq!(manifest_for(b"$USE", Platform::Windows, "bo"), Some("$USE".to_string()));
    assert_eq!(manifest_for(&[0xc0], Platform::Linux, "bo"), None);
}
