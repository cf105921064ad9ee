use themefox_manager::cli::{
    below_clone_folder, check_themefox_url, git_url, is_folder_entry, release_query,
    split_argument, success_line, theme_id,
};
use themefox_manager::css::{stylesheet_update, CssUpdate};
use themefox_manager::plan::{
    firefox_dir, install_plan, mode_of, native_probe, platform_of, profiles_in_subfolder,
    reset_plan, snap_probe, FirefoxDir, Mode, Platform, Step,
};
use themefox_manager::release::{
    download_url, flavour_titles, parse_release_list, picked_index, read_release_list,
    release_choice, ReleaseChoice, ReleaseError, SINGLE_RELEASE_INDEX,
};

fn strings(v: &[&str]) -> Vec<String> {
    v.iter().map(|s| s.to_string()).collect()
}

#[test]
fn protocol_argument_is_split() {
    assert_eq!(
        split_argument("themefox-manager:// https://themefox.net/themes/12/"),
        strings(&["themefox-manager://", "https://themefox.net/themes/12/"])
    );
    assert_eq!(
        split_argument("https://themefox.net/themes/12/"),
        strings(&["nothing", "https://themefox.net/themes/12/"])
    );
}

#[test]
fn themefox_urls() {
    assert!(check_themefox_url("https://themefox.net/themes/12/"));
    assert!(check_themefox_url("http://beta.themefox.net/t/3/"));
    assert!(!check_themefox_url("ftp://themefox.net/themes/12/"));
    assert!(!check_themefox_url("https://example.net/themes/12/"));
    assert!(!check_themefox_url("httpthemefox.net"));
}

#[test]
fn theme_id_is_next_to_last_piece() {
    assert_eq!(theme_id("https://themefox.net/themes/123/"), "123");
    assert_eq!(theme_id("https://themefox.net/themes/123/name"), "123");
    assert_eq!(theme_id("a/b"), "a");
    assert_eq!(release_query("123"), "127.0.0.1:1234/get/123");
}

#[test]
fn git_url_is_first_word() {
    assert_eq!(git_url("https://github.com/a/b.git extra"), "https://github.com/a/b.git");
    assert_eq!(git_url("https://github.com/a/b.git"), "https://github.com/a/b.git");
    assert_eq!(git_url(" x"), "");
}

#[test]
fn success_and_folders() {
    assert_eq!(success_line("Good url"), "✔  Good url");
    assert!(is_folder_entry("chrome/"));
    assert!(!is_folder_entry("chrome/userChrome.css"));
    assert_eq!(
        below_clone_folder(&strings(&["/", "tmp", "chrome", "icons", "a.png"])),
        strings(&["icons", "a.png"])
    );
    assert_eq!(below_clone_folder(&strings(&["/", "tmp", "chrome"])), Vec::<String>::new());
}

#[test]
fn release_listing_and_urls() {
    let answer = br#"[{"a":1},{"b":2},{"theme_id":7,"id":12,"filename":"dark","filetype":"zip","title":"Dark"},{"theme_id":7,"id":13,"filename":"light","filetype":"zip","title":"Light"}]"#;
    let es = parse_release_list(answer);
    assert_eq!(es.len(), 4);
    assert!(read_release_list(answer).is_ok());
    assert_eq!(es[0].theme_id, "null");
    assert_eq!(es[2].theme_id, "7");
    assert_eq!(es[2].filename, "\"dark\"");
    assert_eq!(release_choice(es.len()), ReleaseChoice::Pick);
    assert_eq!(flavour_titles(&es), strings(&["\"Dark\"", "\"Light\""]));
    assert_eq!(
        download_url(&es, picked_index(1)),
        "http://beta.themefox.net/themes/7/13-\"light\".\"zip\""
    );
}

#[test]
fn single_release_uses_index_three() {
    let answer = br#"[0, 1, {"theme_id":"5","id":"9","filename":"x","filetype":"zip"}]"#;
    let es = parse_release_list(answer);
    assert_eq!(release_choice(es.len()), ReleaseChoice::Single);
    assert_eq!(
        download_url(&es, SINGLE_RELEASE_INDEX),
        "http://beta.themefox.net/themes/null/null-null.null"
    );
    assert_eq!(es[2].title, "null");
}

#[test]
fn release_choice_counts() {
    assert_eq!(release_choice(2), ReleaseChoice::Nothing);
    assert_eq!(release_choice(3), ReleaseChoice::Single);
    assert_eq!(release_choice(9), ReleaseChoice::Pick);
}

#[test]
fn release_listing_errors() {
    assert!(matches!(read_release_list(b"{oops"), Err(ReleaseError::Corrupt)));
    assert!(matches!(read_release_list(b"{\"a\": 1}"), Err(ReleaseError::NotArray)));
    assert!(matches!(read_release_list(&[0xff, 0xfe]), Err(ReleaseError::NotUtf8)));
}

#[test]
fn stylesheet_preference() {
    let line = "user_pref(\"toolkit.legacyUserProfileCustomizations.stylesheets\", true); ";
    assert_eq!(stylesheet_update(None), CssUpdate::Create(line.to_string()));
    assert_eq!(
        stylesheet_update(Some("user_pref(\"a\", 1);")),
        CssUpdate::Append(format!("\n{}\n", line))
    );
    assert_eq!(stylesheet_update(Some(line)), CssUpdate::AlreadyEnabled);
}

#[test]
fn stylesheet_preference_stays_enabled() {
    let before = "user_pref(\"browser.startup.page\", 3);";
    let after = match stylesheet_update(Some(before)) {
        CssUpdate::Append(a) => format!("{}{}", before, a),
        _ => panic!("expected an append"),
    };
    assert_eq!(stylesheet_update(Some(&after)), CssUpdate::AlreadyEnabled);
    let created = match stylesheet_update(None) {
        CssUpdate::Create(c) => c,
        _ => panic!("expected a new file"),
    };
    assert_eq!(stylesheet_update(Some(&created)), CssUpdate::AlreadyEnabled);
}

#[test]
fn platforms_and_modes() {
    assert_eq!(platform_of("linux"), Platform::Linux);
    assert_eq!(platform_of("macos"), Platform::MacOs);
    assert_eq!(platform_of("windows"), Platform::Windows);
    assert_eq!(platform_of("freebsd"), Platform::Other);
    assert_eq!(mode_of(true, true, true), Mode::Reset);
    assert_eq!(mode_of(false, true, true), Mode::Install);
    assert_eq!(mode_of(false, false, true), Mode::Addon);
    assert_eq!(mode_of(false, false, false), Mode::Usage);
    assert!(profiles_in_subfolder(Platform::Windows));
    assert!(!profiles_in_subfolder(Platform::Linux));
}

#[test]
fn plans() {
    assert_eq!(
        install_plan(Platform::MacOs, "u".to_string(), false, true),
        vec![
            Step::LocateFirefox,
            Step::FindProfile { go_chrome: true, ask_user: true },
            Step::Download { url: "u".to_string(), git: false },
        ]
    );
    assert_eq!(install_plan(Platform::Other, "u".to_string(), false, false), vec![Step::Unsupported]);
    assert_eq!(
        reset_plan(Platform::Linux, true),
        vec![
            Step::LocateFirefox,
            Step::EnterFirefoxFolder,
            Step::FindProfile { go_chrome: false, ask_user: true },
            Step::RemoveChrome,
        ]
    );
    assert_eq!(
        reset_plan(Platform::MacOs, false),
        vec![
            Step::LocateFirefox,
            Step::FindProfile { go_chrome: false, ask_user: false },
            Step::RemoveChrome,
        ]
    );
    assert_eq!(
        reset_plan(Platform::Windows, false),
        vec![
            Step::LocateFirefox,
            Step::EnterFirefoxFolder,
            Step::FindProfile { go_chrome: false, ask_user: false },
            Step::RemoveChrome,
        ]
    );
    assert_eq!(reset_plan(Platform::Other, false), Vec::<Step>::new());
}

#[test]
fn firefox_locations() {
    assert_eq!(native_probe(Platform::Linux).as_deref(), Some(".mozilla/"));
    assert_eq!(snap_probe(Platform::Linux).as_deref(), Some("snap/firefox/common/.mozilla/"));
    assert_eq!(snap_probe(Platform::MacOs), None);
    assert_eq!(native_probe(Platform::Other), None);
    assert_eq!(firefox_dir(Platform::Linux, true, true, false), FirefoxDir::Found(".mozilla/".to_string()));
    assert_eq!(
        firefox_dir(Platform::Linux, false, true, false),
        FirefoxDir::Found("snap/firefox/common/.mozilla/".to_string())
    );
    assert_eq!(firefox_dir(Platform::Linux, true, true, true), FirefoxDir::AskUser);
    assert_eq!(
        firefox_dir(Platform::MacOs, true, false, false),
        FirefoxDir::Found("Library/Application Support/Firefox".to_string())
    );
    assert_eq!(firefox_dir(Platform::Windows, false, false, false), FirefoxDir::AskUser);
    assert_eq!(firefox_dir(Platform::Other, true, true, false), FirefoxDir::Unknown);
}
