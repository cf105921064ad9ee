//! Finding the Firefox profile to work in, and what to do with its `chrome`
//! folder.

use vstd::prelude::*;
use crate::order::{sort_texts, sorted_texts};
use crate::text::{split_by, split_on_any, trim_end, trim_end_exec, chars_of, string_of, views, string_views};
use crate::theme_search::FsEntry;

verus! {

/// The file that names the default profile.
#[derive(Clone, Copy, Debug, PartialEq, Eq, Structural)]
pub enum IniFile {
    /// `installs.ini`, which newer Firefox versions write.
    Installs,
    /// `profiles.ini`.
    Profiles,
}

/// Which file to read the default profile from: `installs.ini` when it is a
/// file, else `profiles.ini`. When neither is a file the program stops, so
/// that case is left out.
pub fn ini_file(installs_is_file: bool, profiles_is_file: bool) -> (r: IniFile)
    requires
        installs_is_file || profiles_is_file,
    ensures
        installs_is_file ==> r == IniFile::Installs,
        !installs_is_file ==> r == IniFile::Profiles,
{
    if installs_is_file {
        IniFile::Installs
    } else {
        IniFile::Profiles
    }
}

/// The name of an ini file.
pub fn ini_file_name(f: IniFile) -> (r: String)
    ensures
        f == IniFile::Installs ==> r@ == "installs.ini"@,
        f == IniFile::Profiles ==> r@ == "profiles.ini"@,
{
    match f {
        IniFile::Installs => "installs.ini".to_owned(),
        IniFile::Profiles => "profiles.ini".to_owned(),
    }
}

/// Why the ini text names no usable profile; the program stops on it.
#[derive(Clone, Copy, Debug, PartialEq, Eq, Structural)]
pub enum ProfileError {
    /// The ini file has fewer than four fields, so it names no profile.
    MissingEntry,
    /// The profile named has no `.` in it: a Firefox version too old to
    /// support.
    OutdatedFirefox,
}

/// The characters that separate the fields of an ini file, as the program
/// reads it.
pub open spec fn ini_separators() -> Seq<char> {
    seq!['=', ']', '\n']
}

/// The fields of the ini text `contents`.
pub open spec fn ini_fields(contents: Seq<char>) -> Seq<Seq<char>> {
    split_by(contents, ini_separators())
}

/// The fourth field of the ini text, which holds the default profile's path.
pub open spec fn profile_field(contents: Seq<char>) -> Seq<char> {
    ini_fields(contents)[3]
}

/// The folders, each without trailing whitespace, of the path `field`.
pub open spec fn profile_components(field: Seq<char>) -> Seq<Seq<char>> {
    split_by(field, seq!['/']).map_values(|c: Seq<char>| trim_end(c))
}

/// Each folder of the default profile's path is a single name: it holds no
/// `/` and does not end in whitespace.
pub proof fn lemma_profile_components_clean(field: Seq<char>)
    ensures
        forall|i: int|
            0 <= i < profile_components(field).len() ==> !(#[trigger] profile_components(
                field,
            )[i]).contains('/') && (profile_components(field)[i].len() > 0
                ==> !crate::text::white_space(profile_components(field)[i].last())),
{
    let parts = split_by(field, seq!['/']);
    crate::text::lemma_split_by_pieces(field, seq!['/']);
    assert forall|i: int| 0 <= i < profile_components(field).len() implies !(
    #[trigger] profile_components(field)[i]).contains('/') && (profile_components(field)[i].len()
        > 0 ==> !crate::text::white_space(profile_components(field)[i].last())) by {
        let c = profile_components(field)[i];
        assert(c == trim_end(parts[i]));
        crate::text::lemma_trim_end(parts[i]);
        if c.contains('/') {
            let j = choose|j: int| 0 <= j < c.len() && c[j] == '/';
            assert(parts[i][j] == '/');
            assert(seq!['/'].contains(parts[i][j])) by {
                assert(seq!['/'][0] == '/');
            }
        }
    }
}

/// What is wrong with the ini text `contents`: too few fields, or a profile
/// field without a `.`.
pub open spec fn profile_problem_of(contents: Seq<char>) -> Option<ProfileError> {
    if ini_fields(contents).len() < 4 {
        Some(ProfileError::MissingEntry)
    } else if !profile_field(contents).contains('.') {
        Some(ProfileError::OutdatedFirefox)
    } else {
        None
    }
}

/// How the ini text decides the outcome: split at `=`, `]` and line ends,
/// text with fewer than four fields names no profile; otherwise the profile
/// is the fourth field, and it is refused exactly when it holds no `.`.
pub proof fn lemma_profile_problem_cases(contents: Seq<char>)
    ensures
        profile_problem_of(contents) == Some(ProfileError::MissingEntry) <==> split_by(
            contents,
            seq!['=', ']', '\n'],
        ).len() < 4,
        profile_problem_of(contents) == Some(ProfileError::OutdatedFirefox) <==> (split_by(
            contents,
            seq!['=', ']', '\n'],
        ).len() >= 4 && !split_by(contents, seq!['=', ']', '\n'])[3].contains('.')),
        profile_problem_of(contents) is None <==> (split_by(contents, seq!['=', ']', '\n']).len()
            >= 4 && split_by(contents, seq!['=', ']', '\n'])[3].contains('.')),
{
}

fn profile_field_exec(contents: &str) -> (r: (Vec<char>, Option<ProfileError>))
    ensures
        r.1 == profile_problem_of(contents@),
        r.1 is None ==> r.0@ == profile_field(contents@),
{
    let seps = vec!['=', ']', '\n'];
    assert(seps@ =~= ini_separators());
    let fields = split_on_any(&chars_of(contents), &seps);
    if fields.len() < 4 {
        return (Vec::new(), Some(ProfileError::MissingEntry));
    }
    let f = fields[3].clone();
    assert(f@ == views(fields@)[3]);
    if !crate::text::char_in(&f, '.') {
        return (f, Some(ProfileError::OutdatedFirefox));
    }
    (f, None)
}

/// What is wrong with the ini text `contents` (see `profile_problem_of`).
pub fn profile_problem(contents: &str) -> (r: Option<ProfileError>)
    ensures
        r == profile_problem_of(contents@),
{
    profile_field_exec(contents).1
}

/// The path of the default profile, folder by folder, read from the text of
/// an ini file: its fourth field, split at `/`, each part without trailing
/// whitespace. Text with a problem (see `profile_problem`) is left out: the
/// program stops on it.
pub fn default_profile_path(contents: &str) -> (r: Vec<String>)
    requires
        profile_problem_of(contents@) is None,
    ensures
        string_views(r@) == profile_components(profile_field(contents@)),
{
    let (f, _) = profile_field_exec(contents);
    let slash = vec!['/'];
    assert(slash@ =~= seq!['/']);
    let parts = split_on_any(&f, &slash);
    let mut out: Vec<String> = Vec::new();
    let mut i: usize = 0;
    while i < parts.len()
        invariant
            i <= parts@.len(),
            views(parts@) == split_by(f@, seq!['/']),
            string_views(out@) == split_by(f@, seq!['/']).take(i as int).map_values(
                |c: Seq<char>| trim_end(c),
            ),
        decreases parts@.len() - i,
    {
        let t = trim_end_exec(&parts[i]);
        assert(views(parts@)[i as int] == parts@[i as int]@);
        let ghost before = out@;
        out.push(string_of(&t));
        assert(string_views(out@) =~= string_views(before).push(t@));
        assert(string_views(out@) =~= split_by(f@, seq!['/']).take(i + 1).map_values(
            |c: Seq<char>| trim_end(c),
        ));
        i = i + 1;
    }
    assert(split_by(f@, seq!['/']).take(parts@.len() as int) =~= split_by(f@, seq!['/']));
    out
}

/// The default profile's path as one piece: the fourth field of the ini
/// text, whole, with any trailing whitespace kept. Text with a problem is
/// left out.
pub fn default_profile_field(contents: &str) -> (r: String)
    requires
        profile_problem_of(contents@) is None,
    ensures
        r@ == profile_field(contents@),
{
    let (f, _) = profile_field_exec(contents);
    string_of(&f)
}

/// What to do with the profile's `chrome` folder.
#[derive(Clone, Copy, Debug, PartialEq, Eq, Structural)]
pub struct ChromeStep {
    /// Create it first.
    pub create: bool,
    /// Then change into it.
    pub enter: bool,
}

/// What to do with the `chrome` folder when installing (`go_chrome`) or
/// removing a theme: an install creates a missing folder and works inside
/// it; a removal leaves the folder to be deleted. A removal with no folder is
/// left out: the program stops there.
pub fn chrome_step(go_chrome: bool, chrome_exists: bool) -> (r: ChromeStep)
    requires
        go_chrome || chrome_exists,
    ensures
        r == (ChromeStep { create: !chrome_exists, enter: go_chrome }),
{
    ChromeStep { create: !chrome_exists, enter: go_chrome }
}

/// What the user is told about the `chrome` folder when a missing folder
/// does not stop the program.
#[derive(Clone, Copy, Debug, PartialEq, Eq, Structural)]
pub enum ChromeNotice {
    /// It created the missing folder.
    Created,
    /// There is no folder to remove.
    NothingToRemove,
    /// The theme's files will overwrite the folder's.
    WillOverwrite,
    /// The folder's files will be deleted.
    WillDelete,
}

/// What to do with the `chrome` folder, and what to tell the user, when a
/// missing folder does not stop the program.
pub fn lenient_chrome_step(go_chrome: bool, chrome_exists: bool) -> (r: (ChromeStep, ChromeNotice))
    ensures
        r.0 == (ChromeStep { create: go_chrome && !chrome_exists, enter: go_chrome }),
        !chrome_exists && go_chrome ==> r.1 == ChromeNotice::Created,
        !chrome_exists && !go_chrome ==> r.1 == ChromeNotice::NothingToRemove,
        chrome_exists && go_chrome ==> r.1 == ChromeNotice::WillOverwrite,
        chrome_exists && !go_chrome ==> r.1 == ChromeNotice::WillDelete,
{
    let step = ChromeStep { create: go_chrome && !chrome_exists, enter: go_chrome };
    let notice = if !chrome_exists {
        if go_chrome {
            ChromeNotice::Created
        } else {
            ChromeNotice::NothingToRemove
        }
    } else if go_chrome {
        ChromeNotice::WillOverwrite
    } else {
        ChromeNotice::WillDelete
    };
    (step, notice)
}

/// Folders of the Firefox folder that are not profiles.
pub open spec fn not_a_profile(name: Seq<char>) -> bool {
    ||| name == "Pending Pings"@
    ||| name == "Crash Reports"@
    ||| name == "Caches"@
    ||| name == ".mozilla"@
}

/// The test that keeps an entry as a profile the user may pick.
pub open spec fn is_profile_candidate() -> spec_fn(FsEntry) -> bool {
    |e: FsEntry| e.is_dir && !not_a_profile(e.name@)
}

/// The names of the entries that may be profiles, in listing order.
pub open spec fn profile_candidates(entries: Seq<FsEntry>) -> Seq<Seq<char>> {
    entries.filter(is_profile_candidate()).map_values(|e: FsEntry| e.name@)
}

/// Every folder of the listing is offered as a profile unless its name is
/// `Pending Pings`, `Crash Reports`, `Caches` or `.mozilla`; and every name
/// offered is the name of such a folder. Files are never offered.
pub proof fn lemma_profile_candidates(entries: Seq<FsEntry>)
    ensures
        forall|i: int|
            0 <= i < entries.len() && entries[i].is_dir && entries[i].name@ != "Pending Pings"@
                && entries[i].name@ != "Crash Reports"@ && entries[i].name@ != "Caches"@
                && entries[i].name@ != ".mozilla"@ ==> profile_candidates(entries).contains(
                #[trigger] entries[i].name@,
            ),
        forall|n: Seq<char>|
            #[trigger] profile_candidates(entries).contains(n) ==> exists|i: int|
                0 <= i < entries.len() && entries[i].is_dir && entries[i].name@ == n && n
                    != "Pending Pings"@ && n != "Crash Reports"@ && n != "Caches"@ && n
                    != ".mozilla"@,
{
    let pred = is_profile_candidate();
    let kept = entries.filter(pred);
    broadcast use vstd::seq_lib::group_filter_ensures;
    assert forall|i: int|
        0 <= i < entries.len() && entries[i].is_dir && entries[i].name@ != "Pending Pings"@
            && entries[i].name@ != "Crash Reports"@ && entries[i].name@ != "Caches"@
            && entries[i].name@ != ".mozilla"@ implies profile_candidates(entries).contains(
        #[trigger] entries[i].name@,
    ) by {
        assert(pred(entries[i]));
        assert(kept.contains(entries[i]));
        let m = choose|m: int| 0 <= m < kept.len() && kept[m] == entries[i];
        assert(profile_candidates(entries)[m] == entries[i].name@);
    }
    assert forall|n: Seq<char>| #[trigger] profile_candidates(entries).contains(n) implies exists|
        i: int,
    |
        0 <= i < entries.len() && entries[i].is_dir && entries[i].name@ == n && n
            != "Pending Pings"@ && n != "Crash Reports"@ && n != "Caches"@ && n != ".mozilla"@ by {
        let m = choose|m: int|
            0 <= m < profile_candidates(entries).len() && profile_candidates(entries)[m] == n;
        let e = kept[m];
        assert(pred(e));
        assert(kept.contains(e));
        entries.lemma_filter_contains_rev(pred, e);
        let i = choose|i: int| 0 <= i < entries.len() && entries[i] == e;
        assert(entries[i].name@ == n);
    }
}

fn not_a_profile_exec(name: &String) -> (r: bool)
    ensures
        r == not_a_profile(name@),
{
    let n = chars_of(name.as_str());
    crate::text::same_chars(&n, &chars_of("Pending Pings")) || crate::text::same_chars(&n, &chars_of("Crash Reports")) || crate::text::same_chars(
        &n,
        &chars_of("Caches"),
    ) || crate::text::same_chars(&n, &chars_of(".mozilla"))
}


/// The profiles the user may pick from, given the listing of the Firefox
/// folder: the folders other than the ones Firefox keeps for itself, in
/// ascending order.
pub fn profile_choices(entries: &Vec<FsEntry>) -> (r: Vec<String>)
    ensures
        string_views(r@).to_multiset() == profile_candidates(entries@).to_multiset(),
        sorted_texts(string_views(r@)),
{
    let mut names: Vec<String> = Vec::new();
    let mut i: usize = 0;
    proof {
        assert(entries@.take(0) =~= Seq::<FsEntry>::empty());
        reveal(Seq::filter);
        assert(Seq::<FsEntry>::empty().filter(is_profile_candidate()) =~= Seq::<FsEntry>::empty());
        assert(string_views(names@) =~= profile_candidates(entries@.take(0)));
    }
    while i < entries.len()
        invariant
            i <= entries@.len(),
            string_views(names@) == profile_candidates(entries@.take(i as int)),
        decreases entries@.len() - i,
    {
        let e = &entries[i];
        proof {
            assert(entries@.take(i + 1) =~= entries@.take(i as int).push(*e));
            entries@.take(i as int).lemma_filter_push(*e, is_profile_candidate());
        }
        if e.is_dir && !not_a_profile_exec(&e.name) {
            let ghost before = names@;
            names.push(e.name.clone());
            assert(string_views(names@) =~= string_views(before).push(e.name@));
            assert(profile_candidates(entries@.take(i + 1)) =~= profile_candidates(
                entries@.take(i as int),
            ).push(e.name@));
        } else {
            assert(profile_candidates(entries@.take(i + 1)) =~= profile_candidates(
                entries@.take(i as int),
            ));
        }
        i = i + 1;
    }
    assert(entries@.take(entries@.len() as int) =~= entries@);
    sort_texts(names)
}

} // verus!
