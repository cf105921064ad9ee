//! Finding the folder that holds a theme inside a downloaded repository.
//!
//! When a repository does not have `userChrome.css` and `userContent.css` at
//! its top, the program looks through its folders, six levels deep, for the
//! files that change how Firefox looks, and offers the places it found.

use vstd::prelude::*;
use crate::order::{sort_texts, sorted_texts};
use crate::text::string_views;

verus! {

/// A file or folder of the repository, with the listing of a folder in the
/// order the file system gave it.
pub struct FsEntry {
    /// Its path, as the listing gave it (for example `./theme/chrome`).
    pub path: String,
    /// Its file name.
    pub name: String,
    pub is_dir: bool,
    /// The entries of a folder; empty for a file, and for folders deeper than
    /// the search looks.
    pub children: Vec<FsEntry>,
}

/// The deepest level of folders whose listings the search reads.
pub const DEEPEST_LEVEL: u8 = 6;

/// The files that change how Firefox looks or behaves.
pub open spec fn is_theme_file(name: Seq<char>) -> bool {
    ||| name == "userContent.css"@
    ||| name == "userChrome.css"@
    ||| name == "userContent.js"@
    ||| name == "userChrome.js"@
}

/// What the search has gathered: the places it offers, and the paths it
/// reports as it goes deeper.
pub type Found = (Seq<Seq<char>>, Seq<Seq<char>>);

/// The search through the listing of folder `d`, at depth `level` (1 for
/// the folders at the top of the repository), starting from `st`.
pub open spec fn scan_dir(d: FsEntry, level: int, st: Found) -> Found
    decreases 7 - level, 1int, 0int,
{
    if level < 1 || level > 6 {
        st
    } else {
        scan_children(d, level, 0, st)
    }
}

/// The search through the entries of `d` from the `i`-th on.
pub open spec fn scan_children(d: FsEntry, level: int, i: int, st: Found) -> Found
    decreases 7 - level, 0int, d.children@.len() - i,
{
    if i < 0 || i >= d.children@.len() || level < 1 || level > 6 {
        st
    } else {
        let t = d.children@[i];
        let next = if !t.is_dir && is_theme_file(t.name@) {
            // A theme file: offer this place, unless the folder is already offered.
            if st.0.contains(d.path@) {
                st
            } else if level == 1 {
                (st.0.push(t.path@), st.1)
            } else {
                (st.0.push(d.path@), st.1)
            }
        } else if level == 6 {
            st
        } else {
            let reported = if level == 1 && !t.is_dir {
                st
            } else {
                (st.0, st.1.push(t.path@))
            };
            if t.is_dir {
                scan_dir(t, level + 1, reported)
            } else {
                reported
            }
        };
        scan_children(d, level, i + 1, next)
    }
}

/// The search through the top of the repository, from its `i`-th entry on:
/// every folder but `.git` is searched.
pub open spec fn scan_top(top: Seq<FsEntry>, i: int, st: Found) -> Found
    decreases top.len() - i,
{
    if i < 0 || i >= top.len() {
        st
    } else {
        let e = top[i];
        let next = if e.is_dir && e.name@ != ".git"@ {
            scan_dir(e, 1, st)
        } else {
            st
        };
        scan_top(top, i + 1, next)
    }
}

/// What the search finds in a repository whose top holds `top`.
pub open spec fn search(top: Seq<FsEntry>) -> Found {
    scan_top(top, 0, (Seq::empty(), Seq::empty()))
}

/// The folder reached from `d` by going down, one level at a time, into the
/// entries at the indices `steps`, each of which must be a folder.
pub open spec fn folder_at(d: FsEntry, steps: Seq<int>) -> Option<FsEntry>
    decreases steps.len(),
{
    if steps.len() == 0 {
        Some(d)
    } else if 0 <= steps[0] < d.children@.len() && d.children@[steps[0]].is_dir {
        folder_at(d.children@[steps[0]], steps.drop_first())
    } else {
        None
    }
}

/// `name` is one of the four files that make a folder a theme's folder.
pub open spec fn names_theme_file(name: Seq<char>) -> bool {
    name == "userContent.css"@ || name == "userChrome.css"@ || name == "userContent.js"@
        || name == "userChrome.js"@
}

/// The folder `f`, at depth `depth`, counts as offered in `opts` because
/// of its `k`-th entry: its own path is there, or, at the top depth, the
/// path of that entry.
pub open spec fn offered(opts: Seq<Seq<char>>, f: FsEntry, depth: int, k: int) -> bool {
    opts.contains(f.path@) || (depth == 1 && opts.contains(f.children@[k].path@))
}

proof fn lemma_push_contains(s: Seq<Seq<char>>, a: Seq<char>, x: Seq<char>)
    ensures
        s.push(a).contains(a),
        s.contains(x) ==> s.push(a).contains(x),
{
    assert(s.push(a)[s.len() as int] == a);
    if s.contains(x) {
        let idx = choose|idx: int| 0 <= idx < s.len() && s[idx] == x;
        assert(s.push(a)[idx] == x);
    }
}

proof fn lemma_children_keep(d: FsEntry, level: int, i: int, st: Found, x: Seq<char>)
    requires
        st.0.contains(x),
    ensures
        scan_children(d, level, i, st).0.contains(x),
    decreases 7 - level, 0int, d.children@.len() - i,
{
    if i < 0 || i >= d.children@.len() || level < 1 || level > 6 {
    } else {
        let t = d.children@[i];
        let next = if !t.is_dir && is_theme_file(t.name@) {
            if st.0.contains(d.path@) {
                st
            } else if level == 1 {
                (st.0.push(t.path@), st.1)
            } else {
                (st.0.push(d.path@), st.1)
            }
        } else if level == 6 {
            st
        } else {
            let reported = if level == 1 && !t.is_dir {
                st
            } else {
                (st.0, st.1.push(t.path@))
            };
            if t.is_dir {
                lemma_dir_keeps(t, level + 1, reported, x);
                scan_dir(t, level + 1, reported)
            } else {
                reported
            }
        };
        lemma_push_contains(st.0, t.path@, x);
        lemma_push_contains(st.0, d.path@, x);
        assert(next.0.contains(x));
        lemma_children_keep(d, level, i + 1, next, x);
    }
}

proof fn lemma_dir_keeps(d: FsEntry, level: int, st: Found, x: Seq<char>)
    requires
        st.0.contains(x),
    ensures
        scan_dir(d, level, st).0.contains(x),
    decreases 7 - level, 1int, 0int,
{
    if 1 <= level <= 6 {
        lemma_children_keep(d, level, 0, st, x);
    }
}

proof fn lemma_children_offer(
    d: FsEntry,
    level: int,
    i: int,
    st: Found,
    steps: Seq<int>,
    k: int,
)
    requires
        1 <= level,
        level + steps.len() <= 6,
        0 <= i,
        steps.len() > 0 ==> i <= steps[0],
        steps.len() == 0 ==> i <= k,
        folder_at(d, steps) matches Some(f) && 0 <= k < f.children@.len()
            && !f.children@[k].is_dir && names_theme_file(f.children@[k].name@),
    ensures
        offered(
            scan_children(d, level, i, st).0,
            folder_at(d, steps).unwrap(),
            level + steps.len(),
            k,
        ),
    decreases 7 - level, 0int, d.children@.len() - i,
{
    let f = folder_at(d, steps).unwrap();
    let j = if steps.len() == 0 {
        k
    } else {
        steps[0]
    };
    assert(0 <= j < d.children@.len());
    let t = d.children@[i];
    let next = if !t.is_dir && is_theme_file(t.name@) {
        if st.0.contains(d.path@) {
            st
        } else if level == 1 {
            (st.0.push(t.path@), st.1)
        } else {
            (st.0.push(d.path@), st.1)
        }
    } else if level == 6 {
        st
    } else {
        let reported = if level == 1 && !t.is_dir {
            st
        } else {
            (st.0, st.1.push(t.path@))
        };
        if t.is_dir {
            scan_dir(t, level + 1, reported)
        } else {
            reported
        }
    };
    assert(scan_children(d, level, i, st) == scan_children(d, level, i + 1, next));
    if i < j {
        lemma_children_offer(d, level, i + 1, next, steps, k);
    } else {
        if steps.len() == 0 {
            assert(f == d);
            lemma_push_contains(st.0, t.path@, t.path@);
            lemma_push_contains(st.0, d.path@, d.path@);
            assert(offered(next.0, f, level, k));
        } else {
            let reported = if level == 1 && !t.is_dir {
                st
            } else {
                (st.0, st.1.push(t.path@))
            };
            assert(folder_at(t, steps.drop_first()) == Some(f));
            lemma_dir_offer(t, level + 1, reported, steps.drop_first(), k);
            assert(offered(next.0, f, level + steps.len(), k));
        }
        let x = if next.0.contains(f.path@) {
            f.path@
        } else {
            f.children@[k].path@
        };
        lemma_children_keep(d, level, i + 1, next, x);
    }
}

proof fn lemma_dir_offer(d: FsEntry, level: int, st: Found, steps: Seq<int>, k: int)
    requires
        1 <= level,
        level + steps.len() <= 6,
        folder_at(d, steps) matches Some(f) && 0 <= k < f.children@.len()
            && !f.children@[k].is_dir && names_theme_file(f.children@[k].name@),
    ensures
        offered(scan_dir(d, level, st).0, folder_at(d, steps).unwrap(), level + steps.len(), k),
    decreases 7 - level, 1int, 0int,
{
    lemma_children_offer(d, level, 0, st, steps, k);
}

proof fn lemma_top_keeps(top: Seq<FsEntry>, i: int, st: Found, x: Seq<char>)
    requires
        st.0.contains(x),
    ensures
        scan_top(top, i, st).0.contains(x),
    decreases top.len() - i,
{
    if 0 <= i < top.len() {
        let e = top[i];
        if e.is_dir && e.name@ != ".git"@ {
            lemma_dir_keeps(e, 1, st, x);
            lemma_top_keeps(top, i + 1, scan_dir(e, 1, st), x);
        } else {
            lemma_top_keeps(top, i + 1, st, x);
        }
    }
}

proof fn lemma_top_offer(top: Seq<FsEntry>, i: int, st: Found, j: int, steps: Seq<int>, k: int)
    requires
        0 <= i <= j < top.len(),
        top[j].is_dir,
        top[j].name@ != ".git"@,
        steps.len() <= 5,
        folder_at(top[j], steps) matches Some(f) && 0 <= k < f.children@.len()
            && !f.children@[k].is_dir && names_theme_file(f.children@[k].name@),
    ensures
        offered(scan_top(top, i, st).0, folder_at(top[j], steps).unwrap(), 1 + steps.len() as int, k),
    decreases top.len() - i,
{
    let e = top[i];
    let next = if e.is_dir && e.name@ != ".git"@ {
        scan_dir(e, 1, st)
    } else {
        st
    };
    if i < j {
        lemma_top_offer(top, i + 1, next, j, steps, k);
    } else {
        let f = folder_at(top[j], steps).unwrap();
        lemma_dir_offer(e, 1, st, steps, k);
        let x = if next.0.contains(f.path@) {
            f.path@
        } else {
            f.children@[k].path@
        };
        lemma_top_keeps(top, i + 1, next, x);
    }
}

/// Every folder that the search looks through and that directly holds one of
/// the files `userContent.css`, `userChrome.css`, `userContent.js` or
/// `userChrome.js` is offered. The folders looked through are those at the
/// top of the repository other than `.git` and those inside them, at most
/// five levels further down; such a folder is reached from the top entry
/// `top[j]` through the folder indices `steps`. Its path is among the places
/// found, or, for a folder at the top, the path of the file itself (what is
/// offered there is the file).
pub proof fn lemma_search_offers_theme_folders(
    top: Seq<FsEntry>,
    j: int,
    steps: Seq<int>,
    k: int,
)
    requires
        0 <= j < top.len(),
        top[j].is_dir,
        top[j].name@ != ".git"@,
        steps.len() <= 5,
        folder_at(top[j], steps) matches Some(f) && 0 <= k < f.children@.len()
            && !f.children@[k].is_dir && names_theme_file(f.children@[k].name@),
    ensures
        search(top).0.contains(folder_at(top[j], steps).unwrap().path@) || (steps.len() == 0
            && search(top).0.contains(top[j].children@[k].path@)),
{
    lemma_top_offer(top, 0, (Seq::empty(), Seq::empty()), j, steps, k);
}

/// `x` is the place offered for the `k`-th entry of the folder reached from
/// the top entry `top[j]` through `steps`: that entry is one of the theme
/// files, the folder is one the search looks through, and `x` is the
/// folder's path or, for a folder at the top, the file's path.
pub open spec fn place_for(top: Seq<FsEntry>, j: int, steps: Seq<int>, k: int, x: Seq<char>) -> bool {
    &&& 0 <= j < top.len()
    &&& top[j].is_dir
    &&& top[j].name@ != ".git"@
    &&& steps.len() <= 5
    &&& folder_at(top[j], steps) matches Some(f) && 0 <= k < f.children@.len()
        && !f.children@[k].is_dir && names_theme_file(f.children@[k].name@) && (x == f.path@ || (
    steps.len() == 0 && x == f.children@[k].path@))
}

/// `x` is a place the search may offer in the repository whose top holds
/// `top` (see `place_for`).
pub open spec fn theme_place(top: Seq<FsEntry>, x: Seq<char>) -> bool {
    exists|j: int, steps: Seq<int>, k: int| #[trigger] place_for(top, j, steps, k, x)
}

/// Every place in `opts` is a theme place of the repository.
pub open spec fn all_theme_places(top: Seq<FsEntry>, opts: Seq<Seq<char>>) -> bool {
    forall|x: Seq<char>| #[trigger] opts.contains(x) ==> theme_place(top, x)
}

proof fn lemma_push_place(top: Seq<FsEntry>, opts: Seq<Seq<char>>, y: Seq<char>)
    requires
        all_theme_places(top, opts),
        theme_place(top, y),
    ensures
        all_theme_places(top, opts.push(y)),
{
    assert forall|x: Seq<char>| #[trigger] opts.push(y).contains(x) implies theme_place(top, x) by {
        let idx = choose|idx: int| 0 <= idx < opts.push(y).len() && opts.push(y)[idx] == x;
        if idx < opts.len() {
            assert(opts[idx] == x);
            assert(opts.contains(x));
        }
    }
}

proof fn lemma_folder_at_push(d: FsEntry, steps: Seq<int>, i: int)
    requires
        folder_at(d, steps) matches Some(f) && 0 <= i < f.children@.len() && f.children@[i].is_dir,
    ensures
        folder_at(d, steps.push(i)) == Some(folder_at(d, steps).unwrap().children@[i]),
    decreases steps.len(),
{
    if steps.len() > 0 {
        assert(steps.push(i)[0] == steps[0]);
        assert(steps.push(i).drop_first() =~= steps.drop_first().push(i));
        lemma_folder_at_push(d.children@[steps[0]], steps.drop_first(), i);
    } else {
        assert(steps.push(i)[0] == i);
        assert(steps.push(i).drop_first() =~= Seq::<int>::empty());
        assert(folder_at(d.children@[i], Seq::<int>::empty()) == Some(d.children@[i]));
    }
}

proof fn lemma_children_sound(
    top: Seq<FsEntry>,
    j: int,
    steps: Seq<int>,
    d: FsEntry,
    level: int,
    i: int,
    st: Found,
)
    requires
        0 <= j < top.len(),
        top[j].is_dir,
        top[j].name@ != ".git"@,
        folder_at(top[j], steps) == Some(d),
        level == 1 + steps.len(),
        all_theme_places(top, st.0),
    ensures
        all_theme_places(top, scan_children(d, level, i, st).0),
    decreases 7 - level, 0int, d.children@.len() - i,
{
    if i < 0 || i >= d.children@.len() || level < 1 || level > 6 {
    } else {
        let t = d.children@[i];
        let next = if !t.is_dir && is_theme_file(t.name@) {
            if st.0.contains(d.path@) {
                st
            } else if level == 1 {
                assert(place_for(top, j, steps, i, t.path@));
                lemma_push_place(top, st.0, t.path@);
                (st.0.push(t.path@), st.1)
            } else {
                assert(place_for(top, j, steps, i, d.path@));
                lemma_push_place(top, st.0, d.path@);
                (st.0.push(d.path@), st.1)
            }
        } else if level == 6 {
            st
        } else {
            let reported = if level == 1 && !t.is_dir {
                st
            } else {
                (st.0, st.1.push(t.path@))
            };
            if t.is_dir {
                lemma_folder_at_push(top[j], steps, i);
                lemma_dir_sound(top, j, steps.push(i), t, level + 1, reported);
                scan_dir(t, level + 1, reported)
            } else {
                reported
            }
        };
        lemma_children_sound(top, j, steps, d, level, i + 1, next);
    }
}

proof fn lemma_dir_sound(
    top: Seq<FsEntry>,
    j: int,
    steps: Seq<int>,
    d: FsEntry,
    level: int,
    st: Found,
)
    requires
        0 <= j < top.len(),
        top[j].is_dir,
        top[j].name@ != ".git"@,
        folder_at(top[j], steps) == Some(d),
        level == 1 + steps.len(),
        all_theme_places(top, st.0),
    ensures
        all_theme_places(top, scan_dir(d, level, st).0),
    decreases 7 - level, 1int, 0int,
{
    if 1 <= level <= 6 {
        lemma_children_sound(top, j, steps, d, level, 0, st);
    }
}

proof fn lemma_top_sound(top: Seq<FsEntry>, i: int, st: Found)
    requires
        all_theme_places(top, st.0),
    ensures
        all_theme_places(top, scan_top(top, i, st).0),
    decreases top.len() - i,
{
    if 0 <= i < top.len() {
        let e = top[i];
        if e.is_dir && e.name@ != ".git"@ {
            assert(folder_at(top[i], Seq::<int>::empty()) == Some(e));
            lemma_dir_sound(top, i, Seq::empty(), e, 1, st);
            lemma_top_sound(top, i + 1, scan_dir(e, 1, st));
        } else {
            lemma_top_sound(top, i + 1, st);
        }
    }
}

/// The search offers nothing else: every place it offers is the path of a
/// folder it looks through that directly holds one of the theme files, or,
/// for a folder at the top of the repository, the path of such a file.
pub proof fn lemma_search_offers_only_theme_places(top: Seq<FsEntry>, x: Seq<char>)
    requires
        search(top).0.contains(x),
    ensures
        theme_place(top, x),
{
    lemma_top_sound(top, 0, (Seq::empty(), Seq::empty()));
}

/// The result of the search.
pub struct ThemeSearch {
    /// The places offered, in ascending order.
    pub options: Vec<String>,
    /// The paths reported while looking, in the order they were reached.
    pub visited: Vec<String>,
}

/// Whether a repository needs to be searched: it lacks `userChrome.css` or
/// `userContent.css` at its top.
pub fn needs_search(has_user_chrome: bool, has_user_content: bool) -> (r: bool)
    ensures
        r == (!has_user_chrome || !has_user_content),
{
    !has_user_chrome || !has_user_content
}

fn is_theme_file_exec(name: &String) -> (r: bool)
    ensures
        r == is_theme_file(name@),
{
    let n = crate::text::chars_of(name.as_str());
    let a = crate::text::chars_of("userContent.css");
    let b = crate::text::chars_of("userChrome.css");
    let c = crate::text::chars_of("userContent.js");
    let d = crate::text::chars_of("userChrome.js");
    crate::text::same_chars(&n, &a) || crate::text::same_chars(&n, &b) || crate::text::same_chars(&n, &c) || crate::text::same_chars(&n, &d)
}


fn contains_string(v: &Vec<String>, s: &String) -> (r: bool)
    ensures
        r == string_views(v@).contains(s@),
{
    let mut i: usize = 0;
    while i < v.len()
        invariant
            i <= v@.len(),
            forall|k: int| 0 <= k < i ==> v@[k]@ != s@,
        decreases v@.len() - i,
    {
        if v[i] == *s {
            assert(string_views(v@)[i as int] == s@);
            return true;
        }
        i = i + 1;
    }
    assert forall|k: int| 0 <= k < string_views(v@).len() implies string_views(v@)[k] != s@ by {
        assert(string_views(v@)[k] == v@[k]@);
    }
    false
}

proof fn lemma_push_view(v: Seq<String>, s: String)
    ensures
        string_views(v.push(s)) == string_views(v).push(s@),
{
    assert(string_views(v.push(s)) =~= string_views(v).push(s@));
}

fn scan_dir_exec(d: &FsEntry, level: u8, options: &mut Vec<String>, visited: &mut Vec<String>)
    requires
        1 <= level <= 6,
    ensures
        (string_views(final(options)@), string_views(final(visited)@)) == scan_dir(
            *d,
            level as int,
            (string_views(old(options)@), string_views(old(visited)@)),
        ),
    decreases 7 - level,
{
    let ghost start: Found = (string_views(options@), string_views(visited@));
    let mut i: usize = 0;
    while i < d.children.len()
        invariant
            1 <= level <= 6,
            i <= d.children@.len(),
            scan_dir(*d, level as int, start) == scan_children(
                *d,
                level as int,
                i as int,
                (string_views(options@), string_views(visited@)),
            ),
        decreases d.children@.len() - i,
    {
        let t = &d.children[i];
        if !t.is_dir && is_theme_file_exec(&t.name) {
            if !contains_string(options, &d.path) {
                let ghost before = options@;
                if level == 1 {
                    options.push(t.path.clone());
                    proof { lemma_push_view(before, t.path); }
                } else {
                    options.push(d.path.clone());
                    proof { lemma_push_view(before, d.path); }
                }
            }
        } else if level < 6 {
            if !(level == 1 && !t.is_dir) {
                let ghost before = visited@;
                visited.push(t.path.clone());
                proof { lemma_push_view(before, t.path); }
            }
            if t.is_dir {
                scan_dir_exec(t, level + 1, options, visited);
            }
        }
        i = i + 1;
    }
}

/// Searches a repository whose top holds `top` (see `search`), and sorts the
/// places found.
pub fn search_theme(top: &Vec<FsEntry>) -> (r: ThemeSearch)
    ensures
        string_views(r.options@).to_multiset() == search(top@).0.to_multiset(),
        sorted_texts(string_views(r.options@)),
        string_views(r.visited@) == search(top@).1,
{
    let mut options: Vec<String> = Vec::new();
    let mut visited: Vec<String> = Vec::new();
    let mut i: usize = 0;
    let git = crate::text::chars_of(".git");
    proof {
        assert(string_views(options@) =~= Seq::<Seq<char>>::empty());
        assert(string_views(visited@) =~= Seq::<Seq<char>>::empty());
    }
    while i < top.len()
        invariant
            git@ == ".git"@,
            i <= top@.len(),
            search(top@) == scan_top(top@, i as int, (string_views(options@), string_views(visited@))),
        decreases top@.len() - i,
    {
        let e = &top[i];
        if e.is_dir && !crate::text::same_chars(&crate::text::chars_of(e.name.as_str()), &git) {
            scan_dir_exec(e, 1, &mut options, &mut visited);
        }
        i = i + 1;
    }
    let sorted = sort_texts(options);
    ThemeSearch { options: sorted, visited }
}

} // verus!
