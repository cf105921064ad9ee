//! Reading what the user passed on the command line.

use vstd::prelude::*;
use crate::text::{chars_of, contains_exec, contains_text, split_by, split_on_any, starts_with, starts_with_exec, string_of, string_views, views, ends_with, ends_with_exec};

verus! {

/// The prefix of an address handed over by the browser's protocol handler.
pub open spec fn protocol_prefix() -> Seq<char> {
    "themefox-manager:// "@
}

/// The words of the last command-line argument: split at spaces when it came
/// through the protocol handler, otherwise the placeholder `nothing` and the
/// argument itself. The address is always the second of them.
pub open spec fn argument_words(arg: Seq<char>) -> Seq<Seq<char>> {
    if starts_with(arg, protocol_prefix()) {
        split_by(arg, seq![' '])
    } else {
        seq!["nothing"@, arg]
    }
}

/// A piece count of at least two for a text holding a separator.
pub proof fn lemma_split_by_two(s: Seq<char>, seps: Seq<char>, i: int)
    requires
        0 <= i < s.len(),
        seps.contains(s[i]),
    ensures
        split_by(s, seps).len() >= 2,
    decreases s.len(),
{
    crate::text::lemma_split_by_nonempty(s.drop_last(), seps);
    if i < s.len() - 1 {
        lemma_split_by_two(s.drop_last(), seps, i);
    }
}

proof fn lemma_argument_words_len(arg: Seq<char>)
    ensures
        argument_words(arg).len() >= 2,
{
    if starts_with(arg, protocol_prefix()) {
        reveal_strlit("themefox-manager:// ");
        assert(arg.take(20)[19] == arg[19]);
        assert(arg[19] == ' ');
        assert(seq![' '][0] == ' ');
        lemma_split_by_two(arg, seq![' '], 19);
    }
}

/// The words of the last command-line argument (see `argument_words`).
pub fn split_argument(arg: &str) -> (r: Vec<String>)
    ensures
        string_views(r@) == argument_words(arg@),
        r@.len() >= 2,
{
    proof {
        lemma_argument_words_len(arg@);
    }
    let a = chars_of(arg);
    if starts_with_exec(&a, &chars_of("themefox-manager:// ")) {
        let space = vec![' '];
        assert(space@ =~= seq![' ']);
        let parts = split_on_any(&a, &space);
        let mut r: Vec<String> = Vec::new();
        let mut i: usize = 0;
        while i < parts.len()
            invariant
                i <= parts@.len(),
                string_views(r@) == views(parts@).take(i as int),
            decreases parts@.len() - i,
        {
            let ghost before = r@;
            r.push(string_of(&parts[i]));
            assert(views(parts@)[i as int] == parts@[i as int]@);
            assert(string_views(r@) =~= string_views(before).push(parts@[i as int]@));
            assert(string_views(r@) =~= views(parts@).take(i + 1));
            i = i + 1;
        }
        assert(views(parts@).take(parts@.len() as int) =~= views(parts@));
        r
    } else {
        let mut r: Vec<String> = Vec::new();
        r.push("nothing".to_owned());
        r.push(arg.to_owned());
        assert(string_views(r@) =~= seq!["nothing"@, arg@]);
        r
    }
}

/// The address of a theme on themefox.net: it starts with `http` and holds
/// `://`, `themefox.net` and `/`.
pub open spec fn is_themefox_url(s: Seq<char>) -> bool {
    starts_with(s, "http"@) && contains_text(s, "://"@) && contains_text(s, "themefox.net"@)
        && contains_text(s, "/"@)
}

/// An address is accepted exactly when it starts with `http` and holds
/// `://`, `themefox.net` and a `/` anywhere in it.
pub proof fn lemma_themefox_url_accepted(s: Seq<char>)
    ensures
        is_themefox_url(s) <==> (starts_with(s, "http"@) && contains_text(s, "://"@)
            && contains_text(s, "themefox.net"@) && s.contains('/')),
{
    reveal_strlit("/");
    if s.contains('/') {
        let i = choose|i: int| 0 <= i < s.len() && s[i] == '/';
        assert(s.subrange(i, i + 1) =~= "/"@);
        assert(crate::text::occurs_at(s, "/"@, i));
    }
    if contains_text(s, "/"@) {
        let i = choose|i: int| crate::text::occurs_at(s, "/"@, i);
        assert(s.subrange(i, i + 1)[0] == s[i]);
    }
}

/// Whether `s` is the address of a theme on themefox.net.
pub fn check_themefox_url(s: &str) -> (r: bool)
    ensures
        r == is_themefox_url(s@),
{
    let c = chars_of(s);
    starts_with_exec(&c, &chars_of("http")) && contains_exec(&c, &chars_of("://")) && contains_exec(
        &c,
        &chars_of("themefox.net"),
    ) && contains_exec(&c, &chars_of("/"))
}

/// The theme's identifier in its address: the next-to-last piece between
/// slashes.
pub open spec fn theme_id_of(url: Seq<char>) -> Seq<char> {
    let parts = split_by(url, seq!['/']);
    parts[parts.len() - 2]
}

/// A theme's identifier is a single piece of its address: it holds no `/`.
pub proof fn lemma_theme_id_has_no_slash(url: Seq<char>)
    requires
        url.contains('/'),
    ensures
        !theme_id_of(url).contains('/'),
{
    let i = choose|i: int| 0 <= i < url.len() && url[i] == '/';
    assert(seq!['/'][0] == '/');
    lemma_split_by_two(url, seq!['/'], i);
    crate::text::lemma_split_by_pieces(url, seq!['/']);
    let parts = split_by(url, seq!['/']);
    let id = theme_id_of(url);
    if id.contains('/') {
        let j = choose|j: int| 0 <= j < id.len() && id[j] == '/';
        assert(parts[parts.len() - 2][j] == '/');
        assert(seq!['/'].contains(parts[parts.len() - 2][j]));
    }
}

/// The theme's identifier in its address (see `theme_id_of`).
pub fn theme_id(url: &str) -> (r: String)
    requires
        url@.contains('/'),
    ensures
        r@ == theme_id_of(url@),
{
    let slash = vec!['/'];
    assert(slash@ =~= seq!['/']);
    let parts = split_on_any(&chars_of(url), &slash);
    proof {
        let i = choose|i: int| 0 <= i < url@.len() && url@[i] == '/';
        lemma_split_by_two(url@, seq!['/'], i);
        assert(views(parts@)[parts@.len() - 2] == parts@[parts@.len() - 2]@);
    }
    string_of(&parts[parts.len() - 2])
}

/// The address of the theme server's listing of the releases of theme `id`.
pub fn release_query(id: &str) -> (r: String)
    ensures
        r@ == "127.0.0.1:1234/get/"@ + id@,
{
    let mut r = "127.0.0.1:1234/get/".to_owned();
    r.append(id);
    r
}

/// The repository address for `--git`: the last argument up to its first
/// space.
pub fn git_url(arg: &str) -> (r: String)
    ensures
        r@ == split_by(arg@, seq![' '])[0],
{
    let space = vec![' '];
    assert(space@ =~= seq![' ']);
    let parts = split_on_any(&chars_of(arg), &space);
    proof {
        crate::text::lemma_split_by_nonempty(arg@, seq![' ']);
        assert(views(parts@)[0] == parts@[0]@);
    }
    string_of(&parts[0])
}

/// The line that reports a finished step (shown in green).
pub fn success_line(msg: &str) -> (r: String)
    ensures
        r@ == "✔  "@ + msg@,
{
    let mut r = "✔  ".to_owned();
    r.append(msg);
    r
}

/// Whether an archive entry is a folder: its name ends with `/`.
pub fn is_folder_entry(name: &str) -> (r: bool)
    ensures
        r == ends_with(name@, "/"@),
{
    ends_with_exec(&chars_of(name), &chars_of("/"))
}

/// The parts of a path that lie below the folder a repository was cloned
/// into: all but the first three (the root, `tmp` and `chrome`). The program
/// counts the parts with an 8-bit counter, which stops it on a path of more
/// than 127 parts.
pub fn below_clone_folder(parts: &Vec<String>) -> (r: Vec<String>)
    requires
        parts@.len() <= 127,
    ensures
        parts@.len() <= 3 ==> r@.len() == 0,
        parts@.len() > 3 ==> string_views(r@) == string_views(parts@).skip(3),
{
    let mut r: Vec<String> = Vec::new();
    let mut run: i8 = 0;
    let mut i: usize = 0;
    while i < parts.len()
        invariant
            parts@.len() <= 127,
            i <= parts@.len(),
            run == i,
            i <= 3 ==> r@.len() == 0,
            i > 3 ==> string_views(r@) == string_views(parts@).subrange(3, i as int),
        decreases parts@.len() - i,
    {
        run = run + 1;
        if run > 3 {
            let ghost before = r@;
            r.push(parts[i].clone());
            assert(string_views(r@) =~= string_views(parts@).subrange(3, i + 1));
        }
        i = i + 1;
    }
    assert(parts@.len() > 3 ==> string_views(parts@).subrange(3, parts@.len() as int)
        =~= string_views(parts@).skip(3));
    r
}

} // verus!
