//! Choosing which release of a theme to download, from the theme server's
//! JSON listing.

use vstd::prelude::*;
use crate::json::{JsonTable, json_table, read_table, rows_view, utf8_text};

verus! {

/// One entry of the server's listing: the JSON text of each member the
/// program uses (`null` for a member the entry lacks).
pub struct ReleaseEntry {
    pub theme_id: String,
    pub id: String,
    pub filename: String,
    pub filetype: String,
    pub title: String,
}

/// The members read from each entry, in the order of `entry_view`.
pub open spec fn release_keys() -> Seq<Seq<char>> {
    seq!["theme_id"@, "id"@, "filename"@, "filetype"@, "title"@]
}

/// The texts of an entry, in the order of `release_keys`.
pub open spec fn entry_view(e: ReleaseEntry) -> Seq<Seq<char>> {
    seq![e.theme_id@, e.id@, e.filename@, e.filetype@, e.title@]
}

/// The texts of a listing.
pub open spec fn entries_view(es: Seq<ReleaseEntry>) -> Seq<Seq<Seq<char>>> {
    es.map_values(|e: ReleaseEntry| entry_view(e))
}

/// Why the listing cannot be used; the program stops on it.
#[derive(Clone, Copy, Debug, PartialEq, Eq, Structural)]
pub enum ReleaseError {
    /// The server's answer is not UTF-8.
    NotUtf8,
    /// The answer is not JSON.
    Corrupt,
    /// The answer is JSON, but not an array.
    NotArray,
}

/// The server's answer is UTF-8 text holding a JSON array.
pub open spec fn usable_answer(answer: Seq<u8>) -> bool {
    vstd::utf8::valid_utf8(answer) && json_table(vstd::utf8::decode_utf8(answer), release_keys())
        matches Some(Some(_))
}

fn release_keys_exec() -> (r: Vec<String>)
    ensures
        r@.map_values(|k: String| k@) == release_keys(),
{
    let mut r: Vec<String> = Vec::new();
    r.push("theme_id".to_owned());
    r.push("id".to_owned());
    r.push("filename".to_owned());
    r.push("filetype".to_owned());
    r.push("title".to_owned());
    assert(r@.map_values(|k: String| k@) =~= release_keys());
    r
}

fn entries_of(rows: Vec<Vec<String>>) -> (r: Vec<ReleaseEntry>)
    requires
        forall|k: int| 0 <= k < rows@.len() ==> #[trigger] rows@[k]@.len() == 5,
    ensures
        entries_view(r@) == rows_view(rows@),
{
    let mut es: Vec<ReleaseEntry> = Vec::new();
    let mut i: usize = 0;
    while i < rows.len()
        invariant
            i <= rows@.len(),
            forall|k: int| 0 <= k < rows@.len() ==> #[trigger] rows@[k]@.len() == 5,
            entries_view(es@) == rows_view(rows@).take(i as int),
        decreases rows@.len() - i,
    {
        let row = &rows[i];
        assert(row@.len() == 5);
        let e = ReleaseEntry {
            theme_id: row[0].clone(),
            id: row[1].clone(),
            filename: row[2].clone(),
            filetype: row[3].clone(),
            title: row[4].clone(),
        };
        let ghost before = es@;
        es.push(e);
        proof {
            assert(entry_view(e) =~= rows_view(rows@)[i as int]);
            assert(entries_view(es@) =~= entries_view(before).push(entry_view(e)));
            assert(entries_view(es@) =~= rows_view(rows@).take(i + 1));
        }
        i = i + 1;
    }
    assert(rows_view(rows@).take(rows@.len() as int) =~= rows_view(rows@));
    es
}

/// Reads the server's answer (raw bytes) as a listing of releases. An
/// answer that is not UTF-8 JSON holding an array is left out: the program
/// stops on it (see `read_release_list`).
pub fn parse_release_list(answer: &[u8]) -> (r: Vec<ReleaseEntry>)
    requires
        usable_answer(answer@),
    ensures
        json_table(vstd::utf8::decode_utf8(answer@), release_keys()) == Some(
            Some(entries_view(r@)),
        ),
{
    let text = match utf8_text(answer) {
        Some(t) => t,
        None => String::new(),
    };
    let keys = release_keys_exec();
    assert(keys@.map_values(|k: String| k@).len() == keys@.len());
    match read_table(text.as_str(), &keys) {
        JsonTable::Rows(rows) => entries_of(rows),
        _ => Vec::new(),
    }
}

/// Reads the server's answer as a listing of releases, or says why it
/// cannot (the cases the program stops on).
pub fn read_release_list(answer: &[u8]) -> (r: Result<Vec<ReleaseEntry>, ReleaseError>)
    ensures
        !vstd::utf8::valid_utf8(answer@) ==> r == Err::<Vec<ReleaseEntry>, ReleaseError>(
            ReleaseError::NotUtf8,
        ),
        vstd::utf8::valid_utf8(answer@) ==> match json_table(
            vstd::utf8::decode_utf8(answer@),
            release_keys(),
        ) {
            None => r == Err::<Vec<ReleaseEntry>, ReleaseError>(ReleaseError::Corrupt),
            Some(None) => r == Err::<Vec<ReleaseEntry>, ReleaseError>(ReleaseError::NotArray),
            Some(Some(rows)) => r matches Ok(es) && entries_view(es@) == rows,
        },
{
    let text = match utf8_text(answer) {
        Some(t) => t,
        None => return Err(ReleaseError::NotUtf8),
    };
    let keys = release_keys_exec();
    match read_table(text.as_str(), &keys) {
        JsonTable::Corrupt => Err(ReleaseError::Corrupt),
        JsonTable::NotArray => Err(ReleaseError::NotArray),
        JsonTable::Rows(_) => Ok(parse_release_list(answer)),
    }
}

/// What to do with a listing of `count` entries (the first two are not
/// releases).
#[derive(Clone, Copy, Debug, PartialEq, Eq, Structural)]
pub enum ReleaseChoice {
    /// No release: nothing is downloaded.
    Nothing,
    /// One release: the program downloads the one at index 3.
    Single,
    /// Several releases: the user picks one of the entries from index 2 on.
    Pick,
}

/// What to do with a listing of `count` entries. A listing of fewer than
/// two entries is left out: the program stops on it (its count of releases,
/// `count - 2`, would fall below zero).
pub fn release_choice(count: usize) -> (r: ReleaseChoice)
    requires
        count >= 2,
    ensures
        count == 2 ==> r == ReleaseChoice::Nothing,
        count == 3 ==> r == ReleaseChoice::Single,
        count > 3 ==> r == ReleaseChoice::Pick,
{
    if count - 2 == 0 {
        ReleaseChoice::Nothing
    } else if count - 2 == 1 {
        ReleaseChoice::Single
    } else {
        ReleaseChoice::Pick
    }
}

/// The index of the entry that `ReleaseChoice::Single` downloads.
pub const SINGLE_RELEASE_INDEX: usize = 3;

/// The titles the user picks from: those of the entries from index 2 on.
pub fn flavour_titles(entries: &Vec<ReleaseEntry>) -> (r: Vec<String>)
    requires
        entries@.len() >= 2,
    ensures
        r@.len() == entries@.len() - 2,
        forall|i: int| 0 <= i < r@.len() ==> #[trigger] r@[i]@ == entries@[i + 2].title@,
{
    let mut r: Vec<String> = Vec::new();
    let mut i: usize = 2;
    while i < entries.len()
        invariant
            2 <= i <= entries@.len(),
            r@.len() == i - 2,
            forall|k: int| 0 <= k < r@.len() ==> #[trigger] r@[k]@ == entries@[k + 2].title@,
        decreases entries@.len() - i,
    {
        r.push(entries[i].title.clone());
        i = i + 1;
    }
    r
}

/// The index of the entry for the user's pick among the titles.
pub fn picked_index(pick: usize) -> (r: usize)
    requires
        pick <= usize::MAX - 2,
    ensures
        r == pick + 2,
{
    pick + 2
}

/// The JSON text of member `k` of entry `i`, or `null` past the end of the
/// listing, as serde_json indexes an array.
pub open spec fn member_text(es: Seq<ReleaseEntry>, i: int, k: int) -> Seq<char> {
    if 0 <= i < es.len() {
        entry_view(es[i])[k]
    } else {
        "null"@
    }
}

/// The download address of the release at index `i` of the listing.
pub open spec fn download_url_text(es: Seq<ReleaseEntry>, i: int) -> Seq<char> {
    "http://beta.themefox.net/themes/"@ + member_text(es, i, 0) + "/"@ + member_text(es, i, 1)
        + "-"@ + member_text(es, i, 2) + "."@ + member_text(es, i, 3)
}

/// The download address of the release at index `i` of the listing; past
/// its end every part reads `null`.
pub fn download_url(entries: &Vec<ReleaseEntry>, i: usize) -> (r: String)
    ensures
        r@ == download_url_text(entries@, i as int),
{
    let mut r = "http://beta.themefox.net/themes/".to_owned();
    if i < entries.len() {
        let e = &entries[i];
        r.append(e.theme_id.as_str());
        r.append("/");
        r.append(e.id.as_str());
        r.append("-");
        r.append(e.filename.as_str());
        r.append(".");
        r.append(e.filetype.as_str());
    } else {
        r.append("null");
        r.append("/");
        r.append("null");
        r.append("-");
        r.append("null");
        r.append(".");
        r.append("null");
    }
    r
}

} // verus!
