//! What the program reads from, and writes as, JSON, through serde_json;
//! and UTF-8 decoding of raw bytes, through std.

use vstd::prelude::*;

verus! {

/// What serde_json makes of the document `payload`: `None` when it is not
/// valid JSON; otherwise the string held under `key` (when the document is an
/// object and that member is a string) and the document itself when it is a
/// string.
pub uninterp spec fn json_string_fields(payload: Seq<u8>, key: Seq<char>) -> Option<
    (Option<Seq<char>>, Option<Seq<char>>),
>;

/// The lower-case hexadecimal digit for `d` (0 to 15).
pub open spec fn hex_digit(d: int) -> char {
    seq!['0', '1', '2', '3', '4', '5', '6', '7', '8', '9', 'a', 'b', 'c', 'd', 'e', 'f'][d]
}

/// How serde_json writes the character `c` inside a JSON string: a quote and
/// a backslash behind a backslash, the control characters with a short
/// escape (`\b`, `\t`, `\n`, `\f`, `\r`) or as `\u00` and two hex digits,
/// and every other character as it is.
pub open spec fn json_escape(c: char) -> Seq<char> {
    let n = c as u32;
    if c == '"' {
        seq!['\\', '"']
    } else if c == '\\' {
        seq!['\\', '\\']
    } else if n == 0x08 {
        seq!['\\', 'b']
    } else if n == 0x09 {
        seq!['\\', 't']
    } else if n == 0x0A {
        seq!['\\', 'n']
    } else if n == 0x0C {
        seq!['\\', 'f']
    } else if n == 0x0D {
        seq!['\\', 'r']
    } else if n < 0x20 {
        seq!['\\', 'u', '0', '0', hex_digit(n as int / 16), hex_digit(n as int % 16)]
    } else {
        seq![c]
    }
}

/// The characters of `text`, each written as `json_escape` writes it.
pub open spec fn json_escaped(text: Seq<char>) -> Seq<char>
    decreases text.len(),
{
    if text.len() == 0 {
        Seq::empty()
    } else {
        json_escaped(text.drop_last()) + json_escape(text.last())
    }
}

/// The JSON text serde_json writes for the string `text`: the escaped
/// characters between double quotes.
pub open spec fn json_string_literal(text: Seq<char>) -> Seq<char> {
    seq!['"'] + json_escaped(text) + seq!['"']
}

/// What serde_json makes of the document `text` as a table: `None` when it is
/// not valid JSON, `Some(None)` when it is not an array, and otherwise, for
/// each element of the array in order, the JSON text of the value under each
/// of `keys` (the text `null` where the element is not an object or has no
/// such member).
pub uninterp spec fn json_table(text: Seq<char>, keys: Seq<Seq<char>>) -> Option<
    Option<Seq<Seq<Seq<char>>>>,
>;

/// The view of an optional string.
pub open spec fn opt_view(o: Option<String>) -> Option<Seq<char>> {
    match o {
        Some(s) => Some(s@),
        None => None,
    }
}

/// The view of what `read_string_fields` returns.
pub open spec fn string_fields_view(r: Option<(Option<String>, Option<String>)>) -> Option<
    (Option<Seq<char>>, Option<Seq<char>>),
> {
    match r {
        Some((a, b)) => Some((opt_view(a), opt_view(b))),
        None => None,
    }
}

/// A JSON document read as a table (see `json_table`).
pub enum JsonTable {
    Corrupt,
    NotArray,
    Rows(Vec<Vec<String>>),
}

/// The view of a row of texts.
pub open spec fn row_view(row: Vec<String>) -> Seq<Seq<char>> {
    row@.map_values(|s: String| s@)
}

/// The view of a table of texts.
pub open spec fn rows_view(rows: Seq<Vec<String>>) -> Seq<Seq<Seq<char>>> {
    rows.map_values(|r: Vec<String>| row_view(r))
}

/// The view of a `JsonTable`.
pub open spec fn table_view(t: JsonTable) -> Option<Option<Seq<Seq<Seq<char>>>>> {
    match t {
        JsonTable::Corrupt => None,
        JsonTable::NotArray => Some(None),
        JsonTable::Rows(rows) => Some(Some(rows_view(rows@))),
    }
}

/// `serde_json::from_slice` into a `Value`, then `value[key].as_str()` and
/// `value.as_str()`, each copied out. The result is named `json_string_fields`.
#[verifier::external_body]
pub(crate) fn read_string_fields(payload: &[u8], key: &str) -> (r: Option<(Option<String>, Option<String>)>)
    ensures
        string_fields_view(r) == json_string_fields(payload@, key@),
{
    match serde_json::from_slice::<serde_json::Value>(payload) {
        Ok(v) => Some((v[key].as_str().map(|s| s.to_string()), v.as_str().map(|s| s.to_string()))),
        Err(_) => None,
    }
}

/// `serde_json::to_string` of a string: its JSON text (see
/// `json_string_literal`), which serde_json reads back as that same string
/// (a JSON string has no members). serde_json fails only for a `Serialize`
/// impl that fails or a map with non-string keys, neither of which a string
/// is, so the `expect` is never reached.
#[verifier::external_body]
pub(crate) fn write_string_literal(text: &str) -> (r: String)
    ensures
        r@ == json_string_literal(text@),
        forall|key: Seq<char>|
            #[trigger] json_string_fields(vstd::utf8::encode_utf8(r@), key) == Some(
                (None::<Seq<char>>, Some(text@)),
            ),
{
    serde_json::to_string(text).expect("serde_json writes every string")
}

/// `serde_json::from_str` into a `Value`, then `as_array`, and for each
/// element the `Display` text of `element[key]` for each of `keys`. The result
/// is named `json_table`; every row has one text per key.
#[verifier::external_body]
pub(crate) fn read_table(text: &str, keys: &Vec<String>) -> (r: JsonTable)
    ensures
        table_view(r) == json_table(text@, keys@.map_values(|k: String| k@)),
        r matches JsonTable::Rows(rows) ==> forall|i: int|
            0 <= i < rows@.len() ==> #[trigger] rows@[i]@.len() == keys@.len(),
{
    match serde_json::from_str::<serde_json::Value>(text) {
        Err(_) => JsonTable::Corrupt,
        Ok(v) => match v.as_array() {
            None => JsonTable::NotArray,
            Some(items) => JsonTable::Rows(
                items.iter().map(|e| keys.iter().map(|k| e[k.as_str()].to_string()).collect()).collect(),
            ),
        },
    }
}

/// `std::str::from_utf8`: the text `bytes` encode when they are valid UTF-8.
#[verifier::external_body]
fn utf8_str(bytes: &[u8]) -> (r: Option<&str>)
    ensures
        r is Some <==> vstd::utf8::valid_utf8(bytes@),
        r matches Some(s) ==> s@ == vstd::utf8::decode_utf8(bytes@),
{
    std::str::from_utf8(bytes).ok()
}

/// The text that `bytes` encode, or `None` when they are not valid UTF-8.
pub fn utf8_text(bytes: &[u8]) -> (r: Option<String>)
    ensures
        r is Some <==> vstd::utf8::valid_utf8(bytes@),
        r matches Some(s) ==> s@ == vstd::utf8::decode_utf8(bytes@),
{
    match utf8_str(bytes) {
        Some(s) => Some(s.to_owned()),
        None => None,
    }
}

} // verus!
