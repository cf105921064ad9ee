//! Turning on the Firefox preference that lets `userChrome.css` and
//! `userContent.css` take effect, through the profile's `user.js`.

use vstd::prelude::*;
use crate::text::{chars_of, contains_exec, contains_text, occurs_at};

verus! {

/// The preference line the program writes to `user.js`.
pub open spec fn pref_line() -> Seq<char> {
    "user_pref(\"toolkit.legacyUserProfileCustomizations.stylesheets\", true); "@
}

/// The text whose presence in `user.js` shows the preference is on.
pub open spec fn pref_marker() -> Seq<char> {
    "\"toolkit.legacyUserProfileCustomizations.stylesheets\", true"@
}

/// What to do to `user.js`.
#[derive(Debug, PartialEq, Eq)]
pub enum CssUpdate {
    /// Create the file with this text.
    Create(String),
    /// Leave it: the preference is already on.
    AlreadyEnabled,
    /// Add this text at its end.
    Append(String),
}

/// The text of `user.js` once the preference is on, given its text before
/// (`None` when there is no such file).
pub open spec fn enabled_text(existing: Option<Seq<char>>) -> Seq<char> {
    match existing {
        None => pref_line(),
        Some(t) => if contains_text(t, pref_marker()) {
            t
        } else {
            t + "\n"@ + pref_line() + "\n"@
        },
    }
}

/// The text that an update gives `user.js`.
pub open spec fn apply_update(existing: Option<Seq<char>>, u: CssUpdate) -> Seq<char> {
    match u {
        CssUpdate::Create(c) => c@,
        CssUpdate::AlreadyEnabled => match existing {
            Some(t) => t,
            None => Seq::empty(),
        },
        CssUpdate::Append(a) => match existing {
            Some(t) => t + a@,
            None => a@,
        },
    }
}

/// What to do to `user.js`, whose text is `existing` (`None` when there is
/// no such file): create it with the preference line; leave it when it
/// already turns the preference on; otherwise add the line, on a line of its
/// own, at its end.
pub fn stylesheet_update(existing: Option<&str>) -> (r: CssUpdate)
    ensures
        existing is None ==> (r matches CssUpdate::Create(c) && c@ == pref_line()),
        existing matches Some(t) && contains_text(t@, pref_marker()) ==> r
            == CssUpdate::AlreadyEnabled,
        existing matches Some(t) && !contains_text(t@, pref_marker()) ==> (r matches CssUpdate::Append(
            a,
        ) && a@ == "\n"@ + pref_line() + "\n"@),
        apply_update(
            match existing {
                Some(t) => Some(t@),
                None => None,
            },
            r,
        ) == enabled_text(
            match existing {
                Some(t) => Some(t@),
                None => None,
            },
        ),
{
    let line = "user_pref(\"toolkit.legacyUserProfileCustomizations.stylesheets\", true); ";
    match existing {
        None => CssUpdate::Create(line.to_owned()),
        Some(t) => {
            let marker = chars_of("\"toolkit.legacyUserProfileCustomizations.stylesheets\", true");
            if contains_exec(&chars_of(t), &marker) {
                CssUpdate::AlreadyEnabled
            } else {
                let mut a = "\n".to_owned();
                a.append(line);
                a.append("\n");
                proof {
                    assert(t@ + a@ =~= t@ + "\n"@ + pref_line() + "\n"@);
                }
                CssUpdate::Append(a)
            }
        },
    }
}

proof fn lemma_marker_in_line()
    ensures
        occurs_at(pref_line(), pref_marker(), 10),
{
    reveal_strlit("user_pref(\"toolkit.legacyUserProfileCustomizations.stylesheets\", true); ");
    reveal_strlit("\"toolkit.legacyUserProfileCustomizations.stylesheets\", true");
    assert(pref_line().subrange(10, 10 + pref_marker().len() as int) =~= pref_marker());
}

/// Once the preference is turned on, `user.js` shows it on: a second run
/// finds it enabled and leaves the file as it is.
pub proof fn lemma_stylesheets_stay_enabled(existing: Option<Seq<char>>)
    ensures
        contains_text(enabled_text(existing), pref_marker()),
        enabled_text(Some(enabled_text(existing))) == enabled_text(existing),
{
    lemma_marker_in_line();
    match existing {
        None => {
            assert(occurs_at(pref_line(), pref_marker(), 10));
        },
        Some(t) => {
            if !contains_text(t, pref_marker()) {
                let u = t + "\n"@ + pref_line() + "\n"@;
                reveal_strlit("\n");
                let k: int = t.len() as int + 11;
                assert(u.subrange(k, k + pref_marker().len() as int) =~= pref_line().subrange(
                    10,
                    10 + pref_marker().len() as int,
                ));
                assert(occurs_at(u, pref_marker(), k));
            }
        },
    }
}

} // verus!
