//! Stored preferences: the watched-folder list and the Last.fm status read
//! from settings.

use crate::models::LastfmStatus;
use crate::text::{opt_chars, str_is};
use vstd::prelude::*;

verus! {

/// The views of a list of strings.
pub open spec fn views(v: Seq<String>) -> Seq<Seq<char>> {
    v.map_values(|s: String| s@)
}

/// The folder list after adding `path`: appended unless already listed.
pub open spec fn added(folders: Seq<Seq<char>>, path: Seq<char>) -> Seq<Seq<char>> {
    if folders.contains(path) {
        folders
    } else {
        folders.push(path)
    }
}

/// The folder list after removing `path`: every entry equal to it goes.
pub open spec fn removed(folders: Seq<Seq<char>>, path: Seq<char>) -> Seq<Seq<char>> {
    folders.filter(other_than(path))
}

/// Entries other than `path`.
pub open spec fn other_than(path: Seq<char>) -> spec_fn(Seq<char>) -> bool {
    |f: Seq<char>| f != path
}

fn contains_str(v: &Vec<String>, s: &str) -> (r: bool)
    ensures
        r == views(v@).contains(s@),
{
    let mut i: usize = 0;
    while i < v.len()
        invariant
            i <= v@.len(),
            forall|k: int| 0 <= k < i ==> v@[k]@ != s@,
        decreases v@.len() - i,
    {
        if str_is(v[i].as_str(), s) {
            assert(views(v@)[i as int] == s@);
            return true;
        }
        i = i + 1;
    }
    proof {
        if views(v@).contains(s@) {
            let k = choose|k: int| 0 <= k < views(v@).len() && views(v@)[k] == s@;
            assert(v@[k]@ == s@);
        }
    }
    false
}

/// Adds a watched folder (see [`added`]); says whether the list changed
/// (and must be saved).
pub fn add_folder(folders: Vec<String>, path: &str) -> (r: (Vec<String>, bool))
    ensures
        views(r.0@) == added(views(folders@), path@),
        r.1 == !views(folders@).contains(path@),
{
    if contains_str(&folders, path) {
        (folders, false)
    } else {
        let mut f = folders;
        let ghost before = views(f@);
        f.push(path.to_string());
        assert(views(f@) =~= before.push(path@));
        (f, true)
    }
}

/// Removes a watched folder (see [`removed`]).
pub fn remove_folder(folders: &Vec<String>, path: &str) -> (r: Vec<String>)
    ensures
        views(r@) == removed(views(folders@), path@),
{
    let ghost pred = other_than(path@);
    let ghost fv = views(folders@);
    let mut r: Vec<String> = Vec::new();
    let mut i: usize = 0;
    while i < folders.len()
        invariant
            i <= folders@.len(),
            pred == other_than(path@),
            fv == views(folders@),
            views(r@) == fv.take(i as int).filter(pred),
        decreases folders@.len() - i,
    {
        proof {
            fv.take(i as int).lemma_filter_push(fv[i as int], pred);
            assert(fv.take(i + 1) =~= fv.take(i as int).push(fv[i as int]));
        }
        if !str_is(folders[i].as_str(), path) {
            let ghost before = views(r@);
            r.push(folders[i].clone());
            assert(views(r@) =~= before.push(fv[i as int]));
        }
        i = i + 1;
    }
    assert(fv.take(i as int) =~= fv);
    r
}

/// Adding a folder twice is adding it once, and afterwards it is listed.
pub proof fn law_add_folder_idempotent(folders: Seq<Seq<char>>, path: Seq<char>)
    ensures
        added(added(folders, path), path) == added(folders, path),
        added(folders, path).contains(path),
{
    if !folders.contains(path) {
        assert(folders.push(path)[folders.len() as int] == path);
    }
}

/// After removing a folder it is no longer listed, and every other folder
/// stays.
pub proof fn law_remove_folder(folders: Seq<Seq<char>>, path: Seq<char>, other: Seq<char>)
    requires
        other != path,
    ensures
        !removed(folders, path).contains(path),
        removed(folders, path).contains(other) == folders.contains(other),
{
    let pred = other_than(path);
    if removed(folders, path).contains(path) {
        let k = choose|k: int| 0 <= k < removed(folders, path).len() && removed(folders, path)[k] == path;
        folders.lemma_filter_pred(pred, k);
    }
    if folders.contains(other) {
        let k = choose|k: int| 0 <= k < folders.len() && folders[k] == other;
        folders.lemma_filter_contains(pred, k);
    }
    if removed(folders, path).contains(other) {
        let k = choose|k: int| 0 <= k < removed(folders, path).len() && removed(folders, path)[k] == other;
        folders.lemma_filter_contains_rev(pred, other);
    }
}

/// The Last.fm status: connected when a session is stored, the user name
/// when it is non-empty, scrobbling on unless set to "false".
pub fn lastfm_status(
    has_session: bool,
    username: &Option<String>,
    scrobble_setting: &Option<String>,
    pending: i64,
) -> (r: LastfmStatus)
    ensures
        r.connected == has_session,
        opt_chars(r.username) == (match username {
            Some(u) if u@.len() > 0 => Some(u@),
            _ => None,
        }),
        r.scrobbling_enabled == (match scrobble_setting {
            Some(v) => v@ != "false"@,
            None => true,
        }),
        r.pending_scrobbles == pending,
{
    let name = match username {
        Some(u) => if u.as_str().is_empty() {
            None
        } else {
            Some(u.clone())
        },
        None => None,
    };
    let enabled = match scrobble_setting {
        Some(v) => !str_is(v.as_str(), "false"),
        None => true,
    };
    LastfmStatus {
        connected: has_session,
        username: name,
        scrobbling_enabled: enabled,
        pending_scrobbles: pending,
    }
}

/// How a yes/no setting is stored.
pub fn flag_text(on: bool) -> (r: &'static str)
    ensures
        r@ == (if on {
            "true"@
        } else {
            "false"@
        }),
{
    if on {
        "true"
    } else {
        "false"
    }
}

} // verus!
