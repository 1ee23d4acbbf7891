//! Rules of the library's records: how an artist name is matched to an
//! existing artist, which statements fill or update a record, and when a
//! known device's record is rewritten.

use crate::text::{chars_of, slice_chars, starts_with, starts_with_chars, str_is, string_of};
use crate::models::{DetectedDevice, ScannedDevice};
use vstd::prelude::*;
use vstd::utf8::encode_utf8;

verus! {

/// An artist name without a leading `The ` or `the `.
pub open spec fn without_article(name: Seq<char>) -> Seq<char> {
    if starts_with(name, "The "@) || starts_with(name, "the "@) {
        name.subrange(4, name.len() as int)
    } else {
        name
    }
}

/// The names an artist is looked up under after no exact match: the name
/// without its article, the name with `The ` in front, and, for a bare name
/// longer than three bytes, a LIKE pattern that finds it inside others.
pub struct ArtistLookup {
    pub bare: String,
    pub with_article: String,
    pub contains_pattern: Option<String>,
}

/// The looser lookups of an artist name (see [`ArtistLookup`]).
pub fn artist_lookup(name: &str) -> (r: ArtistLookup)
    ensures
        r.bare@ == without_article(name@),
        r.with_article@ == "The "@ + without_article(name@),
        match r.contains_pattern {
            Some(p) => (encode_utf8(without_article(name@)).len() as usize) > 3 && p@ == "%"@
                + without_article(name@) + "%"@,
            None => (encode_utf8(without_article(name@)).len() as usize) <= 3,
        },
{
    let cs = chars_of(name);
    let the_upper = chars_of("The ");
    let the_lower = chars_of("the ");
    let bare_chars = if starts_with_chars(cs.as_slice(), the_upper.as_slice()) || starts_with_chars(
        cs.as_slice(),
        the_lower.as_slice(),
    ) {
        proof {
            reveal_strlit("The ");
            reveal_strlit("the ");
        }
        slice_chars(cs.as_slice(), 4, cs.len())
    } else {
        let all = slice_chars(cs.as_slice(), 0, cs.len());
        assert(all@ =~= cs@);
        all
    };
    let bare = string_of(bare_chars.as_slice());
    let mut with_article = "The ".to_string();
    with_article.append(bare.as_str());
    let contains_pattern = if bare.as_str().len() > 3 {
        let mut p = "%".to_string();
        p.append(bare.as_str());
        p.append("%");
        Some(p)
    } else {
        None
    };
    ArtistLookup { bare, with_article, contains_pattern }
}

/// The statement that fills `column` of row `?2` in `table` with `?1` only
/// where it is missing or empty.
pub fn fill_if_missing_sql(table: &str, column: &str) -> (r: String)
    ensures
        r@ == "UPDATE "@ + table@ + " SET "@ + column@ + " = ?1 WHERE id = ?2 AND ("@ + column@
            + " IS NULL OR "@ + column@ + " = '')"@,
{
    let mut r = "UPDATE ".to_string();
    r.append(table);
    r.append(" SET ");
    r.append(column);
    r.append(" = ?1 WHERE id = ?2 AND (");
    r.append(column);
    r.append(" IS NULL OR ");
    r.append(column);
    r.append(" = '')");
    r
}

/// The statement that records a download's new status: starting stamps the
/// start time, completing the end time and full progress, failing or
/// cancelling also stores the error message (`?3`); other statuses only
/// change the status.
pub open spec fn status_sql(status: Seq<char>) -> Seq<char> {
    if status == "downloading"@ {
        "UPDATE downloads SET status = ?2, started_at = datetime('now') WHERE id = ?1"@
    } else if status == "completed"@ {
        "UPDATE downloads SET status = ?2, completed_at = datetime('now'), progress = 100.0 WHERE id = ?1"@
    } else if status == "failed"@ || status == "cancelled"@ {
        "UPDATE downloads SET status = ?2, error_message = ?3 WHERE id = ?1"@
    } else {
        "UPDATE downloads SET status = ?2 WHERE id = ?1"@
    }
}

/// The statement for a download status change (see [`status_sql`]) and
/// whether it binds the error message.
pub fn status_update_sql(status: &str) -> (r: (&'static str, bool))
    ensures
        r.0@ == status_sql(status@),
        r.1 == (status@ == "failed"@ || status@ == "cancelled"@),
{
    proof {
        reveal_strlit("downloading");
        reveal_strlit("completed");
        reveal_strlit("failed");
        reveal_strlit("cancelled");
        assert("downloading"@.len() != "failed"@.len());
        assert("downloading"@.len() != "cancelled"@.len());
        assert("completed"@.len() != "failed"@.len());
        assert("completed"@[1] != "cancelled"@[1]);
    }
    if str_is(status, "downloading") {
        ("UPDATE downloads SET status = ?2, started_at = datetime('now') WHERE id = ?1", false)
    } else if str_is(status, "completed") {
        (
            "UPDATE downloads SET status = ?2, completed_at = datetime('now'), progress = 100.0 WHERE id = ?1",
            false,
        )
    } else if str_is(status, "failed") || str_is(status, "cancelled") {
        ("UPDATE downloads SET status = ?2, error_message = ?3 WHERE id = ?1", true)
    } else {
        ("UPDATE downloads SET status = ?2 WHERE id = ?1", false)
    }
}

/// Whether a known device's record is written again on a scan: when its
/// name, mount path or capacity changed, or it was last seen over a minute
/// ago.
pub fn device_needs_write(
    old_name: &str,
    old_mount: &Option<String>,
    old_capacity: Option<i64>,
    name: &str,
    mount: &str,
    capacity: Option<i64>,
    seen_long_ago: bool,
) -> (r: bool)
    ensures
        r == (old_name@ != name@ || (match old_mount {
            Some(m) => m@ != mount@,
            None => true,
        }) || old_capacity != capacity || seen_long_ago),
{
    let mount_changed = match old_mount {
        Some(m) => !str_is(m.as_str(), mount),
        None => true,
    };
    !str_is(old_name, name) || mount_changed || old_capacity != capacity || seen_long_ago
}

/// A device playlist's counts: tracks counted as synced (all of the
/// playlist's tracks but those pending, saturating at the bottom of `i64`)
/// and pending changes (pending tracks plus stale files).
pub fn link_counts(total_tracks: i64, pending: u64, stale: u64) -> (r: (i64, i64))
    requires
        pending + stale <= i64::MAX,
    ensures
        r.0 == (if total_tracks - pending < i64::MIN {
            i64::MIN as int
        } else {
            total_tracks - pending
        }),
        r.1 == pending + stale,
{
    let p = pending as i64;
    let synced = if total_tracks >= i64::MIN + p {
        total_tracks - p
    } else {
        i64::MIN
    };
    (synced, (pending + stale) as i64)
}


/// The id of the first known device with the given uid.
pub open spec fn known_id(known: Seq<(String, i64)>, uid: Seq<char>) -> Option<i64>
    decreases known.len(),
{
    if known.len() == 0 {
        None
    } else if known[0].0@ == uid {
        Some(known[0].1)
    } else {
        known_id(known.drop_first(), uid)
    }
}

/// Finds a detected device among the known ones (uid and id each) by uid.
pub fn find_known_device(known: &Vec<(String, i64)>, uid: &str) -> (r: Option<i64>)
    ensures
        r == known_id(known@, uid@),
{
    let mut i: usize = 0;
    assert(known@.subrange(0, known@.len() as int) =~= known@);
    while i < known.len()
        invariant
            i <= known@.len(),
            known_id(known@, uid@) == known_id(known@.subrange(i as int, known@.len() as int), uid@),
        decreases known@.len() - i,
    {
        let ghost rest = known@.subrange(i as int, known@.len() as int);
        assert(rest[0] == known@[i as int]);
        assert(rest.drop_first() =~= known@.subrange(i + 1, known@.len() as int));
        if str_is(known[i].0.as_str(), uid) {
            return Some(known[i].1);
        }
        i = i + 1;
    }
    None
}

/// A detected device as a scan reports it: known when it was found among
/// the known devices before the scan; its id is that one's, else the id
/// its record got when the scan stored it.
pub fn scanned_device(d: DetectedDevice, known: Option<i64>, stored: Option<i64>) -> (r: ScannedDevice)
    ensures
        r.device_uid == d.device_uid,
        r.name == d.name,
        r.mount_path == d.mount_path,
        r.capacity_bytes == d.capacity_bytes,
        r.free_bytes == d.free_bytes,
        r.vendor == d.vendor,
        r.model == d.model,
        r.is_known == known is Some,
        r.device_id == match known {
            Some(id) => Some(id),
            None => stored,
        },
{
    let device_id = match known {
        Some(id) => Some(id),
        None => stored,
    };
    ScannedDevice {
        device_uid: d.device_uid,
        name: d.name,
        mount_path: d.mount_path,
        capacity_bytes: d.capacity_bytes,
        free_bytes: d.free_bytes,
        vendor: d.vendor,
        model: d.model,
        is_known: known.is_some(),
        device_id,
    }
}

} // verus!
