//! Monitored (external) playlists: how fetched entries are stored, which
//! source a download of an entry uses, and how many entries a sync found
//! new.

use crate::text::{chars_of, starts_with, starts_with_chars, str_is};
use vstd::prelude::*;

verus! {

/// Platforms whose playlists are read through their own API (their pages
/// are DRM-protected).
pub open spec fn spec_is_drm_platform(p: Seq<char>) -> bool {
    p == "spotify"@ || p == "apple_music"@ || p == "tidal"@ || p == "deezer"@ || p
        == "amazon_music"@
}

/// Whether a platform's playlists are read through its own API.
pub fn is_drm_platform(p: &str) -> (r: bool)
    ensures
        r == spec_is_drm_platform(p@),
{
    str_is(p, "spotify") || str_is(p, "apple_music") || str_is(p, "tidal") || str_is(p, "deezer")
        || str_is(p, "amazon_music")
}

/// An entry as a playlist source lists it.
pub struct FetchedEntry {
    pub title: String,
    pub track: Option<String>,
    pub artist: Option<String>,
    pub uploader: Option<String>,
    pub webpage_url: Option<String>,
}

/// An entry as it is stored: where to fetch it, its title and artist.
pub struct StoredEntry {
    pub url: String,
    pub title: String,
    pub artist: Option<String>,
}

/// `"artist - title"`, or the title alone.
pub open spec fn search_query(artist: Option<Seq<char>>, title: Seq<char>) -> Seq<char> {
    match artist {
        Some(a) => a + " - "@ + title,
        None => title,
    }
}

/// How an entry is stored: the track name before the video title, the
/// artist before the uploader, and its page, or else a search for
/// "artist - title" when the source gave no page.
pub open spec fn spec_stored(e: FetchedEntry) -> (Seq<char>, Seq<char>, Option<Seq<char>>) {
    let title = match e.track {
        Some(t) => t@,
        None => e.title@,
    };
    let artist = match e.artist {
        Some(a) => Some(a@),
        None => match e.uploader {
            Some(u) => Some(u@),
            None => None,
        },
    };
    let url = match e.webpage_url {
        Some(u) if u@.len() > 0 => u@,
        _ => "ytsearch1:"@ + search_query(artist, title),
    };
    (url, title, artist)
}

fn concat(a: &str, b: &str) -> (r: String)
    ensures
        r@ == a@ + b@,
{
    let mut r = a.to_string();
    r.append(b);
    r
}

fn query_for(artist: &Option<String>, title: &String) -> (r: String)
    ensures
        r@ == search_query(
            match artist {
                Some(a) => Some(a@),
                None => None,
            },
            title@,
        ),
{
    match artist {
        Some(a) => {
            let head = concat(a.as_str(), " - ");
            concat(head.as_str(), title.as_str())
        },
        None => title.clone(),
    }
}

/// How a fetched entry is stored (see [`spec_stored`]).
pub fn stored_entry(e: &FetchedEntry) -> (r: StoredEntry)
    ensures
        (r.url@, r.title@, match r.artist {
            Some(a) => Some(a@),
            None => None,
        }) == spec_stored(*e),
{
    let title = match &e.track {
        Some(t) => t.clone(),
        None => e.title.clone(),
    };
    let artist = match &e.artist {
        Some(a) => Some(a.clone()),
        None => match &e.uploader {
            Some(u) => Some(u.clone()),
            None => None,
        },
    };
    let page = match &e.webpage_url {
        Some(u) => if !u.as_str().is_empty() {
            Some(u.clone())
        } else {
            None
        },
        None => None,
    };
    let url = match page {
        Some(u) => u,
        None => {
            let q = query_for(&artist, &title);
            concat("ytsearch1:", q.as_str())
        },
    };
    StoredEntry { url, title, artist }
}

/// A monitored playlist's name: the title the source gave, unless empty,
/// else "`platform` playlist".
pub fn playlist_name(title: &Option<String>, platform: &str) -> (r: String)
    ensures
        r@ == (match title {
            Some(t) if t@.len() > 0 => t@,
            _ => platform@ + " playlist"@,
        }),
{
    match title {
        Some(t) => {
            if !t.as_str().is_empty() {
                return t.clone();
            }
        },
        None => {},
    }
    concat(platform, " playlist")
}

/// The platform recorded for an entry's download: the playlist's platform
/// when the entry's URL itself names none ("other"), else the URL's.
pub fn entry_platform(playlist_platform: &str, url_platform: &str) -> (r: String)
    ensures
        r@ == (if playlist_platform@.len() > 0 && url_platform@ == "other"@ {
            playlist_platform@
        } else {
            url_platform@
        }),
{
    if !playlist_platform.is_empty() && str_is(url_platform, "other") {
        playlist_platform.to_string()
    } else {
        url_platform.to_string()
    }
}

/// What to download for a single entry: a Spotify page becomes a search for
/// "artist - title" (an error when the entry has no title); anything else
/// downloads from the cleaned URL.
pub fn entry_download_url(
    url_platform: &str,
    source_url: &str,
    clean_url: &str,
    artist: &Option<String>,
    title: &Option<String>,
) -> (r: Result<String, String>)
    ensures
        url_platform@ == "spotify"@ && starts_with(source_url@, "http"@) ==> match title {
            Some(t) => (r matches Ok(u) && u@ == "ytsearch1:"@ + search_query(
                match artist {
                    Some(a) => Some(a@),
                    None => None,
                },
                t@,
            )),
            None => (r matches Err(e) && e@ == "Entry missing title for YouTube search"@),
        },
        !(url_platform@ == "spotify"@ && starts_with(source_url@, "http"@)) ==> (r matches Ok(u)
            && u@ == clean_url@),
{
    let src = chars_of(source_url);
    let http = chars_of("http");
    if str_is(url_platform, "spotify") && starts_with_chars(src.as_slice(), http.as_slice()) {
        match title {
            Some(t) => {
                let q = query_for(artist, t);
                Ok(concat("ytsearch1:", q.as_str()))
            },
            None => Err("Entry missing title for YouTube search".to_string()),
        }
    } else {
        Ok(clean_url.to_string())
    }
}

/// The format and quality for downloads of monitored entries: the given
/// ones, else the saved format (or "mp3") and "best".
pub fn entry_format_quality(
    format: Option<String>,
    quality: Option<String>,
    saved_format: Option<String>,
) -> (r: (String, String))
    ensures
        r.0@ == (match format {
            Some(f) => f@,
            None => match saved_format {
                Some(s) => s@,
                None => "mp3"@,
            },
        }),
        r.1@ == (match quality {
            Some(q) => q@,
            None => "best"@,
        }),
{
    let f = match format {
        Some(f) => f,
        None => match saved_format {
            Some(s) => s,
            None => "mp3".to_string(),
        },
    };
    let q = match quality {
        Some(q) => q,
        None => "best".to_string(),
    };
    (f, q)
}

/// The views of a list of strings.
pub open spec fn views(v: Seq<String>) -> Seq<Seq<char>> {
    v.map_values(|s: String| s@)
}

/// How many of `urls` are new: not stored yet, and counted once however
/// often they occur.
pub open spec fn new_count(existing: Seq<Seq<char>>, urls: Seq<Seq<char>>) -> nat
    decreases urls.len(),
{
    if urls.len() == 0 {
        0
    } else {
        new_count(existing, urls.drop_last()) + if !existing.contains(urls.last())
            && !urls.drop_last().contains(urls.last()) {
            1nat
        } else {
            0nat
        }
    }
}

fn contains_string(v: &Vec<String>, s: &String) -> (r: bool)
    ensures
        r == views(v@).contains(s@),
{
    let mut i: usize = 0;
    while i < v.len()
        invariant
            i <= v@.len(),
            forall|k: int| 0 <= k < i ==> v@[k]@ != s@,
        decreases v@.len() - i,
    {
        if str_is(v[i].as_str(), s.as_str()) {
            assert(views(v@)[i as int] == s@);
            return true;
        }
        i = i + 1;
    }
    proof {
        if views(v@).contains(s@) {
            let k = choose|k: int| 0 <= k < views(v@).len() && views(v@)[k] == s@;
            assert(v@[k]@ == s@);
        }
    }
    false
}

/// How many of the fetched URLs a sync adds (see [`new_count`]).
pub fn count_new_entries(existing: &Vec<String>, urls: &Vec<String>) -> (r: u64)
    ensures
        r == new_count(views(existing@), views(urls@)),
{
    let mut count: u64 = 0;
    let mut seen: Vec<String> = Vec::new();
    let mut i: usize = 0;
    while i < urls.len()
        invariant
            i <= urls@.len(),
            count == new_count(views(existing@), views(urls@).take(i as int)),
            count <= i,
            forall|x: Seq<char>| views(seen@).contains(x) <==> views(urls@).take(i as int).contains(x),
        decreases urls@.len() - i,
    {
        let u = &urls[i];
        let ghost prefix = views(urls@).take(i as int);
        assert(views(urls@).take(i + 1).drop_last() =~= prefix);
        assert(views(urls@).take(i + 1).last() == u@);
        let fresh = !contains_string(existing, u) && !contains_string(&seen, u);
        if fresh {
            count = count + 1;
        }
        let ghost old_seen = views(seen@);
        assert(forall|x: Seq<char>| old_seen.contains(x) <==> prefix.contains(x));
        seen.push(u.clone());
        proof {
            let nxt = views(urls@).take(i + 1);
            let now_seen = views(seen@);
            assert(now_seen =~= old_seen.push(u@));
            assert(nxt =~= prefix.push(u@));
            assert forall|x: Seq<char>| now_seen.contains(x) <==> nxt.contains(x) by {
                if nxt.contains(x) {
                    let k = choose|k: int| 0 <= k < nxt.len() && #[trigger] nxt[k] == x;
                    if k < i {
                        assert(prefix[k] == x);
                        assert(old_seen.contains(x));
                        let j = choose|j: int| 0 <= j < old_seen.len() && #[trigger] old_seen[j] == x;
                        assert(now_seen[j] == x);
                    } else {
                        assert(now_seen[old_seen.len() as int] == x);
                    }
                }
                if now_seen.contains(x) {
                    let j = choose|j: int| 0 <= j < now_seen.len() && #[trigger] now_seen[j] == x;
                    if j < old_seen.len() {
                        assert(old_seen[j] == x);
                        assert(prefix.contains(x));
                        let k = choose|k: int| 0 <= k < prefix.len() && #[trigger] prefix[k] == x;
                        assert(nxt[k] == x);
                    } else {
                        assert(nxt[i as int] == x);
                    }
                }
            }
        }
        i = i + 1;
    }
    assert(views(urls@).take(i as int) =~= views(urls@));
    count
}

/// Entries whose stored search can be replaced by the page found now: each
/// fetched entry with a title whose URL is not itself a search.
pub fn search_url_fixes(entries: &Vec<StoredEntry>) -> (r: Vec<(String, String)>)
    ensures
        r@.map_values(|p: (String, String)| (p.0@, p.1@)) == entries@.filter(
            |e: StoredEntry| !starts_with(e.url@, "ytsearch"@),
        ).map_values(|e: StoredEntry| (e.url@, e.title@)),
{
    let mut r: Vec<(String, String)> = Vec::new();
    let ghost pred = |e: StoredEntry| !starts_with(e.url@, "ytsearch"@);
    let ghost f = |e: StoredEntry| (e.url@, e.title@);
    let ghost g = |p: (String, String)| (p.0@, p.1@);
    let mut i: usize = 0;
    let prefix = chars_of("ytsearch");
    while i < entries.len()
        invariant
            i <= entries@.len(),
            prefix@ == "ytsearch"@,
            pred == (|e: StoredEntry| !starts_with(e.url@, "ytsearch"@)),
            f == (|e: StoredEntry| (e.url@, e.title@)),
            g == (|p: (String, String)| (p.0@, p.1@)),
            r@.map_values(g) == entries@.take(i as int).filter(pred).map_values(f),
        decreases entries@.len() - i,
    {
        let e = &entries[i];
        let url = chars_of(e.url.as_str());
        let is_search = starts_with_chars(url.as_slice(), prefix.as_slice());
        proof {
            assert(entries@.take(i + 1).drop_last() =~= entries@.take(i as int));
            entries@.take(i as int).lemma_filter_push(entries@[i as int], pred);
            assert(entries@.take(i + 1) =~= entries@.take(i as int).push(entries@[i as int]));
        }
        if !is_search {
            let ghost before = r@;
            r.push((e.url.clone(), e.title.clone()));
            assert(r@.map_values(g) =~= before.map_values(g).push(f(*e)));
            assert(entries@.take(i as int).filter(pred).push(*e).map_values(f) =~= entries@.take(
                i as int,
            ).filter(pred).map_values(f).push(f(*e)));
        }
        i = i + 1;
    }
    assert(entries@.take(i as int) =~= entries@);
    r
}


/// A sync counts each URL that is not stored yet exactly once: the count is
/// the number of distinct fetched URLs outside the stored ones.
pub proof fn law_new_count_counts_distinct_new_urls(
    existing: Seq<Seq<char>>,
    urls: Seq<Seq<char>>,
)
    ensures
        new_count(existing, urls) == urls.to_set().difference(existing.to_set()).len(),
    decreases urls.len(),
{
    broadcast use vstd::seq_lib::seq_to_set_is_finite;
    broadcast use vstd::set::group_set_axioms;

    if urls.len() == 0 {
        assert(urls.to_set().difference(existing.to_set()) =~= Set::empty());
    } else {
        let u = urls.drop_last();
        let x = urls.last();
        law_new_count_counts_distinct_new_urls(existing, u);
        assert(urls =~= u.push(x));
        u.lemma_push_to_set_commute(x);
        let d0 = u.to_set().difference(existing.to_set());
        let d1 = urls.to_set().difference(existing.to_set());
        assert(d0.finite()) by {
            assert(d0.subset_of(u.to_set()));
            vstd::set_lib::lemma_set_subset_finite(u.to_set(), d0);
        }
        if !existing.contains(x) && !u.contains(x) {
            assert(d1 =~= d0.insert(x));
            assert(!d0.contains(x));
        } else {
            assert(d1 =~= d0);
        }
    }
}

} // verus!
