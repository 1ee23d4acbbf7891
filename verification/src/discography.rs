//! An artist's discography against the library: which albums are missing,
//! the tracklist to download for one, and how complete a local album is.

use crate::text::{chars_of, lowercase_chars, parse_i64, parse_i64_chars, str_is, unicode_lowercase};
use vstd::prelude::*;

verus! {

/// A track of a release as MusicBrainz lists it (what the tracklist reads).
pub struct ReleaseTrack {
    pub title: Option<String>,
    /// The numeric position, when given as a number.
    pub position: Option<i64>,
    /// The free-form number ("3", "A1", ...), when given as a string.
    pub number: Option<String>,
    pub recording_length: Option<i64>,
    pub length: Option<i64>,
    pub first_isrc: Option<String>,
    pub recording_id: Option<String>,
}

/// A medium (disc) of a release.
pub struct ReleaseMedium {
    pub position: Option<i64>,
    pub tracks: Vec<ReleaseTrack>,
}

/// A track to download for a missing album.
pub struct PlannedTrack {
    pub title: String,
    pub disc: i64,
    pub number: i64,
    pub duration_ms: Option<i64>,
    pub isrc: Option<String>,
    pub recording_mbid: Option<String>,
}

/// The abstract form of a [`PlannedTrack`].
pub struct PlannedView {
    pub title: Seq<char>,
    pub disc: i64,
    pub number: i64,
    pub duration_ms: Option<i64>,
    pub isrc: Option<Seq<char>>,
    pub recording_mbid: Option<Seq<char>>,
}

pub open spec fn opt_view(o: Option<String>) -> Option<Seq<char>> {
    match o {
        Some(s) => Some(s@),
        None => None,
    }
}

impl View for PlannedTrack {
    type V = PlannedView;

    open spec fn view(&self) -> PlannedView {
        PlannedView {
            title: self.title@,
            disc: self.disc,
            number: self.number,
            duration_ms: self.duration_ms,
            isrc: opt_view(self.isrc),
            recording_mbid: opt_view(self.recording_mbid),
        }
    }
}

/// A track's number on its disc: the numeric position, else the number
/// string read as an integer, else its place `idx + 1` on the disc.
pub open spec fn track_number(t: ReleaseTrack, idx: int) -> int {
    match t.position {
        Some(p) => p as int,
        None => match t.number {
            Some(n) => match parse_i64(n@) {
                Some(v) => v,
                None => idx + 1,
            },
            None => idx + 1,
        },
    }
}

/// The planned download for the track at `idx` of a disc, if it has a
/// title.
pub open spec fn planned(disc: i64, t: ReleaseTrack, idx: int) -> Seq<PlannedView> {
    match t.title {
        Some(title) if title@.len() > 0 => seq![
            PlannedView {
                title: title@,
                disc,
                number: track_number(t, idx) as i64,
                duration_ms: match t.recording_length {
                    Some(l) => Some(l),
                    None => t.length,
                },
                isrc: opt_view(t.first_isrc),
                recording_mbid: opt_view(t.recording_id),
            },
        ],
        _ => Seq::empty(),
    }
}

/// The planned downloads of the first `n` tracks of a disc.
pub open spec fn disc_plan(disc: i64, tracks: Seq<ReleaseTrack>, n: int) -> Seq<PlannedView>
    decreases n,
{
    if n <= 0 {
        Seq::empty()
    } else {
        disc_plan(disc, tracks, n - 1) + planned(disc, tracks[n - 1], n - 1)
    }
}

/// A medium's disc number (1 when not given).
pub open spec fn disc_number(m: ReleaseMedium) -> i64 {
    match m.position {
        Some(p) => p,
        None => 1,
    }
}

/// The planned downloads of the first `n` media: every track with a title,
/// disc by disc, in order.
pub open spec fn release_plan(media: Seq<ReleaseMedium>, n: int) -> Seq<PlannedView>
    decreases n,
{
    if n <= 0 {
        Seq::empty()
    } else {
        release_plan(media, n - 1) + disc_plan(
            disc_number(media[n - 1]),
            media[n - 1].tracks@,
            media[n - 1].tracks@.len() as int,
        )
    }
}

fn clone_opt(o: &Option<String>) -> (r: Option<String>)
    ensures
        opt_view(r) == opt_view(*o),
{
    match o {
        Some(s) => Some(s.clone()),
        None => None,
    }
}

fn number_of(t: &ReleaseTrack, idx: usize) -> (r: i64)
    requires
        idx < i64::MAX,
    ensures
        r == track_number(*t, idx as int) as i64,
{
    match t.position {
        Some(p) => p,
        None => match &t.number {
            Some(n) => {
                let cs = chars_of(n.as_str());
                match parse_i64_chars(cs.as_slice()) {
                    Some(v) => v,
                    None => (idx as i64) + 1,
                }
            },
            None => (idx as i64) + 1,
        },
    }
}

/// The tracks to download for a release: every track with a non-empty
/// title, disc by disc (see [`release_plan`]).
pub fn release_tracklist(media: &Vec<ReleaseMedium>) -> (r: Vec<PlannedTrack>)
    requires
        forall|k: int| 0 <= k < media@.len() ==> #[trigger] media@[k].tracks@.len() < i64::MAX,
    ensures
        r@.map_values(|p: PlannedTrack| p@) == release_plan(media@, media@.len() as int),
{
    let mut out: Vec<PlannedTrack> = Vec::new();
    let mut m: usize = 0;
    while m < media.len()
        invariant
            m <= media@.len(),
            forall|k: int| 0 <= k < media@.len() ==> #[trigger] media@[k].tracks@.len() < i64::MAX,
            out@.map_values(|p: PlannedTrack| p@) == release_plan(media@, m as int),
        decreases media@.len() - m,
    {
        let medium = &media[m];
        let disc = match medium.position {
            Some(p) => p,
            None => 1,
        };
        let ghost base = out@.map_values(|p: PlannedTrack| p@);
        let mut i: usize = 0;
        while i < medium.tracks.len()
            invariant
                i <= medium.tracks@.len(),
                medium.tracks@.len() < i64::MAX,
                disc == disc_number(*medium),
                out@.map_values(|p: PlannedTrack| p@) == base + disc_plan(
                    disc,
                    medium.tracks@,
                    i as int,
                ),
            decreases medium.tracks@.len() - i,
        {
            let t = &medium.tracks[i];
            let ghost before = out@.map_values(|p: PlannedTrack| p@);
            match &t.title {
                Some(title) => {
                    if !title.as_str().is_empty() {
                        let p = PlannedTrack {
                            title: title.clone(),
                            disc,
                            number: number_of(t, i),
                            duration_ms: match t.recording_length {
                                Some(l) => Some(l),
                                None => t.length,
                            },
                            isrc: clone_opt(&t.first_isrc),
                            recording_mbid: clone_opt(&t.recording_id),
                        };
                        out.push(p);
                        assert(out@.map_values(|p: PlannedTrack| p@) =~= before.push(p@));
                    }
                },
                None => {},
            }
            assert(out@.map_values(|p: PlannedTrack| p@) =~= before + planned(
                disc,
                medium.tracks@[i as int],
                i as int,
            ));
            assert(base + disc_plan(disc, medium.tracks@, i + 1) =~= base + disc_plan(
                disc,
                medium.tracks@,
                i as int,
            ) + planned(disc, medium.tracks@[i as int], i as int));
            i = i + 1;
        }
        m = m + 1;
    }
    out
}

/// A discography entry as the stored discography lists it (what the
/// lookup reads: its release-group id and title, when they are strings).
pub struct DiscographyRef {
    pub mbid: Option<String>,
    pub title: Option<String>,
}

/// The title under which a missing album is created: the title of the
/// first discography entry with this release-group id (when that entry has
/// one), else the release group's own title, else "Unknown Album".
pub open spec fn download_album_title(
    disco: Seq<DiscographyRef>,
    mbid: Seq<char>,
    group_title: Option<Seq<char>>,
) -> Seq<char> {
    let hits = disco.filter(|e: DiscographyRef| opt_view(e.mbid) == Some(mbid));
    let from_disco = if hits.len() > 0 {
        opt_view(hits[0].title)
    } else {
        None
    };
    match from_disco {
        Some(t) => t,
        None => match group_title {
            Some(t) => t,
            None => "Unknown Album"@,
        },
    }
}

/// The title under which a missing album is created (see
/// [`download_album_title`]).
pub fn album_title_for_download(
    disco: &Vec<DiscographyRef>,
    mbid: &str,
    group_title: &Option<String>,
) -> (r: String)
    ensures
        r@ == download_album_title(disco@, mbid@, opt_view(*group_title)),
{
    let ghost pred = |e: DiscographyRef| opt_view(e.mbid) == Some(mbid@);
    let mut i: usize = 0;
    let mut found: Option<usize> = None;
    while i < disco.len() && found.is_none()
        invariant
            i <= disco@.len(),
            pred == (|e: DiscographyRef| opt_view(e.mbid) == Some(mbid@)),
            found is None ==> disco@.take(i as int).filter(pred).len() == 0,
            found matches Some(k) ==> k < disco@.len() && pred(disco@[k as int]) && disco@.take(
                k as int,
            ).filter(pred).len() == 0,
        decreases disco@.len() - i + (if found is None {
            1int
        } else {
            0int
        }),
    {
        let hit = match &disco[i].mbid {
            Some(m) => str_is(m.as_str(), mbid),
            None => false,
        };
        proof {
            disco@.take(i as int).lemma_filter_push(disco@[i as int], pred);
            assert(disco@.take(i + 1) =~= disco@.take(i as int).push(disco@[i as int]));
        }
        if hit {
            found = Some(i);
        } else {
            i = i + 1;
        }
    }
    let ghost hits = disco@.filter(pred);
    let from_disco = match found {
        Some(k) => {
            proof {
                assert(disco@ =~= disco@.take(k + 1) + disco@.skip(k + 1));
                Seq::filter_distributes_over_add(
                    disco@.take(k + 1),
                    disco@.skip(k + 1),
                    pred,
                );
                disco@.take(k as int).lemma_filter_push(disco@[k as int], pred);
                assert(disco@.take(k + 1) =~= disco@.take(k as int).push(disco@[k as int]));
                assert(disco@.take(k as int).filter(pred) =~= Seq::<DiscographyRef>::empty());
                assert(disco@.take(k + 1).filter(pred) =~= seq![disco@[k as int]]);
                assert(hits[0] == disco@[k as int]);
            }
            clone_opt(&disco[k].title)
        },
        None => {
            proof {
                assert(disco@.take(i as int) =~= disco@);
            }
            None
        },
    };
    match from_disco {
        Some(t) => t,
        None => match group_title {
            Some(t) => t.clone(),
            None => "Unknown Album".to_string(),
        },
    }
}

/// A discography entry compared with the library: its release-group id and
/// title.
pub struct DiscographyEntry {
    pub mbid: String,
    pub title: String,
}

/// The entries the library lacks: neither their release-group id nor their
/// lowercased title is among the local albums'.
pub open spec fn is_missing(
    e: DiscographyEntry,
    local_titles: Seq<Seq<char>>,
    local_mbids: Seq<Seq<char>>,
) -> bool {
    !local_mbids.contains(e.mbid@) && !local_titles.contains(unicode_lowercase(e.title@))
}

fn contains_view(v: &Vec<String>, s: &[char]) -> (r: bool)
    ensures
        r == v@.map_values(|x: String| x@).contains(s@),
{
    let ghost vv = v@.map_values(|x: String| x@);
    let mut i: usize = 0;
    while i < v.len()
        invariant
            i <= v@.len(),
            vv == v@.map_values(|x: String| x@),
            forall|k: int| 0 <= k < i ==> vv[k] != s@,
        decreases v@.len() - i,
    {
        let cs = chars_of(v[i].as_str());
        if crate::text::chars_eq(cs.as_slice(), s) {
            assert(vv[i as int] == s@);
            return true;
        }
        i = i + 1;
    }
    false
}

/// Positions of the discography entries the library lacks (see
/// [`is_missing`]); `local_titles` are the local album titles lowercased.
pub fn missing_album_indices(
    disco: &Vec<DiscographyEntry>,
    local_titles: &Vec<String>,
    local_mbids: &Vec<String>,
) -> (r: Vec<usize>)
    ensures
        forall|k: int| 0 <= k < r@.len() ==> #[trigger] r@[k] < disco@.len(),
        forall|a: int, b: int| 0 <= a < b < r@.len() ==> r@[a] < r@[b],
        forall|j: int|
            0 <= j < disco@.len() ==> (r@.contains(j as usize) <==> is_missing(
                #[trigger] disco@[j],
                local_titles@.map_values(|x: String| x@),
                local_mbids@.map_values(|x: String| x@),
            )),
{
    let ghost lt = local_titles@.map_values(|x: String| x@);
    let ghost lm = local_mbids@.map_values(|x: String| x@);
    let mut r: Vec<usize> = Vec::new();
    let mut j: usize = 0;
    while j < disco.len()
        invariant
            j <= disco@.len(),
            lt == local_titles@.map_values(|x: String| x@),
            lm == local_mbids@.map_values(|x: String| x@),
            forall|k: int| 0 <= k < r@.len() ==> #[trigger] r@[k] < j,
            forall|a: int, b: int| 0 <= a < b < r@.len() ==> r@[a] < r@[b],
            forall|i: int|
                0 <= i < j ==> (r@.contains(i as usize) <==> is_missing(#[trigger] disco@[i], lt, lm)),
        decreases disco@.len() - j,
    {
        let e = &disco[j];
        let id = chars_of(e.mbid.as_str());
        let low = lowercase_chars(chars_of(e.title.as_str()).as_slice());
        let missing = !contains_view(local_mbids, id.as_slice()) && !contains_view(
            local_titles,
            low.as_slice(),
        );
        let ghost before = r@;
        if missing {
            r.push(j);
        }
        assert forall|i: int| 0 <= i < j + 1 implies (r@.contains(i as usize) <==> is_missing(
            #[trigger] disco@[i],
            lt,
            lm,
        )) by {
            if i < j {
                if r@.contains(i as usize) {
                    let k = choose|k: int| 0 <= k < r@.len() && r@[k] == i as usize;
                    if k < before.len() {
                        assert(before[k] == i as usize);
                    }
                }
                if before.contains(i as usize) {
                    let k = choose|k: int| 0 <= k < before.len() && before[k] == i as usize;
                    assert(r@[k] == i as usize);
                }
            } else {
                if missing {
                    assert(r@[before.len() as int] == j);
                } else {
                    if r@.contains(j) {
                        let k = choose|k: int| 0 <= k < r@.len() && r@[k] == j;
                        assert(before[k] < j);
                    }
                }
            }
        }
        j = j + 1;
    }
    r
}

/// How much of an album is in the library.
pub enum DownloadStatus {
    /// No tracklist is known.
    Unknown,
    Complete,
    Partial,
    Nothing,
}

/// An album's download status from the size of its known tracklist (`None`
/// or 0 when none is stored) and its local track count: complete when at
/// least as many tracks are local as listed, partial when some are, else
/// none.
pub fn album_download_status(tracklist_len: Option<u64>, local: i64) -> (r: (i64, DownloadStatus))
    requires
        tracklist_len matches Some(n) ==> n <= i64::MAX,
    ensures
        match tracklist_len {
            Some(n) if n > 0 => r.0 == n as i64 && (if local >= n {
                r.1 is Complete
            } else if local > 0 {
                r.1 is Partial
            } else {
                r.1 is Nothing
            }),
            _ => r.0 == 0 && r.1 is Unknown,
        },
{
    match tracklist_len {
        Some(n) => {
            if n == 0 {
                (0, DownloadStatus::Unknown)
            } else {
                let expected = n as i64;
                if local >= expected {
                    (expected, DownloadStatus::Complete)
                } else if local > 0 {
                    (expected, DownloadStatus::Partial)
                } else {
                    (expected, DownloadStatus::Nothing)
                }
            }
        },
        None => (0, DownloadStatus::Unknown),
    }
}

impl DownloadStatus {
    /// The status as the interface names it.
    pub fn name(&self) -> (r: &'static str)
        ensures
            r@ == (match self {
                DownloadStatus::Unknown => "unknown"@,
                DownloadStatus::Complete => "complete"@,
                DownloadStatus::Partial => "partial"@,
                DownloadStatus::Nothing => "none"@,
            }),
    {
        match self {
            DownloadStatus::Unknown => "unknown",
            DownloadStatus::Complete => "complete",
            DownloadStatus::Partial => "partial",
            DownloadStatus::Nothing => "none",
        }
    }
}

/// The search that finds a track to download: `ytsearch5:artist - title`.
pub fn track_search_url(artist: &str, title: &str) -> (r: String)
    ensures
        r@ == "ytsearch5:"@ + artist@ + " - "@ + title@,
{
    let mut r = "ytsearch5:".to_string();
    r.append(artist);
    r.append(" - ");
    r.append(title);
    r
}

/// The search URL for a free-text query: `ytsearch5:query`.
pub fn query_search_url(query: &str) -> (r: String)
    ensures
        r@ == "ytsearch5:"@ + query@,
{
    let mut r = "ytsearch5:".to_string();
    r.append(query);
    r
}

} // verus!
