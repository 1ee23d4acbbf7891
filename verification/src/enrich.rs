//! What metadata enrichment writes and reports: which fields a lookup fills
//! (only where the library has none), which sources supplied what, the
//! genre chosen for an album and the year read from a release date.

use crate::text::{digits_of, join, join_strings, signed_value};
use vstd::prelude::*;

verus! {

/// A column and the value to fill it with (when the column is empty).
pub struct FieldFill {
    pub column: String,
    pub value: String,
}

impl View for FieldFill {
    type V = (Seq<char>, Seq<char>);

    open spec fn view(&self) -> (Seq<char>, Seq<char>) {
        (self.column@, self.value@)
    }
}

/// What a track lookup found.
pub struct TrackFindings {
    pub musicbrainz_id: Option<String>,
    pub genre: Option<String>,
    pub release_date: Option<String>,
    pub isrc: Option<String>,
    pub description: Option<String>,
    pub label: Option<String>,
    pub language: Option<String>,
    pub composer: Option<String>,
    pub tags: Option<Vec<String>>,
    pub music_video_url: Option<String>,
    pub artist_website_url: Option<String>,
    pub album_purchase_url: Option<String>,
    pub album_release_group_mbid: Option<String>,
    pub album_musicbrainz_id: Option<String>,
    pub album_release_date: Option<String>,
    pub album_type: Option<String>,
}

/// What an album lookup found.
pub struct AlbumFindings {
    pub musicbrainz_id: Option<String>,
    pub release_date: Option<String>,
    pub label: Option<String>,
    pub album_type: Option<String>,
    pub genre: Option<String>,
    pub tracklist_len: usize,
    pub total_tracks: Option<i64>,
}

/// What a Last.fm lookup found.
pub struct LastfmFindings {
    pub tags: Vec<String>,
    pub description: Option<String>,
    pub image_url: Option<String>,
}

/// The fill for `column` when `value` is present.
pub open spec fn fill(column: Seq<char>, value: Option<String>) -> Seq<(Seq<char>, Seq<char>)> {
    match value {
        Some(v) => seq![(column, v@)],
        None => Seq::empty(),
    }
}

/// `name` when `found`.
pub open spec fn source(name: Seq<char>, found: bool) -> Seq<Seq<char>> {
    if found {
        seq![name]
    } else {
        Seq::empty()
    }
}

/// The views of a list of fills.
pub open spec fn fills_view(v: Seq<FieldFill>) -> Seq<(Seq<char>, Seq<char>)> {
    v.map_values(|f: FieldFill| f@)
}

/// The views of a list of strings.
pub open spec fn strings_view(v: Seq<String>) -> Seq<Seq<char>> {
    v.map_values(|s: String| s@)
}

/// Track columns a track lookup fills, in order; `composer` only for a
/// single-track enrichment.
pub open spec fn track_fills(f: TrackFindings, with_composer: bool) -> Seq<(Seq<char>, Seq<char>)> {
    fill("musicbrainz_id"@, f.musicbrainz_id) + fill("genre"@, f.genre) + fill(
        "release_date"@,
        f.release_date,
    ) + fill("isrc"@, f.isrc) + fill("description"@, f.description) + fill("label"@, f.label)
        + fill("language"@, f.language) + if with_composer {
        fill("composer"@, f.composer)
    } else {
        Seq::empty()
    }
}

/// Album columns a track lookup fills: the release-group id (else the
/// release id), release date, type and purchase link.
pub open spec fn album_fills_from_track(f: TrackFindings) -> Seq<(Seq<char>, Seq<char>)> {
    fill(
        "musicbrainz_id"@,
        match f.album_release_group_mbid {
            Some(g) => Some(g),
            None => f.album_musicbrainz_id,
        },
    ) + fill("release_date"@, f.album_release_date) + fill("album_type"@, f.album_type) + fill(
        "purchase_url"@,
        f.album_purchase_url,
    )
}

/// Album columns an album lookup fills.
pub open spec fn album_fills(a: AlbumFindings) -> Seq<(Seq<char>, Seq<char>)> {
    fill("musicbrainz_id"@, a.musicbrainz_id) + fill("release_date"@, a.release_date) + fill(
        "label"@,
        a.label,
    ) + fill("album_type"@, a.album_type)
}

/// The identifying fields a track lookup reports as found.
pub open spec fn track_id_sources(f: TrackFindings) -> Seq<Seq<char>> {
    source("musicbrainz_id"@, f.musicbrainz_id is Some) + source("genre"@, f.genre is Some)
        + source("release_date"@, f.release_date is Some) + source("isrc"@, f.isrc is Some)
}

/// The descriptive fields a track lookup reports as found.
pub open spec fn track_detail_sources(f: TrackFindings) -> Seq<Seq<char>> {
    source("description"@, f.description is Some) + source("label"@, f.label is Some) + source(
        "language"@,
        f.language is Some,
    ) + source("tags"@, f.tags is Some)
}

/// The fields a track lookup reports as found, links aside.
pub open spec fn track_core_sources(f: TrackFindings) -> Seq<Seq<char>> {
    track_id_sources(f) + track_detail_sources(f)
}

/// The links a track lookup reports as found.
pub open spec fn track_link_sources(f: TrackFindings) -> Seq<Seq<char>> {
    source("music_video_url"@, f.music_video_url is Some) + source(
        "artist_website"@,
        f.artist_website_url is Some,
    ) + source("album_purchase_url"@, f.album_purchase_url is Some)
}

/// The fields a track lookup reports as found; the bulk scan also reports
/// the links.
pub open spec fn track_sources(f: TrackFindings, with_links: bool) -> Seq<Seq<char>> {
    track_core_sources(f) + if with_links {
        track_link_sources(f)
    } else {
        Seq::empty()
    }
}

/// The fields an album lookup reports as found.
pub open spec fn album_sources(a: AlbumFindings) -> Seq<Seq<char>> {
    source("musicbrainz_id"@, a.musicbrainz_id is Some) + source(
        "release_date"@,
        a.release_date is Some,
    ) + source("label"@, a.label is Some) + source("album_type"@, a.album_type is Some) + source(
        "genre"@,
        a.genre is Some,
    ) + source("tracklist"@, a.tracklist_len > 0) + source("total_tracks"@, a.total_tracks is Some)
}

/// The fields Last.fm supplied for an album.
pub open spec fn lastfm_album_sources(l: Option<LastfmFindings>) -> Seq<Seq<char>> {
    match l {
        Some(d) => source("genre"@, d.tags@.len() > 0) + source("description"@, d.description is Some)
            + source("cover_art"@, d.image_url is Some),
        None => Seq::empty(),
    }
}

/// An album's genre: the Last.fm tags joined with ", " when there are any,
/// else the MusicBrainz genre.
pub open spec fn album_genre(l: Option<LastfmFindings>, mb_genre: Option<String>) -> Option<Seq<char>> {
    match l {
        Some(d) if d.tags@.len() > 0 => Some(join(strings_view(d.tags@), ", "@)),
        _ => match mb_genre {
            Some(g) => Some(g@),
            None => None,
        },
    }
}

fn push_fill(out: &mut Vec<FieldFill>, column: &str, value: &Option<String>)
    ensures
        fills_view(final(out)@) == fills_view(old(out)@) + fill(column@, *value),
{
    let ghost before = fills_view(out@);
    match value {
        Some(v) => {
            out.push(FieldFill { column: column.to_string(), value: v.clone() });
            assert(fills_view(out@) =~= before + fill(column@, *value));
        },
        None => {
            assert(fills_view(out@) =~= before + fill(column@, *value));
        },
    }
}

fn push_source(out: &mut Vec<String>, name: &str, found: bool)
    ensures
        strings_view(final(out)@) == strings_view(old(out)@) + source(name@, found),
{
    let ghost before = strings_view(out@);
    if found {
        out.push(name.to_string());
    }
    assert(strings_view(out@) =~= before + source(name@, found));
}

/// Track columns to fill from a track lookup (see [`track_fills`]).
pub fn track_fill_list(f: &TrackFindings, with_composer: bool) -> (r: Vec<FieldFill>)
    ensures
        fills_view(r@) == track_fills(*f, with_composer),
{
    let mut r: Vec<FieldFill> = Vec::new();
    assert(fills_view(r@) =~= Seq::empty());
    push_fill(&mut r, "musicbrainz_id", &f.musicbrainz_id);
    push_fill(&mut r, "genre", &f.genre);
    push_fill(&mut r, "release_date", &f.release_date);
    push_fill(&mut r, "isrc", &f.isrc);
    push_fill(&mut r, "description", &f.description);
    push_fill(&mut r, "label", &f.label);
    push_fill(&mut r, "language", &f.language);
    if with_composer {
        push_fill(&mut r, "composer", &f.composer);
    } else {
        assert(fills_view(r@) =~= fills_view(r@) + Seq::<(Seq<char>, Seq<char>)>::empty());
    }
    assert(fills_view(r@) =~= track_fills(*f, with_composer));
    r
}

/// Album columns to fill from a track lookup (see [`album_fills_from_track`]).
pub fn album_fill_list_from_track(f: &TrackFindings) -> (r: Vec<FieldFill>)
    ensures
        fills_view(r@) == album_fills_from_track(*f),
{
    let mut r: Vec<FieldFill> = Vec::new();
    assert(fills_view(r@) =~= Seq::empty());
    let mbid = match &f.album_release_group_mbid {
        Some(g) => Some(g.clone()),
        None => match &f.album_musicbrainz_id {
            Some(m) => Some(m.clone()),
            None => None,
        },
    };
    push_fill(&mut r, "musicbrainz_id", &mbid);
    push_fill(&mut r, "release_date", &f.album_release_date);
    push_fill(&mut r, "album_type", &f.album_type);
    push_fill(&mut r, "purchase_url", &f.album_purchase_url);
    assert(fills_view(r@) =~= album_fills_from_track(*f));
    r
}

/// Album columns to fill from an album lookup (see [`album_fills`]).
pub fn album_fill_list(a: &AlbumFindings) -> (r: Vec<FieldFill>)
    ensures
        fills_view(r@) == album_fills(*a),
{
    let mut r: Vec<FieldFill> = Vec::new();
    assert(fills_view(r@) =~= Seq::empty());
    push_fill(&mut r, "musicbrainz_id", &a.musicbrainz_id);
    push_fill(&mut r, "release_date", &a.release_date);
    push_fill(&mut r, "label", &a.label);
    push_fill(&mut r, "album_type", &a.album_type);
    assert(fills_view(r@) =~= album_fills(*a));
    r
}

/// The fields a track lookup found (see [`track_sources`]).
pub fn track_source_list(f: &TrackFindings, with_links: bool) -> (r: Vec<String>)
    ensures
        strings_view(r@) == track_sources(*f, with_links),
{
    let mut r: Vec<String> = Vec::new();
    push_source(&mut r, "musicbrainz_id", f.musicbrainz_id.is_some());
    assert(strings_view(r@) =~= source("musicbrainz_id"@, f.musicbrainz_id is Some));
    push_source(&mut r, "genre", f.genre.is_some());
    push_source(&mut r, "release_date", f.release_date.is_some());
    push_source(&mut r, "isrc", f.isrc.is_some());
    let mut details = detail_source_list(f);
    let ghost ids = strings_view(r@);
    r.append(&mut details);
    assert(strings_view(r@) =~= ids + track_detail_sources(*f));
    if with_links {
        let mut links = link_source_list(f);
        let ghost before = strings_view(r@);
        r.append(&mut links);
        assert(strings_view(r@) =~= before + track_link_sources(*f));
    } else {
        assert(strings_view(r@) =~= strings_view(r@) + Seq::<Seq<char>>::empty());
    }
    r
}

fn detail_source_list(f: &TrackFindings) -> (r: Vec<String>)
    ensures
        strings_view(r@) == track_detail_sources(*f),
{
    let mut r: Vec<String> = Vec::new();
    push_source(&mut r, "description", f.description.is_some());
    assert(strings_view(r@) =~= source("description"@, f.description is Some));
    push_source(&mut r, "label", f.label.is_some());
    push_source(&mut r, "language", f.language.is_some());
    push_source(&mut r, "tags", f.tags.is_some());
    r
}

fn link_source_list(f: &TrackFindings) -> (r: Vec<String>)
    ensures
        strings_view(r@) == track_link_sources(*f),
{
    let mut r: Vec<String> = Vec::new();
    push_source(&mut r, "music_video_url", f.music_video_url.is_some());
    assert(strings_view(r@) =~= source("music_video_url"@, f.music_video_url is Some));
    push_source(&mut r, "artist_website", f.artist_website_url.is_some());
    push_source(&mut r, "album_purchase_url", f.album_purchase_url.is_some());
    r
}

/// The fields an album lookup found (see [`album_sources`]).
pub fn album_source_list(a: &AlbumFindings) -> (r: Vec<String>)
    ensures
        strings_view(r@) == album_sources(*a),
{
    let mut r: Vec<String> = Vec::new();
    assert(strings_view(r@) =~= Seq::empty());
    push_source(&mut r, "musicbrainz_id", a.musicbrainz_id.is_some());
    push_source(&mut r, "release_date", a.release_date.is_some());
    push_source(&mut r, "label", a.label.is_some());
    push_source(&mut r, "album_type", a.album_type.is_some());
    push_source(&mut r, "genre", a.genre.is_some());
    push_source(&mut r, "tracklist", a.tracklist_len > 0);
    push_source(&mut r, "total_tracks", a.total_tracks.is_some());
    assert(strings_view(r@) =~= album_sources(*a));
    r
}

/// The fields Last.fm supplied for an album (see [`lastfm_album_sources`]).
pub fn lastfm_album_source_list(l: &Option<LastfmFindings>) -> (r: Vec<String>)
    ensures
        strings_view(r@) == lastfm_album_sources(*l),
{
    let mut r: Vec<String> = Vec::new();
    assert(strings_view(r@) =~= Seq::empty());
    match l {
        Some(d) => {
            push_source(&mut r, "genre", d.tags.len() > 0);
            push_source(&mut r, "description", d.description.is_some());
            push_source(&mut r, "cover_art", d.image_url.is_some());
        },
        None => {},
    }
    assert(strings_view(r@) =~= lastfm_album_sources(*l));
    r
}

/// An album's genre (see [`album_genre`]).
pub fn choose_album_genre(l: &Option<LastfmFindings>, mb_genre: &Option<String>) -> (r: Option<String>)
    ensures
        match r {
            Some(s) => album_genre(*l, *mb_genre) == Some(s@),
            None => album_genre(*l, *mb_genre) is None,
        },
{
    match l {
        Some(d) => {
            if d.tags.len() > 0 {
                return Some(join_strings(&d.tags, ", "));
            }
        },
        None => {},
    }
    match mb_genre {
        Some(g) => Some(g.clone()),
        None => None,
    }
}

/// The genre Last.fm gives a track: its first `limit` tags joined with ", ".
pub fn lastfm_genre(tags: &Vec<String>, limit: usize) -> (r: String)
    ensures
        r@ == join(
            strings_view(
                tags@.take(
                    if limit < tags@.len() {
                        limit as int
                    } else {
                        tags@.len() as int
                    },
                ),
            ),
            ", "@,
        ),
{
    let n = if limit < tags.len() {
        limit
    } else {
        tags.len()
    };
    let mut first: Vec<String> = Vec::new();
    let mut i: usize = 0;
    while i < n
        invariant
            i <= n,
            n <= tags@.len(),
            first@ == tags@.take(i as int),
        decreases n - i,
    {
        first.push(tags[i].clone());
        i = i + 1;
        assert(first@ =~= tags@.take(i as int));
    }
    let r = join_strings(&first, ", ");
    assert(strings_view(first@) =~= first@.map_values(|s: String| s@));
    r
}

/// How a failed track lookup ends when Last.fm is asked instead: with the
/// fields it supplied (genre when it has tags, description when it has
/// one), or `None` (a failure) when it supplied neither.
pub fn lastfm_fallback_sources(has_genre: bool, has_description: bool) -> (r: Option<Vec<String>>)
    ensures
        match r {
            Some(v) => (has_genre || has_description) && strings_view(v@) == source(
                "genre"@,
                has_genre,
            ) + source("description"@, has_description),
            None => !has_genre && !has_description,
        },
{
    if !has_genre && !has_description {
        return None;
    }
    let mut v: Vec<String> = Vec::new();
    assert(strings_view(v@) =~= Seq::empty());
    push_source(&mut v, "genre", has_genre);
    push_source(&mut v, "description", has_description);
    Some(v)
}


/// Bytes of `c` in UTF-8.
pub open spec fn utf8_width(c: char) -> nat {
    if (c as u32) < 0x80 {
        1
    } else if (c as u32) < 0x800 {
        2
    } else if (c as u32) < 0x10000 {
        3
    } else {
        4
    }
}

/// Bytes of `s` in UTF-8.
pub open spec fn utf8_len(s: Seq<char>) -> nat
    decreases s.len(),
{
    if s.len() == 0 {
        0
    } else {
        utf8_len(s.drop_last()) + utf8_width(s.last())
    }
}

/// Byte `n` of `s` is where a character starts (or the end).
pub open spec fn char_boundary(s: Seq<char>, n: int) -> bool {
    exists|k: int| 0 <= k <= s.len() && utf8_len(#[trigger] s.take(k)) == n
}

/// The year in a release date: its first four bytes read as a number, when
/// it has four bytes and they make one.
pub open spec fn release_year_of(rd: Seq<char>) -> Option<int> {
    if utf8_len(rd) < 4 {
        None
    } else if rd.len() >= 4 && utf8_len(rd.take(4)) == 4 {
        signed_value(rd.take(4))
    } else {
        None
    }
}

proof fn lemma_utf8_len_prefix(s: Seq<char>, k: int)
    requires
        0 <= k <= s.len(),
    ensures
        utf8_len(s.take(k)) <= utf8_len(s),
        k < s.len() ==> utf8_len(s.take(k + 1)) == utf8_len(s.take(k)) + utf8_width(s[k]),
        utf8_len(s.take(k)) >= k,
    decreases s.len() - k,
{
    if k < s.len() {
        assert(s.take(k + 1).drop_last() =~= s.take(k));
        lemma_utf8_len_prefix(s, k + 1);
    } else {
        assert(s.take(k) =~= s);
    }
    lemma_utf8_len_at_least_count(s.take(k));
}

proof fn lemma_utf8_len_at_least_count(s: Seq<char>)
    ensures
        utf8_len(s) >= s.len(),
    decreases s.len(),
{
    if s.len() > 0 {
        lemma_utf8_len_at_least_count(s.drop_last());
    }
}

/// The ASCII characters make up their own UTF-8 length.
proof fn lemma_ascii_width(s: Seq<char>)
    requires
        forall|i: int| 0 <= i < s.len() ==> (s[i] as u32) < 0x80,
    ensures
        utf8_len(s) == s.len(),
    decreases s.len(),
{
    if s.len() > 0 {
        lemma_ascii_width(s.drop_last());
    }
}

fn width_of(c: char) -> (w: usize)
    ensures
        w == utf8_width(c),
{
    let u = c as u32;
    if u < 0x80 {
        1
    } else if u < 0x800 {
        2
    } else if u < 0x10000 {
        3
    } else {
        4
    }
}

/// The year in a release date (see [`release_year_of`]). A date whose
/// fourth byte falls inside a character has no year prefix to read and is
/// outside what this takes.
pub fn release_year(rd: &str) -> (r: Option<i64>)
    requires
        utf8_len(rd@) >= 4 ==> char_boundary(rd@, 4),
    ensures
        match r {
            Some(y) => release_year_of(rd@) == Some(y as int),
            None => release_year_of(rd@) is None,
        },
{
    let cs = crate::text::chars_of(rd);
    let mut bytes: usize = 0;
    let mut i: usize = 0;
    while i < cs.len() && bytes < 4
        invariant
            i <= cs@.len(),
            cs@ == rd@,
            bytes == utf8_len(cs@.take(i as int)),
            i > 0 ==> utf8_len(cs@.take(i - 1)) < 4,
        decreases cs@.len() - i,
    {
        proof {
            lemma_utf8_len_prefix(cs@, i as int);
        }
        bytes = bytes + width_of(cs[i]);
        i = i + 1;
    }
    proof {
        lemma_utf8_len_prefix(cs@, i as int);
        if i == cs@.len() {
            assert(cs@.take(i as int) =~= cs@);
        }
    }
    if bytes < 4 {
        return None;
    }
    // here utf8_len(rd) >= 4
    if i < 4 || bytes > 4 {
        proof {
            // the four-byte prefix is not four ASCII characters
            if cs@.len() >= 4 && utf8_len(cs@.take(4)) == 4 {
                lemma_utf8_len_prefix(cs@, 4);
                if i < 4 {
                    lemma_prefix_grows(cs@, i as int, 4);
                } else if i > 4 {
                    lemma_prefix_grows(cs@, 4, i - 1);
                }
            }
        }
        return None;
    }
    let first = crate::text::slice_chars(cs.as_slice(), 0, 4);
    assert(first@ =~= rd@.take(4));
    if first[0] == '-' {
        let rest = crate::text::slice_chars(first.as_slice(), 1, 4);
        assert(rest@ =~= first@.drop_first());
        match digits_of(rest.as_slice()) {
            Some(v) => Some(-v),
            None => None,
        }
    } else if first[0] == '+' {
        let rest = crate::text::slice_chars(first.as_slice(), 1, 4);
        assert(rest@ =~= first@.drop_first());
        digits_of(rest.as_slice())
    } else {
        digits_of(first.as_slice())
    }
}

/// UTF-8 length of prefixes grows by at least one byte per character.
proof fn lemma_prefix_grows(s: Seq<char>, a: int, b: int)
    requires
        0 <= a <= b <= s.len(),
    ensures
        utf8_len(s.take(b)) >= utf8_len(s.take(a)) + (b - a),
    decreases b - a,
{
    if a < b {
        lemma_prefix_grows(s, a, b - 1);
        lemma_utf8_len_prefix(s, b - 1);
    }
}


/// The outcome of an album enrichment, with the size of its tracklist.
pub fn album_result(album_id: i64, fields_updated: i64, tracklist: Vec<crate::discography::PlannedTrack>) -> (r: crate::models::EnrichAlbumResult)
    requires
        tracklist@.len() <= i64::MAX,
    ensures
        r.album_id == album_id,
        r.fields_updated == fields_updated,
        r.tracklist_size == tracklist@.len(),
        r.tracklist@ == tracklist@,
{
    let n = tracklist.len() as i64;
    crate::models::EnrichAlbumResult { album_id, fields_updated, tracklist_size: n, tracklist }
}


/// Counts of a scan for missing metadata in progress.
pub struct MetadataScan {
    pub total: i64,
    pub attempted: i64,
    pub enriched: i64,
    pub failed: i64,
    pub stopped: bool,
}

impl MetadataScan {
    /// Every track taken up was enriched or failed, and no more were taken
    /// up than there are.
    pub open spec fn wf(&self) -> bool {
        &&& 0 <= self.attempted <= self.total
        &&& self.enriched >= 0 && self.failed >= 0
        &&& self.enriched + self.failed == self.attempted
    }
}

/// How a track's lookup ended.
pub enum LookupEnd {
    /// MusicBrainz found the track.
    MusicBrainz,
    /// MusicBrainz failed and Last.fm (asked only with a known artist)
    /// answered, supplying tags or a description or neither.
    Lastfm { has_genre: bool, has_description: bool },
    /// MusicBrainz failed and Last.fm failed or could not be asked.
    NoAnswer,
    /// The user cancelled while the lookup ran.
    Cancelled,
}

/// A scan of `total` tracks, none taken up yet.
pub fn metadata_scan(total: i64) -> (r: MetadataScan)
    requires
        total >= 0,
    ensures
        r.wf(),
        r.total == total && r.attempted == 0 && r.enriched == 0 && r.failed == 0 && !r.stopped,
{
    MetadataScan { total, attempted: 0, enriched: 0, failed: 0, stopped: false }
}

impl MetadataScan {
    /// Whether the scan takes up another track: not after a stop, not when
    /// a cancel was asked for (which stops it), and not past the last track.
    pub fn goes_on(&mut self, cancel_requested: bool) -> (r: bool)
        requires
            old(self).wf(),
        ensures
            final(self).wf(),
            final(self).total == old(self).total && final(self).attempted == old(self).attempted
                && final(self).enriched == old(self).enriched && final(self).failed == old(self).failed,
            final(self).stopped == (old(self).stopped || (cancel_requested && old(self).attempted
                < old(self).total)),
            r == (!old(self).stopped && !cancel_requested && old(self).attempted < old(self).total),
    {
        if self.stopped || self.attempted >= self.total {
            return false;
        }
        if cancel_requested {
            self.stopped = true;
            return false;
        }
        true
    }

    /// Records how a track's lookup ended: enriched when MusicBrainz found
    /// it or Last.fm supplied tags or a description; failed otherwise; a
    /// cancel stops the scan without counting the track.
    pub fn record(&mut self, end: LookupEnd)
        requires
            old(self).wf(),
            !old(self).stopped,
            old(self).attempted < old(self).total,
        ensures
            final(self).wf(),
            final(self).total == old(self).total,
            end is Cancelled ==> final(self).stopped && final(self).attempted == old(self).attempted
                && final(self).enriched == old(self).enriched && final(self).failed == old(self).failed,
            !(end is Cancelled) ==> !final(self).stopped && final(self).attempted == old(self).attempted + 1,
            !(end is Cancelled) ==> final(self).enriched == old(self).enriched + if lookup_enriched(end) {
                1int
            } else {
                0int
            },
            !(end is Cancelled) ==> final(self).failed == old(self).failed + if lookup_enriched(end) {
                0int
            } else {
                1int
            },
    {
        match end {
            LookupEnd::Cancelled => {
                self.stopped = true;
            },
            LookupEnd::MusicBrainz => {
                self.attempted = self.attempted + 1;
                self.enriched = self.enriched + 1;
            },
            LookupEnd::Lastfm { has_genre, has_description } => {
                self.attempted = self.attempted + 1;
                if has_genre || has_description {
                    self.enriched = self.enriched + 1;
                } else {
                    self.failed = self.failed + 1;
                }
            },
            LookupEnd::NoAnswer => {
                self.attempted = self.attempted + 1;
                self.failed = self.failed + 1;
            },
        }
    }

    /// The scan's result with the library's average completeness.
    pub fn result(&self, completeness_avg: i64) -> (r: crate::models::ScanMissingResult)
        ensures
            r.total_tracks == self.total && r.enriched == self.enriched && r.failed == self.failed
                && r.completeness_avg == completeness_avg,
    {
        crate::models::ScanMissingResult {
            total_tracks: self.total,
            enriched: self.enriched,
            failed: self.failed,
            completeness_avg,
        }
    }
}

/// Whether a lookup that ended this way enriched the track.
pub open spec fn lookup_enriched(end: LookupEnd) -> bool {
    match end {
        LookupEnd::MusicBrainz => true,
        LookupEnd::Lastfm { has_genre, has_description } => has_genre || has_description,
        _ => false,
    }
}

/// A scan never counts more tracks than it has, and every track it took up
/// is counted once, as enriched or as failed.
pub proof fn law_scan_counts_each_track_once(s: MetadataScan)
    requires
        s.wf(),
    ensures
        s.enriched + s.failed <= s.total,
{
}

} // verus!
