use playlist_core::enrich::{
    album_fill_list, album_fill_list_from_track, album_source_list, choose_album_genre,
    lastfm_album_source_list, lastfm_fallback_sources, lastfm_genre, release_year,
    track_fill_list, track_source_list, AlbumFindings, LastfmFindings, TrackFindings,
};

fn s(x: &str) -> Option<String> {
    Some(x.to_string())
}

fn findings() -> TrackFindings {
    TrackFindings {
        musicbrainz_id: s("mb-1"),
        genre: None,
        release_date: s("1999-03-01"),
        isrc: None,
        description: None,
        label: s("Label"),
        language: None,
        composer: s("Someone"),
        tags: Some(vec!["rock".to_string()]),
        music_video_url: s("https://v"),
        artist_website_url: None,
        album_purchase_url: s("https://buy"),
        album_release_group_mbid: None,
        album_musicbrainz_id: s("rel-9"),
        album_release_date: None,
        album_type: s("Album"),
    }
}

fn pairs(v: Vec<playlist_core::enrich::FieldFill>) -> Vec<(String, String)> {
    v.into_iter().map(|f| (f.column, f.value)).collect()
}

#[test]
fn track_fill_list_keeps_order_and_skips_missing() {
    let f = findings();
    let got = pairs(track_fill_list(&f, false));
    assert_eq!(
        got,
        vec![
            ("musicbrainz_id".to_string(), "mb-1".to_string()),
            ("release_date".to_string(), "1999-03-01".to_string()),
            ("label".to_string(), "Label".to_string()),
        ]
    );
    let with = pairs(track_fill_list(&f, true));
    assert_eq!(with.last().unwrap(), &("composer".to_string(), "Someone".to_string()));
}

#[test]
fn album_fill_from_track_prefers_release_group() {
    let mut f = findings();
    let got = pairs(album_fill_list_from_track(&f));
    assert_eq!(got[0], ("musicbrainz_id".to_string(), "rel-9".to_string()));
    f.album_release_group_mbid = s("rg-3");
    let got = pairs(album_fill_list_from_track(&f));
    assert_eq!(got[0], ("musicbrainz_id".to_string(), "rg-3".to_string()));
    assert_eq!(got[1], ("album_type".to_string(), "Album".to_string()));
    assert_eq!(got[2], ("purchase_url".to_string(), "https://buy".to_string()));
}

#[test]
fn sources_lists() {
    let f = findings();
    assert_eq!(
        track_source_list(&f, false),
        vec!["musicbrainz_id", "release_date", "label", "tags"]
    );
    assert_eq!(
        track_source_list(&f, true),
        vec!["musicbrainz_id", "release_date", "label", "tags", "music_video_url", "album_purchase_url"]
    );
    let a = AlbumFindings {
        musicbrainz_id: None,
        release_date: s("2001"),
        label: None,
        album_type: None,
        genre: s("jazz"),
        tracklist_len: 12,
        total_tracks: None,
    };
    assert_eq!(album_source_list(&a), vec!["release_date", "genre", "tracklist"]);
    assert_eq!(pairs(album_fill_list(&a)), vec![("release_date".to_string(), "2001".to_string())]);
    let l = Some(LastfmFindings { tags: vec![], description: s("d"), image_url: s("u") });
    assert_eq!(lastfm_album_source_list(&l), vec!["description", "cover_art"]);
    assert!(lastfm_album_source_list(&None).is_empty());
}

#[test]
fn album_genre_prefers_lastfm_tags() {
    let l = Some(LastfmFindings {
        tags: vec!["trip hop".to_string(), "electronic".to_string()],
        description: None,
        image_url: None,
    });
    assert_eq!(choose_album_genre(&l, &s("downtempo")), s("trip hop, electronic"));
    let empty = Some(LastfmFindings { tags: vec![], description: None, image_url: None });
    assert_eq!(choose_album_genre(&empty, &s("downtempo")), s("downtempo"));
    assert_eq!(choose_album_genre(&None, &None), None);
}

#[test]
fn lastfm_genre_takes_first_tags() {
    let tags: Vec<String> = ["a", "b", "c", "d"].iter().map(|t| t.to_string()).collect();
    assert_eq!(lastfm_genre(&tags, 3), "a, b, c");
    assert_eq!(lastfm_genre(&tags[..1].to_vec(), 3), "a");
    assert_eq!(lastfm_genre(&Vec::new(), 3), "");
}

#[test]
fn fallback_outcomes() {
    assert_eq!(lastfm_fallback_sources(false, false), None);
    assert_eq!(lastfm_fallback_sources(true, false), Some(vec!["genre".to_string()]));
    assert_eq!(
        lastfm_fallback_sources(true, true),
        Some(vec!["genre".to_string(), "description".to_string()])
    );
}

#[test]
fn release_year_reads_first_four_bytes() {
    assert_eq!(release_year("2024-05-01"), Some(2024));
    assert_eq!(release_year("1999"), Some(1999));
    assert_eq!(release_year("199"), None);
    assert_eq!(release_year("-001x"), Some(-1));
    assert_eq!(release_year("+12"), None);
    assert_eq!(release_year("19x9"), None);
    assert_eq!(release_year("é12"), None);
}

#[test]
fn album_result_counts_its_tracklist() {
    use_album_result();
}

fn use_album_result() {
    let t = |n: i64| playlist_core::discography::PlannedTrack {
        title: format!("Track {}", n),
        disc: 1,
        number: n,
        duration_ms: None,
        isrc: None,
        recording_mbid: None,
    };
    let r = playlist_core::enrich::album_result(7, 3, vec![t(1), t(2)]);
    assert_eq!(r.album_id, 7);
    assert_eq!(r.fields_updated, 3);
    assert_eq!(r.tracklist_size, 2);
    assert_eq!(r.tracklist[1].number, 2);
    assert_eq!(playlist_core::enrich::album_result(1, 0, Vec::new()).tracklist_size, 0);
}
