use playlist_core::discography::{
    album_download_status, album_title_for_download, missing_album_indices, query_search_url,
    release_tracklist, track_search_url, DiscographyEntry, DiscographyRef, ReleaseMedium,
    ReleaseTrack,
};
use playlist_core::monitor::{
    count_new_entries, entry_download_url, entry_format_quality, entry_platform, is_drm_platform,
    playlist_name, search_url_fixes, stored_entry, FetchedEntry, StoredEntry,
};

fn s(x: &str) -> String {
    x.to_string()
}

#[test]
fn drm_platforms() {
    assert!(is_drm_platform("spotify"));
    assert!(is_drm_platform("amazon_music"));
    assert!(!is_drm_platform("youtube"));
}

#[test]
fn stored_entry_prefers_music_fields_and_falls_back_to_search() {
    let e = FetchedEntry {
        title: s("Official Video"),
        track: Some(s("Song")),
        artist: None,
        uploader: Some(s("Channel")),
        webpage_url: Some(s("")),
    };
    let st = stored_entry(&e);
    assert_eq!(st.title, "Song");
    assert_eq!(st.artist.as_deref(), Some("Channel"));
    assert_eq!(st.url, "ytsearch1:Channel - Song");

    let e2 = FetchedEntry {
        title: s("T"),
        track: None,
        artist: None,
        uploader: None,
        webpage_url: Some(s("https://x/1")),
    };
    let st2 = stored_entry(&e2);
    assert_eq!(st2.url, "https://x/1");
    assert_eq!(st2.title, "T");
    let e3 = FetchedEntry { title: s("T"), track: None, artist: None, uploader: None, webpage_url: None };
    assert_eq!(stored_entry(&e3).url, "ytsearch1:T");
}

#[test]
fn playlist_names_and_platforms() {
    assert_eq!(playlist_name(&Some(s("Mix")), "youtube"), "Mix");
    assert_eq!(playlist_name(&Some(s("")), "youtube"), "youtube playlist");
    assert_eq!(playlist_name(&None, "spotify"), "spotify playlist");
    assert_eq!(entry_platform("spotify", "other"), "spotify");
    assert_eq!(entry_platform("", "other"), "other");
    assert_eq!(entry_platform("spotify", "youtube"), "youtube");
}

#[test]
fn entry_download_urls() {
    assert_eq!(
        entry_download_url("spotify", "https://open.spotify.com/t/1", "clean", &Some(s("A")), &Some(s("B"))),
        Ok(s("ytsearch1:A - B"))
    );
    assert_eq!(
        entry_download_url("spotify", "https://open.spotify.com/t/1", "clean", &None, &Some(s("B"))),
        Ok(s("ytsearch1:B"))
    );
    assert_eq!(
        entry_download_url("spotify", "https://open.spotify.com/t/1", "clean", &Some(s("A")), &None),
        Err(s("Entry missing title for YouTube search"))
    );
    assert_eq!(entry_download_url("youtube", "https://y/1", "clean", &None, &None), Ok(s("clean")));
}

#[test]
fn format_quality_defaults() {
    assert_eq!(entry_format_quality(None, None, None), (s("mp3"), s("best")));
    assert_eq!(entry_format_quality(None, Some(s("320")), Some(s("flac"))), (s("flac"), s("320")));
    assert_eq!(entry_format_quality(Some(s("opus")), None, Some(s("flac"))), (s("opus"), s("best")));
}

#[test]
fn new_entries_count_each_url_once() {
    let existing = vec![s("a"), s("b")];
    let urls = vec![s("a"), s("c"), s("c"), s("d"), s("b")];
    assert_eq!(count_new_entries(&existing, &urls), 2);
    assert_eq!(count_new_entries(&vec![], &vec![]), 0);
}

#[test]
fn search_fixes_skip_searches() {
    let entries = vec![
        StoredEntry { url: s("ytsearch1:x"), title: s("x"), artist: None },
        StoredEntry { url: s("https://y"), title: s("y"), artist: None },
    ];
    assert_eq!(search_url_fixes(&entries), vec![(s("https://y"), s("y"))]);
}

fn track(title: Option<&str>, position: Option<i64>, number: Option<&str>) -> ReleaseTrack {
    ReleaseTrack {
        title: title.map(s),
        position,
        number: number.map(s),
        recording_length: None,
        length: Some(1000),
        first_isrc: None,
        recording_id: None,
    }
}

#[test]
fn release_tracklist_numbers_and_discs() {
    let media = vec![
        ReleaseMedium {
            position: None,
            tracks: vec![track(Some("One"), None, Some("A1")), track(Some(""), None, None), track(Some("Three"), None, Some("7"))],
        },
        ReleaseMedium { position: Some(2), tracks: vec![track(Some("Four"), Some(9), Some("1")), track(None, None, None)] },
    ];
    let plan = release_tracklist(&media);
    let got: Vec<(String, i64, i64)> = plan.iter().map(|p| (p.title.clone(), p.disc, p.number)).collect();
    assert_eq!(got, vec![(s("One"), 1, 1), (s("Three"), 1, 7), (s("Four"), 2, 9)]);
    assert_eq!(plan[0].duration_ms, Some(1000));
}

#[test]
fn album_titles_for_downloads() {
    let disco = vec![
        DiscographyRef { mbid: Some(s("x")), title: Some(s("X")) },
        DiscographyRef { mbid: Some(s("y")), title: None },
        DiscographyRef { mbid: Some(s("y")), title: Some(s("Y2")) },
    ];
    assert_eq!(album_title_for_download(&disco, "x", &None), "X");
    assert_eq!(album_title_for_download(&disco, "y", &Some(s("G"))), "G");
    assert_eq!(album_title_for_download(&disco, "z", &None), "Unknown Album");
}

#[test]
fn missing_albums_by_id_or_title() {
    let disco = vec![
        DiscographyEntry { mbid: s("m1"), title: s("First") },
        DiscographyEntry { mbid: s("m2"), title: s("Second") },
        DiscographyEntry { mbid: s("m3"), title: s("Third") },
    ];
    let got = missing_album_indices(&disco, &vec![s("second")], &vec![s("m1")]);
    assert_eq!(got, vec![2]);
}

#[test]
fn download_status_names() {
    let (n, st) = album_download_status(Some(10), 10);
    assert_eq!((n, st.name()), (10, "complete"));
    let (n, st) = album_download_status(Some(10), 3);
    assert_eq!((n, st.name()), (10, "partial"));
    let (n, st) = album_download_status(Some(10), 0);
    assert_eq!((n, st.name()), (10, "none"));
    let (n, st) = album_download_status(Some(0), 4);
    assert_eq!((n, st.name()), (0, "unknown"));
    let (n, st) = album_download_status(None, 4);
    assert_eq!((n, st.name()), (0, "unknown"));
}

#[test]
fn search_urls() {
    assert_eq!(track_search_url("Artist", "Song"), "ytsearch5:Artist - Song");
    assert_eq!(query_search_url("abc"), "ytsearch5:abc");
}
