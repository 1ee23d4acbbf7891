use playlist_core::m3u::{
    export_display, imported_playlist_name, m3u_content, m3u_file_name, parse_m3u, M3uItem,
};

fn item(path: &str, display: &str, ms: Option<i64>) -> M3uItem {
    M3uItem { path: path.to_string(), display: display.to_string(), duration_ms: ms }
}

#[test]
fn export_writes_extinf_lines() {
    let items = vec![item("/m/a.mp3", "Daft Punk - One More Time", Some(320_500)), item("b.flac", "Solo", None)];
    assert_eq!(
        m3u_content(&items),
        "#EXTM3U\n#EXTINF:320,Daft Punk - One More Time\n/m/a.mp3\n#EXTINF:0,Solo\nb.flac\n"
    );
    assert_eq!(m3u_content(&Vec::new()), "#EXTM3U\n");
    assert_eq!(m3u_content(&vec![item("x", "y", Some(-1500))]), "#EXTM3U\n#EXTINF:-1,y\nx\n");
}

#[test]
fn export_then_import_gives_entries_back() {
    let items = vec![
        item("/m/a.mp3", &export_display("One More Time", Some("Daft Punk")), Some(320_000)),
        item("/m/b.mp3", &export_display("Untitled", None), None),
        item("/m/c.mp3", "  ", Some(1000)),
    ];
    let entries = parse_m3u(&m3u_content(&items));
    assert_eq!(entries.len(), 3);
    assert_eq!(entries[0].raw_path, "/m/a.mp3");
    assert_eq!(entries[0].artist.as_deref(), Some("Daft Punk"));
    assert_eq!(entries[0].title.as_deref(), Some("One More Time"));
    assert_eq!(entries[1].raw_path, "/m/b.mp3");
    assert_eq!(entries[1].artist, None);
    assert_eq!(entries[1].title.as_deref(), Some("Untitled"));
    assert_eq!(entries[2].raw_path, "/m/c.mp3");
    assert_eq!(entries[2].artist, None);
    assert_eq!(entries[2].title, None);
}

#[test]
fn import_skips_comments_and_blank_lines() {
    let text = "\u{feff}#EXTM3U\r\n\r\n# note\r\n#EXTINF:10,Artist - Song\r\n  song.mp3  \r\nplain.mp3\n";
    let entries = parse_m3u(text);
    assert_eq!(entries.len(), 2);
    assert_eq!(entries[0].raw_path, "song.mp3");
    assert_eq!(entries[0].artist.as_deref(), Some("Artist"));
    assert_eq!(entries[0].title.as_deref(), Some("Song"));
    assert_eq!(entries[1].raw_path, "plain.mp3");
    assert_eq!(entries[1].title, None);
}

#[test]
fn playlist_file_names() {
    assert_eq!(imported_playlist_name("/music/Road Trip.m3u8"), "Road Trip");
    assert_eq!(imported_playlist_name("/music/Mix.m3u/."), "Mix");
    assert_eq!(imported_playlist_name("/music/.."), "Imported Playlist");
    assert_eq!(imported_playlist_name("/"), "Imported Playlist");
    assert_eq!(export_display("T", Some("")), "T");
    assert!(m3u_file_name("Mix").ends_with(".m3u"));
}
