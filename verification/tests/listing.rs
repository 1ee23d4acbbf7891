use playlist_core::catalog::{
    completeness_percent, fts_query_of, sql_dir, order_by_clause, placeholder_list, random_tracks_query,
    tracks_query, CompletenessFields,
};
use playlist_core::naming::export_track_names;
use playlist_core::player::{plan_play, repeat_mode_of, wants_gain_measure};
use playlist_core::models::RepeatMode;
use playlist_core::playlists::{reordered, smart_totals};
use playlist_core::library::{imported_title, paths_to_import, search_limit, search_pattern, top_query};

fn s(x: &str) -> Option<String> {
    Some(x.to_string())
}

#[test]
fn fts_queries() {
    assert_eq!(fts_query_of("  daft   punk "), "daft* punk*");
    assert_eq!(fts_query_of("one"), "one*");
    assert_eq!(fts_query_of("   "), "");
}

#[test]
fn track_page_queries() {
    let q = tracks_query(-5, 9999, "title", "asc", &s(" love song "));
    assert_eq!(q.limit, 500);
    assert_eq!(q.offset, 0);
    assert_eq!(q.order_clause, "t.title ASC");
    assert_eq!(q.fts.as_deref(), Some("love* song*"));
    assert_eq!((q.limit_param, q.offset_param), (2, 3));
    let q = tracks_query(20, 0, "nope", "down", &s("   "));
    assert_eq!(q.limit, 1);
    assert_eq!(q.offset, 20);
    assert_eq!(q.order_clause, "t.date_added DESC");
    assert!(q.fts.is_none());
    assert_eq!(q.where_clause, "");
    assert_eq!((q.limit_param, q.offset_param), (1, 2));
    assert_eq!(order_by_clause("last_played", "asc"), "t.last_played_at DESC NULLS LAST");
    assert_eq!(order_by_clause("random", "asc"), "RANDOM()");
    assert_eq!(order_by_clause("artist_name", "desc"), "a.name DESC");
}

#[test]
fn completeness_percentages() {
    let mut f = CompletenessFields {
        title: s("Unknown"),
        artist_id: Some(1),
        album_id: None,
        genre: s(""),
        year: Some(1999),
        track_number: None,
        cover_art_path: None,
        duration_ms: Some(1000),
        description: None,
        label: s("L"),
        release_date: None,
    };
    // artist, year, duration, label: 4 of 11 -> 36
    assert_eq!(completeness_percent(&f), 36);
    f.title = s("Song");
    f.album_id = Some(2);
    // 6 of 11 -> 54.5 -> 55
    assert_eq!(completeness_percent(&f), 55);
    let full = CompletenessFields {
        title: s("a"),
        artist_id: Some(1),
        album_id: Some(1),
        genre: s("g"),
        year: Some(1),
        track_number: Some(1),
        cover_art_path: s("c"),
        duration_ms: Some(1),
        description: s("d"),
        label: s("l"),
        release_date: s("r"),
    };
    assert_eq!(completeness_percent(&full), 100);
}

#[test]
fn placeholders_and_random_query() {
    assert_eq!(placeholder_list(1, 3), "?1,?2,?3");
    assert_eq!(placeholder_list(4, 1), "?4");
    assert_eq!(placeholder_list(1, 0), "");
    assert_eq!(random_tracks_query(0, 0), ("SELECT id FROM tracks ORDER BY RANDOM() LIMIT ?1".to_string(), 1));
    assert_eq!(
        random_tracks_query(2, 5),
        ("SELECT id FROM tracks WHERE id NOT IN (?1,?2) ORDER BY RANDOM() LIMIT ?3".to_string(), 5)
    );
}

#[test]
fn play_plans() {
    assert_eq!(plan_play(&vec![], &vec![1], 0), None);
    assert_eq!(plan_play(&vec![9], &vec![1], 0), Some(Err("No valid tracks found".to_string())));
    assert_eq!(plan_play(&vec![3, 9, 3, 4], &vec![3, 4], 10), Some(Ok((vec![3, 3, 4], 2))));
    assert_eq!(plan_play(&vec![3, 4], &vec![3, 4], 1), Some(Ok((vec![3, 4], 1))));
    assert_eq!(repeat_mode_of("all"), RepeatMode::All);
    assert_eq!(repeat_mode_of("one"), RepeatMode::One);
    assert_eq!(repeat_mode_of("x"), RepeatMode::Off);
    assert!(wants_gain_measure(false, &s("true")));
    assert!(!wants_gain_measure(true, &s("true")));
    assert!(!wants_gain_measure(false, &s("false")));
    assert!(!wants_gain_measure(false, &None));
}

#[test]
fn playlist_moves_and_totals() {
    assert_eq!(reordered(vec![1, 2, 3, 4], 0, 2), vec![2, 3, 1, 4]);
    assert_eq!(reordered(vec![1, 2, 3, 4], 3, 0), vec![4, 1, 2, 3]);
    assert_eq!(reordered(vec![1, 2, 3], 5, 0), vec![1, 2, 3]);
    assert_eq!(reordered(vec![1, 2, 3], -1, 0), vec![1, 2, 3]);
    assert_eq!(smart_totals(&vec![Some(1000), None, Some(500)]), (3, 1500));
    assert_eq!(smart_totals(&vec![]), (0, 0));
}

#[test]
fn export_names() {
    let n = export_track_names(7, "/m/a.flac", Some("AC/DC"), None, Some(2), Some(3), "T?");
    assert_eq!(n.artist_dir, "AC_DC");
    assert_eq!(n.album_dir, "Unknown Album");
    assert_eq!(n.file_name, "2-03 - T_.flac");
    assert_eq!(n.fallback_name, "2-03 - T_ [7].flac");
    let n = export_track_names(7, "/m/noext", None, Some("..A.."), Some(1), Some(12), " x ");
    assert_eq!(n.artist_dir, "Unknown Artist");
    assert_eq!(n.album_dir, "A");
    assert_eq!(n.file_name, "12 - x.mp3");
    let n = export_track_names(9, "/m/a.ogg", None, None, None, None, "Song");
    assert_eq!(n.file_name, "Song [9].ogg");
    assert_eq!(n.fallback_name, "Song [9].ogg");
}

#[test]
fn search_and_top_settings() {
    assert_eq!(search_pattern("50%_off"), Some("%50\\%\\_off%".to_string()));
    assert_eq!(search_pattern("  "), None);
    assert_eq!(search_limit(None), 50);
    assert_eq!(search_limit(Some(7)), 7);
    let t = top_query("week", Some(500));
    assert_eq!(t.limit, 100);
    assert_eq!(t.period_param, "-7 days");
    assert_eq!(t.where_clause, "WHERE p.played_at >= datetime('now', ?1)");
    let t = top_query("all", None);
    assert_eq!(t.limit, 10);
    assert_eq!(t.period_param, "all");
    assert_eq!(t.where_clause, "WHERE ?1 = ?1");
    assert_eq!(top_query("month", Some(0)).limit, 1);
}

#[test]
fn import_skips_known_paths() {
    let existing = vec!["/m/a.mp3".to_string(), "/m/b.flac".to_string()];
    let files = vec![
        "/m/a.mp3".to_string(),
        "/m/c.ogg".to_string(),
        "/m/b.flac".to_string(),
        "/m/d.mp3".to_string(),
    ];
    assert_eq!(paths_to_import(&existing, &files), vec!["/m/c.ogg".to_string(), "/m/d.mp3".to_string()]);
    assert!(paths_to_import(&files, &files).is_empty());
    assert_eq!(paths_to_import(&Vec::new(), &files), files);
    assert_eq!(imported_title(None), "Unknown");
    assert_eq!(imported_title(Some("Song".to_string())), "Song");
}

#[test]
fn sort_directions() {
    assert_eq!(sql_dir("asc"), "ASC");
    assert_eq!(sql_dir("desc"), "DESC");
    assert_eq!(sql_dir("ASC"), "DESC");
    assert_eq!(order_by_clause("year", "asc"), "t.year ASC");
}
