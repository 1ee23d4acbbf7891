use playlist_core::catalog::{album_tracks_delete_sql, batch_edit_error, track_failure};
use playlist_core::device_sync::{
    estimate_sync_bytes, lossless_source, part_extension, room_error, sync_failure, sync_target,
    transcode_arg_list,
};
use playlist_core::preferences::{add_folder, flag_text, lastfm_status, remove_folder};
use playlist_core::records::{
    artist_lookup, device_needs_write, fill_if_missing_sql, find_known_device, link_counts,
    scanned_device, status_update_sql,
};
use playlist_core::models::DetectedDevice;

fn strings(v: &[&str]) -> Vec<String> {
    v.iter().map(|s| s.to_string()).collect()
}

#[test]
fn artist_lookup_strips_the_article() {
    let l = artist_lookup("The Beatles");
    assert_eq!(l.bare, "Beatles");
    assert_eq!(l.with_article, "The Beatles");
    assert_eq!(l.contains_pattern.as_deref(), Some("%Beatles%"));
    let l = artist_lookup("the xx");
    assert_eq!(l.bare, "xx");
    assert_eq!(l.with_article, "The xx");
    assert_eq!(l.contains_pattern, None);
    let l = artist_lookup("Abba");
    assert_eq!(l.bare, "Abba");
    assert_eq!(l.contains_pattern.as_deref(), Some("%Abba%"));
    let l = artist_lookup("Theatre");
    assert_eq!(l.bare, "Theatre");
    assert_eq!(l.with_article, "The Theatre");
}

#[test]
fn fill_statement_only_touches_empty_columns() {
    assert_eq!(
        fill_if_missing_sql("albums", "genre"),
        "UPDATE albums SET genre = ?1 WHERE id = ?2 AND (genre IS NULL OR genre = '')"
    );
}

#[test]
fn status_statements() {
    let (sql, err) = status_update_sql("downloading");
    assert!(sql.contains("started_at = datetime('now')"));
    assert!(!err);
    let (sql, err) = status_update_sql("completed");
    assert!(sql.contains("progress = 100.0"));
    assert!(!err);
    let (sql, err) = status_update_sql("failed");
    assert_eq!(sql, "UPDATE downloads SET status = ?2, error_message = ?3 WHERE id = ?1");
    assert!(err);
    assert!(status_update_sql("cancelled").1);
    assert_eq!(status_update_sql("queued").0, "UPDATE downloads SET status = ?2 WHERE id = ?1");
}

#[test]
fn known_device_rewrites() {
    let mount = Some("/media/a".to_string());
    assert!(!device_needs_write("Phone", &mount, Some(10), "Phone", "/media/a", Some(10), false));
    assert!(device_needs_write("Phone", &mount, Some(10), "Phone2", "/media/a", Some(10), false));
    assert!(device_needs_write("Phone", &mount, Some(10), "Phone", "/media/b", Some(10), false));
    assert!(device_needs_write("Phone", &None, Some(10), "Phone", "/media/a", Some(10), false));
    assert!(device_needs_write("Phone", &mount, None, "Phone", "/media/a", Some(10), false));
    assert!(device_needs_write("Phone", &mount, Some(10), "Phone", "/media/a", Some(10), true));
}

#[test]
fn device_link_counts() {
    assert_eq!(link_counts(10, 3, 2), (7, 5));
    assert_eq!(link_counts(0, 0, 0), (0, 0));
}

#[test]
fn watched_folders() {
    let (f, changed) = add_folder(strings(&["/a"]), "/b");
    assert!(changed);
    assert_eq!(f, strings(&["/a", "/b"]));
    let (f2, changed) = add_folder(f.clone(), "/b");
    assert!(!changed);
    assert_eq!(f2, f);
    let r = remove_folder(&strings(&["/a", "/b", "/a"]), "/a");
    assert_eq!(r, strings(&["/b"]));
    assert_eq!(remove_folder(&strings(&["/a"]), "/z"), strings(&["/a"]));
}

#[test]
fn lastfm_settings() {
    let s = lastfm_status(true, &Some("me".to_string()), &None, 4);
    assert!(s.connected);
    assert_eq!(s.username.as_deref(), Some("me"));
    assert!(s.scrobbling_enabled);
    assert_eq!(s.pending_scrobbles, 4);
    let s = lastfm_status(false, &Some(String::new()), &Some("false".to_string()), 0);
    assert!(!s.connected);
    assert_eq!(s.username, None);
    assert!(!s.scrobbling_enabled);
    assert!(lastfm_status(false, &None, &Some("true".to_string()), 0).scrobbling_enabled);
    assert_eq!(flag_text(true), "true");
    assert_eq!(flag_text(false), "false");
}

#[test]
fn batch_edit_outcome() {
    assert_eq!(track_failure(-3, "boom"), "track -3: boom");
    assert_eq!(batch_edit_error(2, 2, &Vec::new()), None);
    let f = vec![track_failure(4, "no file"), track_failure(9, "bad tag")];
    assert_eq!(
        batch_edit_error(1, 3, &f).as_deref(),
        Some("Updated 1 of 3 tracks; failures: track 4: no file; track 9: bad tag")
    );
}

#[test]
fn album_track_deletion() {
    assert_eq!(
        album_tracks_delete_sql(&vec![4, 17]),
        "DELETE FROM tracks_fts WHERE rowid IN (4,17);\n         DELETE FROM playlist_tracks WHERE track_id IN (4,17);\n         DELETE FROM tracks WHERE id IN (4,17);"
    );
}

#[test]
fn sync_targets_and_sizes() {
    assert_eq!(sync_target("Music", "MP3"), Ok("mp3".to_string()));
    assert_eq!(sync_target("../x", "mp3"), Err("Invalid device music directory".to_string()));
    assert_eq!(
        sync_target("Music", "wma"),
        Err("Unsupported device output format: wma".to_string())
    );
    assert!(lossless_source(&Some("FLAC".to_string())));
    assert!(lossless_source(&Some("aif".to_string())));
    assert!(!lossless_source(&Some("mp3".to_string())));
    assert!(!lossless_source(&None));
    assert_eq!(estimate_sync_bytes(&vec![(100, false), (50, true)], true), 650);
    assert_eq!(estimate_sync_bytes(&vec![(100, false), (50, true)], false), 150);
    assert_eq!(estimate_sync_bytes(&Vec::new(), true), 0);
}

#[test]
fn room_and_failures() {
    assert_eq!(room_error(100, 1000), None);
    assert_eq!(room_error(950, 1000), None);
    assert_eq!(
        room_error(951, 1000).as_deref(),
        Some("Not enough space on device: need ~0 MB but only 0 MB free")
    );
    assert_eq!(
        room_error(3 * 1048576, 2 * 1048576).as_deref(),
        Some("Not enough space on device: need ~3 MB but only 2 MB free")
    );
    assert_eq!(sync_failure(0), None);
    assert_eq!(sync_failure(1).as_deref(), Some("1 track failed to sync"));
    assert_eq!(sync_failure(5).as_deref(), Some("5 tracks failed to sync"));
}

#[test]
fn transcode_arguments() {
    assert_eq!(
        transcode_arg_list("in.flac", "mp3", "256k", "out.mp3"),
        strings(&["-i", "in.flac", "-y", "-codec:a", "libmp3lame", "-b:a", "256k", "out.mp3"])
    );
    assert_eq!(
        transcode_arg_list("in.flac", "opus", "abc", "o.opus"),
        strings(&["-i", "in.flac", "-y", "-codec:a", "libopus", "-b:a", "320k", "o.opus"])
    );
    assert_eq!(
        transcode_arg_list("in.mp3", "flac", "320", "o.flac"),
        strings(&["-i", "in.mp3", "-y", "-codec:a", "flac", "o.flac"])
    );
    assert_eq!(
        transcode_arg_list("in.mp3", "m4a", "128", "o.m4a"),
        strings(&["-i", "in.mp3", "-y", "-b:a", "128k", "o.m4a"])
    );
}

#[test]
fn partial_file_extension() {
    assert_eq!(part_extension("/x/song.mp3"), "part.mp3");
    assert_eq!(part_extension("/x/song"), "part.tmp");
}

#[test]
fn removed_tracks_remain_pending_until_device_reconciliation() {
    // The playlist lost its only track; the copy on the device is stale.
    let (synced, pending) = link_counts(0, 0, 1);
    assert_eq!(synced, 0);
    assert_eq!(pending, 1);
}

#[test]
fn scanned_devices_are_matched_by_uid() {
    let known = vec![("usb-1".to_string(), 4), ("usb-2".to_string(), 9), ("usb-1".to_string(), 11)];
    assert_eq!(find_known_device(&known, "usb-1"), Some(4));
    assert_eq!(find_known_device(&known, "usb-2"), Some(9));
    assert_eq!(find_known_device(&known, "usb-3"), None);
    let d = || DetectedDevice {
        device_uid: "usb-3".to_string(),
        name: "Stick".to_string(),
        mount_path: "/media/stick".to_string(),
        capacity_bytes: Some(100),
        free_bytes: Some(50),
        vendor: None,
        model: Some("X".to_string()),
    };
    let s = scanned_device(d(), None, Some(12));
    assert!(!s.is_known);
    assert_eq!(s.device_id, Some(12));
    assert_eq!(s.name, "Stick");
    assert_eq!(s.free_bytes, Some(50));
    let s = scanned_device(d(), Some(4), Some(12));
    assert!(s.is_known);
    assert_eq!(s.device_id, Some(4));
}
