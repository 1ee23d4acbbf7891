use playlist_core::device_sync::{
    device_relative_path, device_track_filename, needs_resync, plan_track_sync,
    validate_device_config,
};
use playlist_core::naming::{file_extension, needs_transcode, sanitize_export_filename, sanitize_filename};

#[test]
fn device_configuration_rejects_paths_outside_mount_and_unknown_formats() {
    assert!(validate_device_config("../Music", "original", "320").is_err());
    assert!(validate_device_config("/Music", "original", "320").is_err());
    assert!(validate_device_config("Music", "aac", "320").is_err());
}

#[test]
fn device_configuration_normalizes_and_checks_bitrate() {
    assert_eq!(
        validate_device_config(" Music/Phone ", " OPUS ", " 192 "),
        Ok(("Music/Phone".to_string(), "opus".to_string(), "192".to_string()))
    );
    assert_eq!(
        validate_device_config("Music", "mp3", "999"),
        Err("Unsupported device output bitrate".to_string())
    );
    assert!(validate_device_config("Music", "flac", "999").is_ok());
    assert_eq!(
        validate_device_config("Music", "aac", "320"),
        Err("Unsupported device output format: aac".to_string())
    );
    assert!(validate_device_config("a/../b", "mp3", "320").is_err());
    // Read as on Unix: a drive prefix and a backslash are parts of a name.
    assert!(validate_device_config("C:\\Music", "mp3", "320").is_ok());
    assert!(validate_device_config("\\Music", "mp3", "320").is_ok());
    assert!(validate_device_config("a\\..\\b", "mp3", "320").is_ok());
    assert!(validate_device_config("/Music", "mp3", "320").is_err());
    assert!(validate_device_config("", "mp3", "320").is_err());
    assert!(validate_device_config("..a", "mp3", "320").is_ok());
}

#[test]
fn changing_to_original_marks_transcoded_tracks_pending() {
    // the device is reconfigured to keep original files
    assert!(validate_device_config("Music", "original", "320").is_ok());
    // a track synced as opus is pending once the device switches to "original";
    // the real extension of the file decides, not stored format metadata
    assert!(needs_resync(Some("opus"), "original", "/music/Song.FLAC", None, None));
    assert!(!needs_resync(Some("flac"), "original", "/music/Song.FLAC", None, None));
    assert!(needs_resync(None, "mp3", "/a.mp3", None, None));
    assert!(needs_resync(Some("mp3"), "MP3", "/a.mp3", Some(10), Some(11)));
    assert!(!needs_resync(Some("mp3"), "MP3", "/a.mp3", Some(10), None));
    assert!(!needs_resync(Some("MP3"), "original", "/a", None, None));
}

#[test]
fn track_names_on_device() {
    assert_eq!(device_track_filename(Some(3), "Intro", 9, "mp3"), "03 - Intro.mp3");
    assert_eq!(device_track_filename(Some(12), "A/B", 9, "flac"), "12 - A_B.flac");
    assert_eq!(device_track_filename(None, "Song", 42, "opus"), "Song [42].opus");
    assert_eq!(device_track_filename(Some(0), "Song", -1, "opus"), "Song [-1].opus");
    assert_eq!(device_relative_path(None, Some("Album?"), "x.mp3"), "Unknown Artist/Album_/x.mp3");
    let p = plan_track_sync("/m/Song.FLAC", "original");
    assert_eq!(p.source_format, "flac");
    assert!(!p.needs_conversion);
    assert_eq!(p.dest_ext, "flac");
    let p = plan_track_sync("/m/Song", "opus");
    assert_eq!(p.source_format, "mp3");
    assert!(p.needs_conversion);
    assert_eq!(p.dest_ext, "opus");
}

#[test]
fn file_names_are_safe() {
    assert_eq!(sanitize_filename(" AC/DC: Live. "), "AC_DC_ Live");
    assert_eq!(sanitize_filename("con"), "con_");
    assert_eq!(sanitize_filename("..."), "untitled");
    assert_eq!(sanitize_filename("a. ."), "a");
    assert_eq!(sanitize_filename("Live . . "), "Live");
    assert_eq!(sanitize_filename("CON. "), "CON_");
    assert_eq!(sanitize_filename("Song"), "Song");
    assert_eq!(sanitize_filename("a\u{1}b"), "a_b");
    assert_eq!(sanitize_export_filename("..x.."), "x");
    assert_eq!(sanitize_export_filename(" ? "), "_");
    assert_eq!(sanitize_export_filename(" .. "), "Unknown");
}

#[test]
fn extensions_and_transcoding() {
    assert_eq!(file_extension("/a/b/song.OPUS"), Some("OPUS".to_string()));
    assert_eq!(file_extension("/a/.hidden"), None);
    assert_eq!(file_extension("/a.b/noext"), None);
    assert_eq!(file_extension("song.tar.gz"), Some("gz".to_string()));
    assert_eq!(file_extension("dir/x.mp3/"), Some("mp3".to_string()));
    assert!(needs_transcode("/music/x.OPUS"));
    assert!(needs_transcode("C:\\music\\x.wv"));
    assert!(!needs_transcode("/music/x.mp3"));
    assert!(!needs_transcode("/music/opus"));
    assert!(needs_transcode("a.opus/."));
    assert!(needs_transcode("x\\.opus"));
    assert!(needs_transcode("./dir/./x.ape/./"));
    assert!(!needs_transcode("x.opus/.."));
    assert_eq!(file_extension("."), None);
    assert_eq!(file_extension("/"), None);
    assert_eq!(file_extension("a\\b.c\\d"), Some("c\\d".to_string()));
}

#[test]
fn a_recorded_sync_is_not_pending_again() {
    for (path, output) in [("/m/Song.FLAC", "Original"), ("/m/Song.FLAC", "OPUS"), ("/m/noext", "original"), ("/m/a.mp3", "mp3")] {
        let plan = plan_track_sync(path, &output.to_ascii_lowercase());
        assert!(!needs_resync(Some(plan.dest_ext.as_str()), output, path, Some(42), Some(42)));
        assert!(needs_resync(Some(plan.dest_ext.as_str()), output, path, Some(42), Some(43)));
    }
}
