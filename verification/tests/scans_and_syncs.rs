use playlist_core::device_sync::{
    removes_superseded, sync_after_track, sync_before_track, sync_progress, sync_result,
    write_method, SyncStep, WriteMethod,
};
use playlist_core::enrich::{metadata_scan, LookupEnd};
use playlist_core::library::escape_like;
use playlist_core::loudness::GainScanControl;
use playlist_core::m3u::m3u_entry_candidates;

#[test]
fn gain_scan_runs_once_and_stops_on_request() {
    let mut c = GainScanControl::new();
    c.cancel();
    assert!(c.start().is_ok());
    assert!(c.goes_on());
    assert_eq!(c.start(), Err("Loudness scan already running".to_string()));
    c.cancel();
    assert!(!c.goes_on());
    c.finish();
    assert!(c.start().is_ok());
    assert!(c.goes_on());
}

#[test]
fn sync_counts_every_track() {
    let mut p = sync_progress(3, 8, 4);
    assert!(matches!(sync_before_track(&mut p, false, true, true), SyncStep::Write));
    sync_after_track(&mut p, true);
    assert!(matches!(sync_before_track(&mut p, false, true, false), SyncStep::SourceMissing));
    assert!(matches!(sync_before_track(&mut p, false, true, true), SyncStep::Write));
    sync_after_track(&mut p, false);
    match sync_before_track(&mut p, true, true, true) {
        SyncStep::Cancelled(r) => {
            assert_eq!((r.device_id, r.playlist_id, r.synced, r.skipped, r.failed), (3, 8, 1, 1, 2));
        }
        _ => panic!("expected a cancel"),
    }
    match sync_before_track(&mut p, false, false, true) {
        SyncStep::Disconnected(e) => assert_eq!(e, "Device disconnected during sync"),
        _ => panic!("expected a disconnect"),
    }
    sync_after_track(&mut p, true);
    let r = sync_result(&p);
    assert_eq!((r.synced, r.skipped, r.failed), (2, 0, 2));
    assert!(matches!(write_method(true, true), WriteMethod::Reuse));
    assert!(matches!(write_method(false, true), WriteMethod::Transcode));
    assert!(matches!(write_method(false, false), WriteMethod::Copy));
    assert!(removes_superseded(&Some("A/old.opus".to_string()), "A/new.flac", false));
    assert!(!removes_superseded(&Some("A/old.opus".to_string()), "A/new.flac", true));
    assert!(!removes_superseded(&Some("A/x.mp3".to_string()), "A/x.mp3", false));
    assert!(!removes_superseded(&None, "A/x.mp3", false));
}

#[test]
fn metadata_scan_counts_and_cancels() {
    let mut s = metadata_scan(5);
    assert!(s.goes_on(false));
    s.record(LookupEnd::MusicBrainz);
    assert!(s.goes_on(false));
    s.record(LookupEnd::Lastfm { has_genre: false, has_description: true });
    assert!(s.goes_on(false));
    s.record(LookupEnd::Lastfm { has_genre: false, has_description: false });
    assert!(s.goes_on(false));
    s.record(LookupEnd::NoAnswer);
    assert!(s.goes_on(false));
    s.record(LookupEnd::Cancelled);
    assert!(!s.goes_on(false));
    let r = s.result(42);
    assert_eq!((r.total_tracks, r.enriched, r.failed, r.completeness_avg), (5, 2, 2, 42));
    let mut t = metadata_scan(2);
    assert!(!t.goes_on(true));
    assert!(!t.goes_on(false));
    let mut u = metadata_scan(1);
    assert!(u.goes_on(false));
    u.record(LookupEnd::MusicBrainz);
    assert!(!u.goes_on(false));
}

#[test]
fn m3u_entries_resolve_against_the_playlist_folder() {
    assert_eq!(m3u_entry_candidates("/music/lists/a.m3u", "song.mp3"), vec!["song.mp3", "/music/lists/song.mp3"]);
    assert_eq!(m3u_entry_candidates("/music/lists/a.m3u", "../x/s.mp3"), vec!["../x/s.mp3", "/music/lists/../x/s.mp3"]);
    assert_eq!(m3u_entry_candidates("/music/a.m3u", "/abs/s.mp3"), vec!["/abs/s.mp3"]);
    assert_eq!(m3u_entry_candidates("/a.m3u", "s.mp3"), vec!["s.mp3", "/s.mp3"]);
    assert_eq!(m3u_entry_candidates("a.m3u", "s.mp3"), vec!["s.mp3"]);
}

#[test]
fn like_escapes_read_back() {
    assert_eq!(escape_like(r"50%_off\now"), r"50\%\_off\\now");
    assert_eq!(escape_like("plain"), "plain");
    assert_eq!(escape_like(""), "");
}
