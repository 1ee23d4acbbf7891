use playlist_core::models::{PlayerState, RepeatMode};
use playlist_core::player::{track_length, FadeStart, FadeTick, PlayerCore, TrackEnd};

fn playing(ids: Vec<i64>, start: usize, now: u64) -> PlayerCore {
    let mut p = PlayerCore::new(false, 0);
    p.load_queue(ids, start);
    p.start_track(200_000, None, now);
    p
}

#[test]
fn new_player_is_stopped_and_caps_crossfade() {
    let p = PlayerCore::new(true, 20_000);
    assert_eq!(p.state, PlayerState::Stopped);
    assert_eq!(p.crossfade_ms, 12_000);
    assert!(p.normalize);
    assert_eq!(p.current_track, None);
    assert_eq!(p.queue_length, 0);
}

#[test]
fn start_track_reports_current_and_length() {
    let p = playing(vec![10, 20, 30], 1, 1_000);
    assert_eq!(p.state, PlayerState::Playing);
    assert_eq!(p.current_track, Some(20));
    assert_eq!(p.duration_ms, 200_000);
    assert_eq!(p.queue_length, 3);
    assert_eq!(p.queue_position, Some(1));
    assert_eq!(p.clock(4_000), 3_000);
}

#[test]
fn track_length_falls_back_to_listed_length() {
    assert_eq!(track_length(5_000, Some(9_000)), 5_000);
    assert_eq!(track_length(0, Some(9_000)), 9_000);
    assert_eq!(track_length(0, None), 0);
}

#[test]
fn pause_freezes_and_resume_continues() {
    let mut p = playing(vec![1, 2], 0, 0);
    p.pause(10_000);
    assert_eq!(p.state, PlayerState::Paused);
    assert_eq!(p.position_ms, 10_000);
    assert_eq!(p.clock(50_000), 10_000);
    assert!(p.resume(false, 60_000));
    assert_eq!(p.clock(61_500), 11_500);
    assert!(!p.resume(true, 70_000));
}

#[test]
fn seek_while_paused_stays_put() {
    let mut p = playing(vec![1], 0, 0);
    p.pause(1_000);
    p.seek(30_000, 2_000);
    assert_eq!(p.clock(9_000), 30_000);
    assert_eq!(p.position_ms, 30_000);
}

#[test]
fn next_with_repeat_modes() {
    let mut p = playing(vec![1, 2], 1, 0);
    assert!(!p.advance());
    p.queue_finished();
    assert_eq!(p.state, PlayerState::Stopped);

    let mut p = playing(vec![1, 2], 1, 0);
    p.set_repeat(RepeatMode::All);
    assert!(p.advance());
    assert_eq!(p.current_id(), Some(1));

    let mut p = playing(vec![1, 2], 0, 0);
    p.set_repeat(RepeatMode::One);
    assert!(p.advance());
    assert_eq!(p.current_id(), Some(1));
}

#[test]
fn stop_and_clear() {
    let mut p = playing(vec![1, 2, 3], 0, 0);
    p.stop();
    assert_eq!(p.queue_length, 0);
    assert_eq!(p.current_track, None);
    assert_eq!(p.track_ms, 0);
    assert!(!p.is_playing);

    let mut p = playing(vec![1, 2, 3], 0, 0);
    p.clear_queue();
    assert_eq!(p.queue.len(), 0);
    assert_eq!(p.track_ms, 200_000);
    assert_eq!(p.state, PlayerState::Stopped);
}

#[test]
fn preload_and_crossfade_window() {
    let mut p = PlayerCore::new(false, 4_000);
    p.load_queue(vec![7, 8], 0);
    p.start_track(60_000, None, 0);
    // 10 s left: lead is max(5000, 4000 + 3000) = 7000
    assert!(!p.wants_preload(50_000));
    assert!(p.wants_preload(53_500));
    assert_eq!(p.preload_target(), Some(8));
    p.remember_preload(8);
    assert!(!p.wants_preload(53_500));
    assert!(matches!(p.crossfade_check(50_000), FadeStart::Hold));
    assert!(matches!(p.crossfade_check(57_000), FadeStart::Begin(3_000)));
    p.begin_crossfade(3_000, 90_000, None, 57_000);
    assert_eq!(p.current_track, Some(8));
    assert_eq!(p.preloaded, None);
    assert_eq!(p.queue_position, Some(1));
    assert!(matches!(p.fade_tick(false, 58_000), FadeTick::Ramp { elapsed_ms: 1_000, duration_ms: 3_000 }));
    assert!(matches!(p.fade_tick(false, 60_000), FadeTick::Done));
    assert!(matches!(p.fade_tick(false, 61_000), FadeTick::Idle));
}

#[test]
fn stale_preload_is_dropped() {
    let mut p = PlayerCore::new(false, 4_000);
    p.load_queue(vec![7, 8], 0);
    p.start_track(60_000, None, 0);
    p.remember_preload(99);
    assert!(matches!(p.crossfade_check(57_000), FadeStart::Stale));
    assert_eq!(p.preloaded, None);
}

#[test]
fn track_end_outcomes() {
    let mut p = playing(vec![1, 2], 0, 0);
    p.remember_preload(2);
    assert!(matches!(p.on_track_end(), TrackEnd::Gapless(2)));
    assert_eq!(p.current_id(), Some(2));

    let mut p = playing(vec![1, 2], 0, 0);
    assert!(matches!(p.on_track_end(), TrackEnd::Reload));

    let mut p = playing(vec![1, 2], 1, 0);
    assert!(matches!(p.on_track_end(), TrackEnd::Finished));
    assert!(!p.is_playing);
    assert_eq!(p.track_ms, 0);
    p.mark_stopped();
    assert_eq!(p.state, PlayerState::Stopped);
}

#[test]
fn queue_edits_update_reported_fields() {
    let mut p = playing(vec![1, 2, 3], 0, 0);
    p.enqueue(4);
    assert_eq!(p.queue_length, 4);
    p.enqueue_next(5);
    assert_eq!(p.queue_length, 5);
    assert!(p.advance());
    assert_eq!(p.current_id(), Some(5));
    p.remove_entry(0);
    assert_eq!(p.queue_position, Some(0));
    assert!(p.jump_to(2));
    assert_eq!(p.current_id(), Some(3));
    assert!(!p.jump_to(40));
}

#[test]
fn device_switch_resumes_where_it_was() {
    let mut p = playing(vec![1], 0, 0);
    p.after_device_switch(Some(0), 12_000, true, 20_000);
    assert_eq!(p.clock(21_000), 13_000);
    assert_eq!(p.track_ms, 200_000);
    let mut q = playing(vec![1], 0, 0);
    q.after_device_switch(None, 12_000, true, 20_000);
    assert_eq!(q.state, PlayerState::Stopped);
    assert!(!q.is_playing);
}

#[test]
fn turning_crossfade_off_ends_a_running_fade() {
    let mut p = PlayerCore::new(false, 4_000);
    p.load_queue(vec![7, 8], 0);
    p.start_track(60_000, None, 0);
    p.remember_preload(8);
    p.begin_crossfade(3_000, 90_000, None, 57_000);
    assert!(!p.set_crossfade(2_000));
    assert!(p.fade.is_some());
    assert!(p.set_crossfade(0));
    assert!(p.fade.is_none());
}
