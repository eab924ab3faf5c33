use glassbox::player::{
    compute_playing_idx, is_supported_extension, now_playing, DurationMap, PlayingTracker,
    MAX_DURATION_NANOS,
};

#[test]
fn supported_extensions() {
    for ext in ["ogg", "flac", "mp3", "wav"] {
        assert!(is_supported_extension(ext));
    }
    for ext in ["OGG", "png", "", "mp", "wavs", "jpg"] {
        assert!(!is_supported_extension(ext));
    }
}

#[test]
fn playing_index_counts_finished_songs() {
    assert_eq!(compute_playing_idx(Some(10), Some(10)), 0);
    assert_eq!(compute_playing_idx(Some(10), Some(3)), 7);
    assert_eq!(compute_playing_idx(Some(10), Some(0)), 10);
    assert_eq!(compute_playing_idx(None, Some(3)), -1);
    assert_eq!(compute_playing_idx(Some(10), None), -1);
    assert_eq!(compute_playing_idx(None, None), -1);
}

#[test]
fn now_playing_bounds() {
    assert_eq!(now_playing(0, 3), Some(0));
    assert_eq!(now_playing(2, 3), Some(2));
    assert_eq!(now_playing(3, 3), None);
    assert_eq!(now_playing(-1, 3), None);
    assert_eq!(now_playing(0, 0), None);
}

#[test]
fn tracker_reports_changes_only() {
    let mut t = PlayingTracker::new();
    assert_eq!(t.last_playing_idx(), -1);
    assert_eq!(t.observe(0, Some(2)), Some(Some(0)));
    assert_eq!(t.observe(0, Some(2)), None);
    assert_eq!(t.observe(1, Some(2)), Some(Some(1)));
    assert_eq!(t.observe(2, Some(2)), Some(None));
    assert_eq!(t.last_playing_idx(), 2);
    t.force_update();
    assert_eq!(t.last_playing_idx(), -1);
    assert_eq!(t.observe(2, Some(2)), Some(None));
}

#[test]
fn tracker_without_album_reports_nothing() {
    let mut t = PlayingTracker::new();
    assert_eq!(t.observe(3, None), None);
    assert_eq!(t.last_playing_idx(), 3);
}

#[test]
fn duration_map_running_totals() {
    let mut m = DurationMap::new();
    assert_eq!(m.total(), 0);
    m.push_song(3_000);
    m.push_song(0);
    m.push_song(2_500);
    assert_eq!(m.ends(), &vec![3_000u128, 3_000, 5_500]);
    assert_eq!(m.total(), 5_500);
    m.clear();
    assert!(m.ends().is_empty());
    assert_eq!(m.total(), 0);
}

#[test]
fn duration_map_longest_duration() {
    let max = std::time::Duration::MAX.as_nanos();
    assert_eq!(MAX_DURATION_NANOS, max);
    let mut m = DurationMap::new();
    m.push_song(max - 1);
    m.push_song(1);
    assert_eq!(m.total(), max);
}
