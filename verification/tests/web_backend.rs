use snapshort::asset::AssetType;
use snapshort::web_backend::{
    download_name, kind_by_extension, media_kind_for_name, PlaybackClock, PLAYBACK_STEP_US,
};

#[test]
fn playback_step_is_one_frame_at_24_fps() {
    assert_eq!(PLAYBACK_STEP_US, (1_000_000.0 / 24.0) as i64);
}

#[test]
fn clock_needs_a_project_and_advances_by_whole_frames() {
    let mut clock = PlaybackClock::new();
    assert_eq!(clock.play(false), Err("No project open".to_string()));
    assert!(!clock.is_playing());
    let t = clock.advance(1_000_000, 10_000_000, true);
    assert!(!t.advanced && !t.stopped);
    assert_eq!(clock.playhead_us(), 0);

    assert_eq!(clock.play(true), Ok(()));
    let t = clock.advance(100_000, 10_000_000, true);
    assert!(t.advanced && !t.stopped);
    assert_eq!(clock.playhead_us(), 2 * PLAYBACK_STEP_US);
    let t = clock.advance(-50, 10_000_000, true);
    assert!(!t.advanced);
    // The 16_668 microseconds left over count towards the next frame.
    let t = clock.advance(25_000, 10_000_000, true);
    assert!(t.advanced);
    assert_eq!(clock.playhead_us(), 3 * PLAYBACK_STEP_US);
}

#[test]
fn clock_stops_at_the_end_of_the_timeline() {
    let mut clock = PlaybackClock::new();
    clock.play(true).unwrap();
    let t = clock.advance(5_000_000, 1_000_000, true);
    assert!(t.advanced && t.stopped);
    assert_eq!(clock.playhead_us(), 1_000_000);
    assert!(!clock.is_playing());
    // An empty timeline (end 0) never stops the clock.
    clock.play(true).unwrap();
    let t = clock.advance(1_000_000, 0, true);
    assert!(!t.stopped);
    assert!(clock.is_playing());
}

#[test]
fn pause_seek_and_stop() {
    let mut clock = PlaybackClock::new();
    clock.play(true).unwrap();
    clock.advance(41_666, 0, true);
    clock.pause();
    assert!(!clock.is_playing());
    assert_eq!(clock.playhead_us(), PLAYBACK_STEP_US);
    clock.advance(1_000_000, 0, true);
    assert_eq!(clock.playhead_us(), PLAYBACK_STEP_US);
    assert_eq!(clock.seek(-5), 0);
    assert_eq!(clock.seek(7_000), 7_000);
    assert_eq!(clock.playhead_us(), 7_000);
    clock.stop();
    assert_eq!(clock.playhead_us(), 0);
    // Without a project the gathered time waits.
    clock.play(true).unwrap();
    let t = clock.advance(100_000, 0, false);
    assert!(!t.advanced);
    assert_eq!(clock.playhead_us(), 0);
    let t = clock.advance(0, 0, true);
    assert!(t.advanced);
    assert_eq!(clock.playhead_us(), 2 * PLAYBACK_STEP_US);
}

#[test]
fn uploaded_media_kinds() {
    assert_eq!(media_kind_for_name("Clip.MP4"), Ok(AssetType::Video));
    assert_eq!(media_kind_for_name("a.webm"), Ok(AssetType::Video));
    assert_eq!(media_kind_for_name("song.FLAC"), Ok(AssetType::Audio));
    assert_eq!(media_kind_for_name("voice.m4a"), Ok(AssetType::Audio));
    assert_eq!(media_kind_for_name("pic.jpeg"), Ok(AssetType::Image));
    assert_eq!(media_kind_for_name("x.mp4.png"), Ok(AssetType::Image));
    assert_eq!(
        media_kind_for_name("Doc.PDF"),
        Err("Unsupported file type: Doc.PDF".to_string())
    );
}

#[test]
fn project_download_names() {
    assert_eq!(download_name(Some("Demo")), "Demo.snap");
    assert_eq!(download_name(None), "project.snap");
}

#[test]
fn kinds_by_lower_case_extension() {
    assert_eq!(kind_by_extension("a.mp4"), Some(AssetType::Video));
    assert_eq!(kind_by_extension("a.MP4"), None);
    assert_eq!(kind_by_extension("a.aac"), Some(AssetType::Audio));
    assert_eq!(kind_by_extension("a.bmp"), Some(AssetType::Image));
    assert_eq!(kind_by_extension("a.txt"), None);
}
