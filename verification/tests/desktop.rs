use snapshort::desktop::{
    asset_search, filename, format_ruler_time, snap_candidates, format_us, param_label, project_key, timecode_from_us,
    timeline_duration_us, SnapResult, TimelineMarker, DIR_PROJECTS, FILE_AUTOSAVE, FILE_RECENT,
    MIN_TIMELINE_DURATION_US, TIMELINE_PADDING_US,
};
use snapshort::timeline::{ClipPlacement, TimelineClips};

#[test]
fn ruler_time_formatting() {
    assert_eq!(format_ruler_time(0), "0.0s");
    assert_eq!(format_ruler_time(2_500_000), "2.5s");
    assert_eq!(format_ruler_time(65_000_000), "1:05.0");
}

fn reference_ruler(us: i64) -> String {
    let ms = us.max(0) / 1000;
    let total_sec = ms / 1000;
    let min = total_sec / 60;
    let sec = total_sec % 60;
    let tenths = (ms % 1000) / 100;
    if min > 0 {
        format!("{min}:{sec:02}.{tenths}")
    } else {
        format!("{sec}.{tenths}s")
    }
}

fn reference_us(us: i64) -> String {
    let abs = us.unsigned_abs();
    let millis = abs / 1000;
    let secs = millis / 1000;
    let mins = secs / 60;
    let hours = mins / 60;
    if hours > 0 {
        format!("{:02}:{:02}:{:02}.{:03}", hours, mins % 60, secs % 60, millis % 1000)
    } else if mins > 0 {
        format!("{:02}:{:02}.{:03}", mins, secs % 60, millis % 1000)
    } else {
        format!("{}.{:03}s", secs, millis % 1000)
    }
}

fn reference_clock(us: i64) -> String {
    let total_secs = us.max(0) / 1_000_000;
    let secs = total_secs % 60;
    let mins = (total_secs / 60) % 60;
    let hours = total_secs / 3600;
    if hours > 0 {
        format!("{hours:02}:{mins:02}:{secs:02}")
    } else {
        format!("{mins:02}:{secs:02}")
    }
}

fn sample_times() -> Vec<i64> {
    let mut v = vec![
        0,
        1,
        -1,
        999,
        1_000,
        99_999,
        100_000,
        59_999_999,
        60_000_000,
        65_000_000,
        3_599_999_999,
        3_600_000_000,
        3_723_004_000,
        -61_000_000,
        i64::MAX,
        i64::MIN,
        i64::MIN + 1,
    ];
    let mut x: i64 = 7;
    for _ in 0..200 {
        x = x.wrapping_mul(6364136223846793005).wrapping_add(1442695040888963407);
        v.push(x >> (x.rem_euclid(50) as u32));
    }
    v
}

#[test]
fn time_labels_match_reference_formatting() {
    for us in sample_times() {
        assert_eq!(format_ruler_time(us), reference_ruler(us), "ruler {us}");
        assert_eq!(format_us(us), reference_us(us), "inspector {us}");
        assert_eq!(timecode_from_us(us), reference_clock(us), "clock {us}");
    }
}

#[test]
fn time_label_examples() {
    assert_eq!(format_us(0), "0.000s");
    assert_eq!(format_us(1_234_567), "1.234s");
    assert_eq!(format_us(-61_000_000), "01:01.000");
    assert_eq!(format_us(3_723_004_000), "01:02:03.004");
    assert_eq!(timecode_from_us(-5), "00:00");
    assert_eq!(timecode_from_us(59_999_999), "00:59");
    assert_eq!(timecode_from_us(3_600_000_000), "01:00:00");
    assert_eq!(format_ruler_time(-3), "0.0s");
    assert_eq!(format_ruler_time(600_099_999), "10:00.0");
}

#[test]
fn parameter_labels() {
    assert_eq!(param_label("opacity"), "Opacity");
    assert_eq!(param_label("volume"), "Volume");
    assert_eq!(param_label("speed"), "Speed");
    assert_eq!(param_label("transform.scale"), "Scale");
    assert_eq!(param_label("transform.translate_x"), "Pan X");
    assert_eq!(param_label("transform.translate_y"), "Pan Y");
    assert_eq!(param_label("transform.rotate"), "Rotate");
    assert_eq!(param_label("text.position_x"), "Position X");
    assert_eq!(param_label("text.position_y"), "Position Y");
    assert_eq!(param_label("text.font_size"), "Font Size");
    assert_eq!(param_label("mask.feather"), "Feather");
    assert_eq!(param_label("mask.scale"), "Mask Scale");
    assert_eq!(param_label("mask.translate_x"), "Mask Pan X");
    assert_eq!(param_label("mask.translate_y"), "Mask Pan Y");
    assert_eq!(param_label("mask.rotate"), "Mask Rotate");
    assert_eq!(param_label("custom.param"), "custom.param");
    assert_eq!(param_label(""), "");
}

#[test]
fn file_names_of_media_paths() {
    for path in [
        "/a/b/c.mp4",
        "C:\\media\\clip.mov",
        "mixed/dir\\file.wav",
        "plain.png",
        "dir/",
        "",
        "/",
    ] {
        let expected = path.rsplit(['/', '\\']).next().unwrap_or(path).to_string();
        assert_eq!(filename(path), expected, "{path}");
    }
    assert_eq!(filename("/a/b/c.mp4"), "c.mp4");
    assert_eq!(filename("dir/"), "");
}

#[test]
fn web_storage_keys() {
    assert_eq!(project_key("demo"), "projects/demo");
    assert_eq!(project_key(""), "projects/");
    assert_eq!(DIR_PROJECTS, "projects");
    assert_eq!(FILE_AUTOSAVE, "autosave.json");
    assert_eq!(FILE_RECENT, "recent.json");
}

#[test]
fn laid_out_timeline_length() {
    assert_eq!(timeline_duration_us(None), 35_000_000);
    assert_eq!(timeline_duration_us(Some(10)), 35_000_000);
    assert_eq!(timeline_duration_us(Some(100_000_000)), 105_000_000);
    assert_eq!(timeline_duration_us(Some(i64::MAX - 1)), i64::MAX);
    assert_eq!(MIN_TIMELINE_DURATION_US + TIMELINE_PADDING_US, 35_000_000);
}

#[test]
fn marker_and_snap_values() {
    let m = TimelineMarker { timestamp_us: 5, label: "intro".to_string() };
    assert_eq!(m.clone().label, "intro");
    let s = SnapResult { value_us: 0, guide_us: Some(-3) };
    assert_eq!(s.guide_us, Some(-3));
}

#[test]
fn snap_candidates_list_zero_playhead_markers_then_edges_by_track() {
    let place = |id: u128, track: usize, start: i64, duration: i64| ClipPlacement {
        id,
        track,
        timeline_start: start,
        effective_duration: duration,
    };
    let t = TimelineClips::new()
        .insert_clip(place(1, 1, 0, 500))
        .unwrap()
        .insert_clip(place(2, 0, 1_000, 2_000))
        .unwrap()
        .insert_clip(place(3, 0, 4_000, 1_000))
        .unwrap()
        .insert_clip(place(4, 1, 600, 100))
        .unwrap();
    assert_eq!(
        snap_candidates(&t, 3, 250, &vec![7_000, 9_000]),
        vec![0, 250, 7_000, 9_000, 1_000, 3_000, 0, 500, 600, 700]
    );
    assert_eq!(snap_candidates(&TimelineClips::new(), 1, 42, &Vec::new()), vec![0, 42]);
}

#[test]
fn asset_search_ignores_case_and_shows_all_for_empty_query() {
    let names = vec!["Intro.MP4".to_string(), "outro.mp4".to_string(), "Music.wav".to_string()];
    assert_eq!(asset_search(&names, "mp4"), vec![0, 1]);
    assert_eq!(asset_search(&names, "MUSIC"), vec![2]);
    assert_eq!(asset_search(&names, ""), vec![0, 1, 2]);
    assert!(asset_search(&names, "xyz").is_empty());
}
