use snapshort::timeline::{ClipPlacement, ClipSource, TimelineClips};
use snapshort::value_objects::{DomainError, Frame, FrameRange};

fn placed(id: u128, track: usize, start: i64, duration: i64) -> ClipPlacement {
    ClipPlacement { id, track, timeline_start: start, effective_duration: duration }
}

// A clip of source frames 0..100 placed at frame 50 on track 0, at normal speed.
fn test_clip() -> ClipPlacement {
    placed(1, 0, 50, 100)
}

#[test]
fn test_timeline_range() {
    let clip = test_clip();
    let range = clip.timeline_range();
    assert_eq!(range.start.0, 50);
    assert_eq!(range.end.0, 150);
}

#[test]
fn test_clip_overlap() {
    let clip1 = test_clip();
    let mut clip2 = placed(2, 0, 50, 100);
    clip2.timeline_start = 100;
    assert!(clip1.overlaps(&clip2));
    clip2.timeline_start = 150;
    assert!(!clip1.overlaps(&clip2));
}

#[test]
fn test_split() {
    let mut clip = ClipSource {
        id: 1,
        timeline_start: Frame(50),
        source_range: FrameRange::new_unchecked(0, 100),
    };
    let right = clip.split_at(Frame(100), 100).unwrap();
    assert_eq!(clip.source_range.duration(), 50);
    assert_eq!(right.source_range.duration(), 50);
    assert_eq!(right.timeline_start.0, 100);
    assert_ne!(right.id, clip.id);
}

fn test_timeline_with_clips() -> TimelineClips {
    let timeline = TimelineClips::new();
    let clip1 = placed(1, 0, 0, 100);
    let clip2 = placed(2, 0, 100, 50);
    timeline.insert_clip(clip1).unwrap().insert_clip(clip2).unwrap()
}

#[test]
fn test_timeline_duration() {
    let timeline = test_timeline_with_clips();
    assert_eq!(timeline.duration().0, 150);
}

#[test]
fn test_overlap_detection() {
    let timeline = TimelineClips::new();
    let clip1 = placed(1, 0, 0, 100);
    let timeline = timeline.insert_clip(clip1).unwrap();
    let overlapping = placed(2, 0, 50, 50);
    let result = timeline.insert_clip(overlapping);
    assert!(matches!(result, Err(DomainError::ClipOverlap { .. })));
}

#[test]
fn test_immutability() {
    let timeline1 = TimelineClips::new();
    let clip = placed(1, 0, 0, 100);
    let timeline2 = timeline1.clone().insert_clip(clip).unwrap();
    assert_eq!(timeline1.clips().len(), 0);
    assert_eq!(timeline2.clips().len(), 1);
}

#[test]
fn insertion_checks_track_and_overlap() {
    let t = TimelineClips::new();
    assert_eq!(t.track_count(), 2);
    match t.clone().insert_clip(placed(1, 2, 0, 10)) {
        Err(e) => assert_eq!(e, DomainError::TrackOutOfBounds { index: 2, max: 1 }),
        Ok(_) => panic!("track 2 does not exist"),
    }
    let t = t.add_track().insert_clip(placed(1, 2, 0, 10)).unwrap();
    // Another track: no overlap.
    let t = t.insert_clip(placed(2, 1, 0, 10)).unwrap();
    // Same identifier: not checked against itself.
    let t = t.insert_clip(placed(1, 2, 5, 10)).unwrap();
    match t.insert_clip(placed(3, 2, 9, 1)) {
        Err(e) => assert_eq!(e, DomainError::ClipOverlap { frame: 9, track: 2 }),
        Ok(_) => panic!("frame 9 of track 2 is taken"),
    }
}

#[test]
fn removal_and_lookup() {
    let t = test_timeline_with_clips();
    assert_eq!(t.get_clip(2), Some(placed(2, 0, 100, 50)));
    assert_eq!(t.get_clip(9), None);
    match t.clone().remove_clip(9) {
        Err(e) => assert_eq!(e, DomainError::NotFound { entity_type: "Clip", id: 9 }),
        Ok(_) => panic!("clip 9 is not there"),
    }
    let t = t.remove_clip(1).unwrap();
    assert_eq!(t.clips(), &vec![placed(2, 0, 100, 50)]);
    assert_eq!(t.duration().0, 150);
    assert_eq!(TimelineClips::new().duration().0, 0);
}

#[test]
fn ripple_delete_closes_the_gap() {
    let t = TimelineClips::new()
        .insert_clip(placed(1, 0, 0, 100))
        .unwrap()
        .insert_clip(placed(2, 0, 100, 50))
        .unwrap()
        .insert_clip(placed(3, 0, 200, 10))
        .unwrap()
        .insert_clip(placed(4, 1, 120, 10))
        .unwrap();
    let r = t.clone().ripple_delete(2).unwrap();
    assert_eq!(
        r.clips(),
        &vec![placed(1, 0, 0, 100), placed(3, 0, 150, 10), placed(4, 1, 120, 10)]
    );
    match t.ripple_delete(7) {
        Err(e) => assert_eq!(e, DomainError::NotFound { entity_type: "Clip", id: 7 }),
        Ok(_) => panic!("clip 7 is not there"),
    }
}

#[test]
fn update_applies_the_change_or_refuses() {
    let t = test_timeline_with_clips();
    let moved = t
        .clone()
        .update_clip(2, |c: ClipPlacement| Ok(ClipPlacement { timeline_start: 120, ..c }))
        .unwrap();
    assert_eq!(moved.get_clip(2), Some(placed(2, 0, 120, 50)));
    match t.clone().update_clip(2, |c: ClipPlacement| Ok(ClipPlacement { timeline_start: 90, ..c })) {
        Err(e) => assert_eq!(e, DomainError::ClipOverlap { frame: 90, track: 0 }),
        Ok(_) => panic!("frames 90..100 are taken"),
    }
    match t.clone().update_clip(2, |_c: ClipPlacement| {
        Err(DomainError::InvalidOperation("no".to_string()))
    }) {
        Err(e) => assert_eq!(e, DomainError::InvalidOperation("no".to_string())),
        Ok(_) => panic!("the update refused"),
    }
    match t.update_clip(5, |c: ClipPlacement| Ok(c)) {
        Err(e) => assert_eq!(e, DomainError::NotFound { entity_type: "Clip", id: 5 }),
        Ok(_) => panic!("clip 5 is not there"),
    }
}

#[test]
fn queries_by_track_and_frame() {
    let t = TimelineClips::new()
        .insert_clip(placed(1, 0, 0, 100))
        .unwrap()
        .insert_clip(placed(2, 1, 50, 100))
        .unwrap()
        .insert_clip(placed(3, 0, 100, 10))
        .unwrap();
    assert_eq!(t.clips_on_track(0), vec![placed(1, 0, 0, 100), placed(3, 0, 100, 10)]);
    assert_eq!(t.clips_at_frame(Frame(99)), vec![placed(1, 0, 0, 100), placed(2, 1, 50, 100)]);
    assert_eq!(t.clips_at_frame(Frame(100)), vec![placed(2, 1, 50, 100), placed(3, 0, 100, 10)]);
    assert!(t.clips_at_frame(Frame(-1)).is_empty());
}

#[test]
fn trims_move_edges_and_refuse_bad_ones() {
    let mut c = ClipSource {
        id: 1,
        timeline_start: Frame(50),
        source_range: FrameRange::new_unchecked(0, 100),
    };
    c.trim_start(Frame(60)).unwrap();
    assert_eq!(c.timeline_start, Frame(60));
    assert_eq!(c.source_range, FrameRange::new_unchecked(10, 100));
    match c.trim_start(Frame(60)) {
        Err(DomainError::InvalidOperation(m)) => {
            assert_eq!(m, "Cannot extend clip past original start")
        }
        other => panic!("unexpected {other:?}"),
    }
    match c.trim_start(Frame(200)) {
        Err(e) => assert_eq!(e, DomainError::InvalidFrameRange { start: 150, end: 100 }),
        Ok(()) => panic!("the source has no frame 150"),
    }
    assert_eq!(c.timeline_start, Frame(60));
    c.trim_end(Frame(80)).unwrap();
    assert_eq!(c.source_range, FrameRange::new_unchecked(10, 30));
    match c.trim_end(Frame(60)) {
        Err(DomainError::InvalidOperation(m)) => assert_eq!(m, "Clip duration must be positive"),
        other => panic!("unexpected {other:?}"),
    }
}

#[test]
fn split_outside_the_clip_is_refused() {
    let mut c = ClipSource {
        id: 1,
        timeline_start: Frame(50),
        source_range: FrameRange::new_unchecked(0, 100),
    };
    match c.split_at(Frame(150), 100) {
        Err(DomainError::InvalidOperation(m)) => assert_eq!(
            m,
            format!(
                "Split frame {} not within clip range {:?}",
                150,
                FrameRange::new_unchecked(50, 150)
            )
        ),
        other => panic!("unexpected {other:?}"),
    }
    // A slowed-down clip lasts longer than its source: past the source's end
    // there is nothing left to split off.
    match c.split_at(Frame(170), 200) {
        Err(e) => assert_eq!(e, DomainError::InvalidFrameRange { start: 120, end: 100 }),
        Ok(_) => panic!("the source has no frame 120"),
    }
    assert_eq!(c.source_range, FrameRange::new_unchecked(0, 100));
}

#[test]
fn removing_a_fresh_insert_gives_the_clips_back() {
    let t = test_timeline_with_clips();
    let before = t.clips().clone();
    let t = t.insert_clip(placed(7, 1, 0, 30)).unwrap();
    assert_eq!(t.clips().len(), 3);
    let t = t.remove_clip(7).unwrap();
    assert_eq!(t.clips(), &before);
    assert_eq!(t.track_count(), 2);
}
