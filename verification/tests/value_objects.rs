use snapshort::value_objects::{DomainError, Fps, Frame, FrameRange, Resolution, Timecode};

#[test]
fn test_frame_range() {
    let range = FrameRange::new(Frame(0), Frame(100)).unwrap();
    assert_eq!(range.duration(), 100);
    assert!(range.contains(Frame(50)));
    assert!(!range.contains(Frame(100)));
}

#[test]
fn test_frame_range_overlap() {
    let a = FrameRange::new(Frame(0), Frame(100)).unwrap();
    let b = FrameRange::new(Frame(50), Frame(150)).unwrap();
    let c = FrameRange::new(Frame(100), Frame(200)).unwrap();
    assert!(a.overlaps(&b));
    assert!(!a.overlaps(&c));
}

#[test]
fn test_timecode() {
    let tc = Timecode::from_frame(Frame(86400), Fps::F24());
    assert_eq!(tc.hours, 1);
    assert_eq!(tc.minutes, 0);
    assert_eq!(tc.seconds, 0);
    assert_eq!(tc.frames, 0);
}

#[test]
fn test_resolution_fit() {
    let uhd = Resolution::UHD();
    let fitted = uhd.fit_within(1920, 1080);
    assert_eq!(fitted, Resolution::HD());
}

#[test]
fn frame_range_rejects_reversed_bounds() {
    let err = FrameRange::new(Frame(10), Frame(5)).unwrap_err();
    assert_eq!(err, DomainError::InvalidFrameRange { start: 10, end: 5 });
    let r = FrameRange::new(Frame(5), Frame(5)).unwrap();
    assert_eq!(r.duration(), 0);
}

#[test]
fn frame_range_trims_and_offsets() {
    let r = FrameRange::new_unchecked(10, 40);
    assert_eq!(r.trim_start(Frame(20)).unwrap(), FrameRange::new_unchecked(20, 40));
    assert!(r.trim_start(Frame(41)).is_err());
    assert_eq!(r.trim_end(Frame(30)).unwrap(), FrameRange::new_unchecked(10, 30));
    assert_eq!(
        r.trim_end(Frame(9)).unwrap_err(),
        DomainError::InvalidFrameRange { start: 10, end: 9 }
    );
    let shifted = r.offset(-15);
    assert_eq!(shifted, FrameRange::new_unchecked(-5, 25));
    assert_eq!(shifted.duration(), r.duration());
    assert_eq!(shifted.offset(15), r);
}

#[test]
fn overlap_is_symmetric_on_examples() {
    let a = FrameRange::new_unchecked(0, 10);
    let b = FrameRange::new_unchecked(9, 20);
    let c = FrameRange::new_unchecked(10, 20);
    assert_eq!(a.overlaps(&b), b.overlaps(&a));
    assert_eq!(a.overlaps(&c), c.overlaps(&a));
    assert!(a.overlaps(&b));
    assert!(!c.overlaps(&a));
}

#[test]
fn fps_new_raises_zero_denominator() {
    let f = Fps::new(30, 0);
    assert_eq!(f, Fps { num: 30, den: 1 });
    assert_eq!(Fps::F23976().rounded(), 24);
    assert_eq!(Fps::new(30000, 1001).rounded(), 30);
    assert_eq!(Fps::new(5, 2).rounded(), 3);
}

#[test]
fn timecode_smpte_text_and_negative_frames() {
    let tc = Frame(-(24 * 3600 + 24 * 61 + 5)).to_timecode(Fps::F24());
    assert!(tc.negative);
    assert_eq!(tc.to_string_smpte(), "-01:01:01:05");
    let tc = Timecode::from_frame(Frame(29), Fps::F30());
    assert_eq!(tc.to_string_smpte(), "00:00:00:29");
    let tc = Timecode::from_frame(Frame(i64::MIN), Fps::F60());
    let total: u128 = ((tc.hours as u128 * 60 + tc.minutes as u128) * 60 + tc.seconds as u128)
        * 60
        + tc.frames as u128;
    assert_eq!(total, 1u128 << 63);
    let tc = Timecode::from_frame(Frame(100 * 3600 * 24), Fps::F24());
    assert_eq!(tc.to_string_smpte(), "100:00:00:00");
}

#[test]
fn resolution_fit_matches_float_scaling() {
    let cases: [(u32, u32, u32, u32); 11] = [
        (10, 45, 7, 32),
        (11, 22, 8, 15),
        (6, 3, 1, 1),
        (1920, 1080, 1280, 720),
        (1080, 1920, 1280, 720),
        (640, 480, 1920, 1080),
        (333, 777, 100, 100),
        (0, 480, 100, 100),
        (480, 0, 100, 100),
        (0, 0, 100, 100),
        (4096, 2160, 1920, 1080),
    ];
    for (w, h, mw, mh) in cases {
        let got = Resolution::new(w, h).fit_within(mw, mh);
        assert_eq!((got.width, got.height), float_fit(w, h, mw, mh), "fit {w}x{h} into {mw}x{mh}");
    }
    assert_eq!(Resolution::new(1920, 1080).pixel_count(), 2_073_600);
    assert_eq!(
        Resolution::new(u32::MAX, u32::MAX).pixel_count(),
        (u32::MAX as u64) * (u32::MAX as u64)
    );
}

fn float_fit(w: u32, h: u32, mw: u32, mh: u32) -> (u32, u32) {
    let scale = (mw as f64 / w as f64).min(mh as f64 / h as f64);
    (
        (w as f64 * scale).round() as u32,
        (h as f64 * scale).round() as u32,
    )
}

#[test]
fn resolution_fit_agrees_with_float_arithmetic_everywhere_sampled() {
    for w in 0..24u32 {
        for h in 0..24u32 {
            for mw in 0..20u32 {
                for mh in 0..20u32 {
                    let got = Resolution::new(w, h).fit_within(mw, mh);
                    assert_eq!((got.width, got.height), float_fit(w, h, mw, mh), "fit {w}x{h} into {mw}x{mh}");
                }
            }
        }
    }
    let mut x: u64 = 0x9e37_79b9_7f4a_7c15;
    let mut next = || {
        x ^= x << 13;
        x ^= x >> 7;
        x ^= x << 17;
        x
    };
    for _ in 0..200_000 {
        let pick = |r: u64| -> u32 {
            match r % 3 {
                0 => (r >> 8) as u32,
                1 => ((r >> 8) % 5000) as u32,
                _ => ((r >> 8) % (1 << 20)) as u32,
            }
        };
        let (w, h, mw, mh) = (pick(next()), pick(next()), pick(next()), pick(next()));
        let got = Resolution::new(w, h).fit_within(mw, mh);
        assert_eq!((got.width, got.height), float_fit(w, h, mw, mh), "fit {w}x{h} into {mw}x{mh}");
    }
}
