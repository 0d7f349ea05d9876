use snapshort::render::{
    frame_is_sampled, plan_refusal, plan_stride, quality_profile, scale_rgba_nearest, OutputFormat,
    PlanFindings, QualityPreset, RenderError, RenderPhase, RenderService, MAX_PLAN_ISSUES,
};

#[test]
fn test_render_service_validate() {
    let service = RenderService::new();
    // The default settings: 1920x1080 at 24 fps, MP4 / H.264.
    let mut resolution = (1920u32, 1080u32);
    let fps: f64 = 24.0;
    let format = OutputFormat::default();
    assert!(service.validate_settings(resolution, !(fps <= 0.0), &format).is_ok());
    resolution = (0, 0);
    assert!(service.validate_settings(resolution, !(fps <= 0.0), &format).is_err());
}

#[test]
fn validation_reports_the_first_problem() {
    let service = RenderService::new();
    match service.validate_settings((0, 1080), false, &OutputFormat::WebmVp9) {
        Err(RenderError::InvalidSettings(m)) => assert_eq!(m, "Resolution must be non-zero"),
        other => panic!("unexpected {other:?}"),
    }
    match service.validate_settings((1920, 1080), false, &OutputFormat::WebmVp9) {
        Err(RenderError::InvalidSettings(m)) => assert_eq!(m, "Frame rate must be positive"),
        other => panic!("unexpected {other:?}"),
    }
    match service.validate_settings((1920, 1080), true, &OutputFormat::WebmVp9) {
        Err(RenderError::CodecNotAvailable(m)) => assert_eq!(m, "WebmVp9"),
        other => panic!("unexpected {other:?}"),
    }
}

#[test]
fn formats_presets_and_service_flags() {
    let service = RenderService::new();
    assert!(!service.is_hardware_accel_available());
    let all = [
        OutputFormat::Mp4H264,
        OutputFormat::Mp4H265,
        OutputFormat::WebmVp9,
        OutputFormat::MovProRes,
        OutputFormat::PngSequence,
        OutputFormat::JpegSequence,
    ];
    for f in all.iter() {
        assert_eq!(service.is_format_supported(f), *f == OutputFormat::Mp4H264);
        assert_eq!(f.debug_name(), format!("{:?}", f));
    }
    assert_eq!(QualityPreset::default(), QualityPreset::Standard);
    assert_eq!(quality_profile(QualityPreset::Draft), ("veryfast", "30"));
    assert_eq!(quality_profile(QualityPreset::Preview), ("faster", "27"));
    assert_eq!(quality_profile(QualityPreset::Standard), ("medium", "23"));
    assert_eq!(quality_profile(QualityPreset::High), ("slow", "20"));
    assert_eq!(quality_profile(QualityPreset::Master), ("slow", "17"));
    assert_ne!(RenderPhase::Muxing, RenderPhase::Complete);
}

#[test]
fn render_error_messages() {
    assert_eq!(
        RenderError::InvalidSettings("x".to_string()).message(),
        "Invalid render settings: x"
    );
    assert_eq!(
        RenderError::CodecNotAvailable("WebmVp9".to_string()).message(),
        "Codec not available: WebmVp9"
    );
    assert_eq!(RenderError::IoError("disk".to_string()).message(), "IO error: disk");
    assert_eq!(RenderError::EncodingError("e".to_string()).message(), "Encoding error: e");
    assert_eq!(RenderError::Cancelled.message(), "Render cancelled");
    assert_eq!(
        RenderError::HardwareAccelFailed("gpu".to_string()).message(),
        "Hardware acceleration failed: gpu"
    );
}

#[test]
fn plan_sampling_stride_and_frames() {
    assert_eq!(plan_stride(0), 1);
    assert_eq!(plan_stride(300), 1);
    assert_eq!(plan_stride(3999), 1);
    assert_eq!(plan_stride(4000), 2);
    assert_eq!(plan_stride(10_000), 5);
    let sampled: Vec<u64> = (0..12).filter(|&i| frame_is_sampled(i, 12, 5)).collect();
    assert_eq!(sampled, vec![0, 5, 10, 11]);
}

#[test]
fn plan_findings_are_capped_and_layers_tracked() {
    let mut f = PlanFindings::new();
    f.record_frame(0, 0, 1, &vec![]);
    assert_eq!(f.max_layers, 1);
    assert!(f.issues.is_empty());
    let v: Vec<String> = (0..5).map(|k| format!("V{k}")).collect();
    f.record_frame(3, 100_000, 4, &v);
    assert_eq!(f.max_layers, 4);
    assert_eq!(f.issues.len(), 5);
    assert_eq!(f.issues[0], "frame 3 (100000µs): V0");
    f.record_frame(4, -7, 2, &v);
    assert_eq!(f.max_layers, 4);
    assert_eq!(f.issues.len(), MAX_PLAN_ISSUES);
    assert_eq!(f.issues[7], "frame 4 (-7µs): V2");
    f.record_frame(5, 0, 9, &v);
    assert_eq!(f.issues.len(), MAX_PLAN_ISSUES);
    assert_eq!(f.max_layers, 9);
}

#[test]
fn plans_with_findings_refuse_export() {
    assert!(plan_refusal(&vec![]).is_none());
    match plan_refusal(&vec!["first".to_string(), "second".to_string()]) {
        Some(RenderError::InvalidSettings(m)) => {
            assert_eq!(m, "render graph invalid (2 issue(s), first: first)")
        }
        other => panic!("unexpected {other:?}"),
    }
}

fn reference_scale(src: &[u8], src_w: u32, src_h: u32, dst_w: u32, dst_h: u32) -> Vec<u8> {
    let mut dst = vec![0u8; (dst_w * dst_h * 4) as usize];
    for y in 0..dst_h {
        for x in 0..dst_w {
            let sx = (x * src_w / dst_w).min(src_w - 1);
            let sy = (y * src_h / dst_h).min(src_h - 1);
            let si = ((sy * src_w + sx) * 4) as usize;
            let di = ((y * dst_w + x) * 4) as usize;
            dst[di..di + 4].copy_from_slice(&src[si..si + 4]);
        }
    }
    dst
}

#[test]
fn nearest_scaling_picks_source_pixels() {
    let src: Vec<u8> = (0..16u8).collect(); // 2x2 pixels
    assert_eq!(scale_rgba_nearest(&src, 2, 2, 1, 1), vec![0, 1, 2, 3]);
    let up = scale_rgba_nearest(&src[0..4], 1, 1, 2, 2);
    assert_eq!(up, vec![0, 1, 2, 3, 0, 1, 2, 3, 0, 1, 2, 3, 0, 1, 2, 3]);
    assert!(scale_rgba_nearest(&src, 2, 2, 0, 0).is_empty());
    assert!(scale_rgba_nearest(&[], 0, 0, 0, 5).is_empty());
}

#[test]
fn nearest_scaling_matches_reference_thumbnails() {
    let (sw, sh) = (37u32, 23u32);
    let src: Vec<u8> = (0..sw * sh * 4).map(|k| (k * 31 % 251) as u8).collect();
    for &(dw, dh) in &[(160u32, 90u32), (5, 3), (37, 23), (1, 40), (74, 1)] {
        assert_eq!(
            scale_rgba_nearest(&src, sw, sh, dw, dh),
            reference_scale(&src, sw, sh, dw, dh)
        );
    }
}
