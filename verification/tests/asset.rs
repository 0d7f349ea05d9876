use snapshort::asset::{
    asset_type_to_string, clip_type_to_string, status_to_string, string_to_asset_type,
    string_to_clip_type, string_to_status, Asset, AssetStatus, AssetType, ClipType, CodecInfo,
    MediaInfo, ProjectSettings, ProxyInfo, TimelineSettings, VideoStream,
};
use snapshort::value_objects::{Fps, FrameRange, Resolution};

#[test]
fn asset_status_text_roundtrips() {
    let all = vec![
        AssetStatus::Pending,
        AssetStatus::Analyzing,
        AssetStatus::Ready,
        AssetStatus::ProxyGenerating { progress: 0 },
        AssetStatus::ProxyGenerating { progress: 37 },
        AssetStatus::ProxyGenerating { progress: 255 },
        AssetStatus::ProxyReady,
        AssetStatus::Error("decoder: bad frame".to_string()),
        AssetStatus::Error(String::new()),
        AssetStatus::Offline,
    ];
    for s in all {
        assert_eq!(string_to_status(&status_to_string(&s)), s);
    }
    assert_eq!(status_to_string(&AssetStatus::ProxyGenerating { progress: 7 }), "proxy_generating:7");
    assert_eq!(status_to_string(&AssetStatus::Error("x".into())), "error:x");
}

#[test]
fn asset_status_parsing_edge_cases() {
    assert_eq!(string_to_status("proxy_generating:+42"), AssetStatus::ProxyGenerating { progress: 42 });
    assert_eq!(string_to_status("proxy_generating:256"), AssetStatus::ProxyGenerating { progress: 0 });
    assert_eq!(string_to_status("proxy_generating:"), AssetStatus::ProxyGenerating { progress: 0 });
    assert_eq!(string_to_status("proxy_generating:-1"), AssetStatus::ProxyGenerating { progress: 0 });
    assert_eq!(string_to_status("proxy_generating:007"), AssetStatus::ProxyGenerating { progress: 7 });
    assert_eq!(string_to_status("garbage"), AssetStatus::Pending);
    assert_eq!(string_to_status("error:"), AssetStatus::Error(String::new()));
    assert!(AssetStatus::Ready.is_usable());
    assert!(AssetStatus::ProxyReady.is_usable());
    assert!(!AssetStatus::ProxyGenerating { progress: 99 }.is_usable());
    assert!(!AssetStatus::Offline.is_usable());
}

#[test]
fn asset_and_clip_type_names() {
    for t in [AssetType::Video, AssetType::Audio, AssetType::Image, AssetType::Sequence] {
        assert_eq!(string_to_asset_type(asset_type_to_string(&t)).unwrap(), t);
    }
    assert_eq!(string_to_asset_type("film").unwrap_err(), "Unknown asset type: film");
    for t in [
        ClipType::Video,
        ClipType::Audio,
        ClipType::Title,
        ClipType::Generator,
        ClipType::Adjustment,
        ClipType::Gap,
    ] {
        assert_eq!(string_to_clip_type(clip_type_to_string(&t)).unwrap(), t);
    }
    assert_eq!(string_to_clip_type("Gap").unwrap_err(), "Unknown clip type: Gap");
}

#[test]
fn default_settings() {
    let t = TimelineSettings::default();
    assert_eq!(t.fps, Fps::F24());
    assert_eq!(t.resolution, Resolution::HD());
    assert_eq!(t.sample_rate, 48000);
    assert_eq!(t.audio_channels, 2);
    let p = ProjectSettings::default();
    assert_eq!(p.proxy_resolution, Resolution::new(1280, 720));
    assert_eq!(p.cache_dir, None);
}

#[test]
fn test_asset_creation() {
    let asset = Asset::new("/path/to/video.mp4".to_string(), AssetType::Video);
    assert_eq!(asset.name, "video.mp4");
    assert!(matches!(asset.status, AssetStatus::Pending));
}

#[test]
fn test_asset_with_proxy() {
    let mut asset = Asset::new("/path/to/video.mp4".to_string(), AssetType::Video);
    asset.proxy = Some(ProxyInfo {
        path: "/proxies/video_proxy.mp4".to_string(),
        resolution: Resolution::HD(),
        codec: "h264".into(),
        created_at_ms: 0,
    });
    asset.status = AssetStatus::ProxyReady;

    assert_eq!(asset.effective_path(), "/proxies/video_proxy.mp4");
}

#[test]
fn new_assets_are_fresh_and_unnamed_paths_read_unknown() {
    let a = Asset::new("/".to_string(), AssetType::Image);
    assert_eq!(a.name, "Unknown");
    let b = Asset::new("clip.mov".to_string(), AssetType::Video);
    assert_eq!(b.name, "clip.mov");
    assert_ne!(a.id, b.id);
    assert_eq!((b.id >> 76) & 0xf, 4);
    assert_eq!(b.imported_at_ms, b.modified_at_ms);
    assert!(b.imported_at_ms > 1_600_000_000_000);
    assert!(!b.is_offline());
    assert_eq!(b.source_range(), None);
    assert_eq!(b.effective_path(), "clip.mov");
}

#[test]
fn probed_assets_are_ready_with_a_source_range() {
    let codec = CodecInfo {
        name: "h264".to_string(),
        profile: None,
        bit_depth: Some(8),
        chroma_subsampling: None,
    };
    let video = VideoStream {
        codec,
        resolution: Resolution::HD(),
        fps: Fps::F24(),
        duration_frames: 240,
        pixel_format: "yuv420p".to_string(),
        color_space: None,
        hdr: false,
    };
    let info = MediaInfo {
        container: "mp4".to_string(),
        duration_ms: 10_000,
        file_size: 1,
        video_streams: vec![video],
        audio_streams: vec![],
    };
    assert_eq!(info.fps(), Some(Fps::F24()));
    assert_eq!(info.resolution(), Some(Resolution::HD()));
    assert!(info.primary_audio().is_none());
    let mut asset = Asset::new("/m/a.mp4".to_string(), AssetType::Video).with_media_info(info);
    assert!(matches!(asset.status, AssetStatus::Ready));
    assert_eq!(asset.source_range(), Some(FrameRange::new_unchecked(0, 240)));
    // A proxy that is not ready yet is not used.
    asset.proxy = Some(ProxyInfo {
        path: "/p/a.mp4".to_string(),
        resolution: Resolution::HD(),
        codec: "h264".to_string(),
        created_at_ms: 1,
    });
    assert_eq!(asset.effective_path(), "/m/a.mp4");
    asset.status = AssetStatus::Offline;
    assert!(asset.is_offline());
}

#[test]
fn new_projects_start_empty_with_default_settings() {
    let mut p = snapshort::asset::Project::new("Demo");
    assert_eq!(p.name, "Demo");
    assert_eq!(p.path, None);
    assert_eq!(p.settings.fps, Fps::F24());
    assert_eq!(p.settings.proxy_resolution, Resolution::new(1280, 720));
    assert_eq!(p.created_at_ms, p.modified_at_ms);
    assert!(p.asset_ids.is_empty() && p.timeline_ids.is_empty());
    assert_eq!(p.active_timeline_id, None);
    let created = p.created_at_ms;
    p.touch();
    assert!(p.modified_at_ms >= created);
    assert_eq!(p.created_at_ms, created);
}

#[test]
fn assets_and_projects_from_given_parts() {
    let a = Asset::imported(7, None, "/x/".to_string(), AssetType::Audio, 1234);
    assert_eq!((a.id, a.name.as_str(), a.imported_at_ms, a.modified_at_ms), (7, "Unknown", 1234, 1234));
    let info = MediaInfo {
        container: "wav".to_string(),
        duration_ms: 5,
        file_size: 9,
        video_streams: vec![],
        audio_streams: vec![],
    };
    let b = Asset::imported(8, Some("s.wav".to_string()), "/s.wav".to_string(), AssetType::Audio, 1)
        .with_media_info_at(info, 2);
    assert_eq!((b.name.as_str(), b.imported_at_ms, b.modified_at_ms), ("s.wav", 1, 2));
    assert!(matches!(b.status, AssetStatus::Ready));
    assert_eq!(b.source_range(), None);
    let mut p = snapshort::asset::Project::created(9, "P", 10);
    assert_eq!((p.id, p.created_at_ms, p.modified_at_ms), (9, 10, 10));
    p.touch_at(11);
    assert_eq!((p.created_at_ms, p.modified_at_ms), (10, 11));
}
