use snapshort::desktop::TimelineMarker;
use snapshort::asset::{Asset, AssetStatus, AssetType};
use snapshort::editor::{AssetList, EditorEvent, EditorStatus};

#[test]
fn fresh_editor_state() {
    let s = EditorStatus::new();
    assert_eq!(s.status_msg, "Ready");
    assert_eq!(s.playback_state, "Stopped");
    assert_eq!(s.background_jobs, 0);
    assert!(!s.project_open && !s.project_dirty && !s.can_undo && !s.can_redo);
    assert!(s.markers.is_empty());
}

#[test]
fn project_lifecycle_events() {
    let mut s = EditorStatus::new();
    s.selected_asset_id = Some(7);
    s.apply(EditorEvent::ProjectCreated);
    assert!(s.project_open);
    assert_eq!(s.status_msg, "Project initialized");
    assert_eq!(s.selected_asset_id, None);
    s.apply(EditorEvent::TimelineUpdated);
    assert!(s.project_dirty);
    s.apply(EditorEvent::ProjectSaved { path: "/tmp/p.snap".to_string() });
    assert!(!s.project_dirty);
    assert_eq!(s.project_path.as_deref(), Some("/tmp/p.snap"));
    assert_eq!(s.status_msg, "Project saved");
    s.apply(EditorEvent::ProjectOpened {
        markers: vec![TimelineMarker { timestamp_us: 5, label: "m".to_string() }],
    });
    assert_eq!(s.markers.len(), 1);
    assert_eq!(s.status_msg, "Project opened");
    s.apply(EditorEvent::UndoStackChanged { can_undo: true, can_redo: false });
    s.apply(EditorEvent::JobStarted);
    s.apply(EditorEvent::ProjectClosed);
    assert!(!s.project_open && !s.can_undo && !s.can_redo);
    assert_eq!(s.background_jobs, 0);
    assert!(s.markers.is_empty());
    assert_eq!(s.status_msg, "Project closed");
    assert_eq!(s.project_path.as_deref(), Some("/tmp/p.snap"));
}

#[test]
fn background_job_counter() {
    let mut s = EditorStatus::new();
    s.apply(EditorEvent::JobQueued { kind: "analyze_asset".to_string() });
    assert_eq!(s.status_msg, "Queued: analyze_asset");
    s.apply(EditorEvent::JobStarted);
    s.apply(EditorEvent::JobStarted);
    s.apply(EditorEvent::JobProgress { progress: 42 });
    assert_eq!(s.status_msg, "Background job… 42%");
    s.apply(EditorEvent::JobEnded);
    assert_eq!(s.background_jobs, 1);
    assert_eq!(s.status_msg, "Background job… 42%");
    s.apply(EditorEvent::JobEnded);
    assert_eq!(s.background_jobs, 0);
    assert_eq!(s.status_msg, "Ready");
    s.apply(EditorEvent::JobEnded);
    assert_eq!(s.background_jobs, 0);
}

#[test]
fn render_and_playback_events() {
    let mut s = EditorStatus::new();
    s.apply(EditorEvent::RenderPlanReady { clips: 3 });
    assert_eq!(s.last_render_plan_summary.as_deref(), Some("Render plan ready: 3 clips"));
    s.apply(EditorEvent::RenderStarted { output: "/tmp/out.mp4".to_string() });
    assert_eq!(s.blocking_operation.as_deref(), Some("Exporting to /tmp/out.mp4…"));
    assert_eq!(s.status_msg, "Exporting to /tmp/out.mp4…");
    s.apply(EditorEvent::RenderFailed { error: "Render cancelled".to_string() });
    assert_eq!(s.blocking_operation, None);
    assert_eq!(s.last_render_result.as_deref(), Some("Export failed: Render cancelled"));
    s.apply(EditorEvent::RenderFinished { output: "/tmp/out.mp4".to_string() });
    assert_eq!(s.last_render_result.as_deref(), Some("Exported to /tmp/out.mp4"));
    assert_eq!(s.status_msg, "Export complete");
    s.apply(EditorEvent::PlaybackStarted);
    assert_eq!((s.playback_state.as_str(), s.status_msg.as_str()), ("Playing", "Playing"));
    s.apply(EditorEvent::PlaybackPaused);
    assert_eq!(s.playback_state, "Paused");
    s.apply(EditorEvent::PlayheadMoved { timestamp_us: -5 });
    assert_eq!(s.playhead_us, -5);
    assert_eq!(s.status_msg, "Playhead: -5");
    s.apply(EditorEvent::PreviewFrameFailed { error: "no frame".to_string() });
    assert_eq!(s.status_msg, "Preview error: no frame");
    s.apply(EditorEvent::Error { message: "boom".to_string() });
    assert_eq!(s.last_error.as_deref(), Some("boom"));
    assert_eq!(s.status_msg, "Error: boom");
}

#[test]
fn asset_events() {
    let mut s = EditorStatus::new();
    s.selected_asset_id = Some(9);
    s.asset_search_query = "cat".to_string();
    s.apply(EditorEvent::AssetDeleted { asset_id: 8 });
    assert_eq!(s.selected_asset_id, Some(9));
    assert!(s.project_dirty);
    s.apply(EditorEvent::AssetDeleted { asset_id: 9 });
    assert_eq!(s.selected_asset_id, None);
    s.apply(EditorEvent::AssetsLoaded);
    assert_eq!(s.asset_search_query, "");
    s.project_dirty = false;
    s.apply(EditorEvent::AssetImported);
    assert!(s.project_dirty);
}

fn asset(id: u128, name: &str) -> Asset {
    Asset::imported(id, Some(name.to_string()), format!("/media/{name}"), AssetType::Video, 5)
}

fn ids_and_names(list: &AssetList) -> Vec<(u128, String)> {
    list.assets.iter().map(|a| (a.id, a.name.clone())).collect()
}

#[test]
fn asset_list_follows_asset_events() {
    let mut list = AssetList::new();
    list.loaded(vec![asset(1, "a.mp4"), asset(2, "b.mp4")]);
    list.imported(asset(3, "c.mp4"));
    assert_eq!(
        ids_and_names(&list),
        vec![(1, "a.mp4".to_string()), (2, "b.mp4".to_string()), (3, "c.mp4".to_string())]
    );

    list.updated(asset(2, "b2.mp4"));
    list.updated(asset(9, "ignored.mp4"));
    assert_eq!(list.assets[1].name, "b2.mp4");
    assert_eq!(list.assets.len(), 3);

    list.proxy_progress(3, 40);
    assert_eq!(list.assets[2].status, AssetStatus::ProxyGenerating { progress: 40 });
    assert_eq!(list.assets[2].name, "c.mp4");
    assert_eq!(list.assets[0].status, AssetStatus::Pending);
    list.proxy_progress(9, 10);
    assert_eq!(list.assets.len(), 3);

    list.deleted(1);
    assert_eq!(ids_and_names(&list), vec![(2, "b2.mp4".to_string()), (3, "c.mp4".to_string())]);
    list.deleted(1);
    assert_eq!(list.assets.len(), 2);

    list.cleared();
    assert!(list.assets.is_empty());
}
