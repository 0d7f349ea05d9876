use snapshort::export::{request_plan, ExportDecision, ExportSlot};

fn start(d: ExportDecision) -> bool {
    match d {
        ExportDecision::Start { use_hardware_accel } => use_hardware_accel,
        other => panic!("expected a start, got {other:?}"),
    }
}

fn refused(d: ExportDecision) -> String {
    match d {
        ExportDecision::Refuse(m) => m,
        other => panic!("expected a refusal, got {other:?}"),
    }
}

fn failed(d: ExportDecision) -> String {
    match d {
        ExportDecision::Fail(m) => m,
        other => panic!("expected a failure, got {other:?}"),
    }
}

#[test]
fn one_export_at_a_time() {
    let mut slot = ExportSlot::new();
    assert!(!slot.in_flight());
    assert!(start(slot.request_export(true, &vec![], true, true)));
    assert!(slot.in_flight());
    assert!(!slot.is_cancel_requested());
    assert_eq!(
        refused(slot.request_export(true, &vec![], false, false)),
        "Export already in progress"
    );
    assert!(slot.in_flight());
    slot.cancel();
    assert!(slot.is_cancel_requested());
    slot.finish();
    assert!(!slot.in_flight());
    assert!(!slot.is_cancel_requested());
    assert!(!start(slot.request_export(true, &vec![], true, false)));
}

#[test]
fn export_needs_a_timeline() {
    let mut slot = ExportSlot::new();
    assert_eq!(
        refused(slot.request_export(false, &vec!["a.mp4".to_string()], true, true)),
        "No active timeline to render"
    );
    assert!(!slot.in_flight());
    assert_eq!(request_plan(true), Ok(()));
    assert_eq!(request_plan(false), Err("No active timeline to render".to_string()));
}

#[test]
fn offline_media_fails_with_relink_guidance() {
    let mut slot = ExportSlot::new();
    let names: Vec<String> = ["a.mp4", "b.wav", "c.png", "d.mov", "e.mp4"]
        .iter()
        .map(|s| s.to_string())
        .collect();
    assert_eq!(
        failed(slot.request_export(true, &names, false, false)),
        "5 media file(s) offline (a.mp4, b.wav, c.png…). Relink them in the Assets panel, then export again."
    );
    assert!(!slot.in_flight());
    assert_eq!(
        failed(slot.request_export(true, &vec!["?".to_string()], false, false)),
        "1 media file(s) offline (?…). Relink them in the Assets panel, then export again."
    );
}

#[test]
fn cancel_without_an_export_does_nothing() {
    let mut slot = ExportSlot::new();
    slot.cancel();
    assert!(!slot.in_flight());
    assert!(!slot.is_cancel_requested());
}
