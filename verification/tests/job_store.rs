use snapshort::job_store::{
    is_job_file, job_file_name, recover_plan, JobRecord, JobStatus, JobStore, StoreError,
};
use snapshort::jobs::{JobId, JobKind, JobStatus as DomainJobStatus};

fn fresh_id() -> u128 {
    JobId::new().0
}

#[test]
fn full_lifecycle() {
    let mut store = JobStore::new();
    let id = fresh_id();
    store.create(id, "analyze_asset", "{}").unwrap();

    let record = store.get(id).unwrap();
    assert_eq!(record.status, JobStatus::Queued);
    assert_eq!(record.kind, "analyze_asset");

    store.set_running(id).unwrap();
    store.set_progress(id, 5).unwrap();
    let record = store.get(id).unwrap();
    assert_eq!(record.status, JobStatus::Running);
    assert_eq!(record.progress, Some(5));

    store.set_succeeded(id, None).unwrap();
    let record = store.get(id).unwrap();
    assert_eq!(record.status, JobStatus::Succeeded);
    assert_eq!(record.progress, Some(100));

    assert!(store.list_pending().is_empty());
}

#[test]
fn recover_running_to_queued() {
    let mut store = JobStore::new();
    let id = fresh_id();
    store.create(id, "k", "{}").unwrap();
    store.set_running(id).unwrap();

    assert_eq!(store.recover_incomplete(), 1);
    let record = store.get(id).unwrap();
    assert_eq!(record.status, JobStatus::Queued);

    assert_eq!(store.recover_incomplete(), 0);
}

#[test]
fn pending_lists_queued_and_running_oldest_first() {
    let mut store = JobStore::new();
    let a = fresh_id();
    let b = fresh_id();
    let c = fresh_id();
    store.create(a, "k", "{}").unwrap();
    store.create(b, "k", "{}").unwrap();
    store.create(c, "k", "{}").unwrap();
    {
        let mut ra = store.get(a).unwrap();
        ra.created_at = 300;
        store.write_record(ra);
        let mut rb = store.get(b).unwrap();
        rb.created_at = 100;
        store.write_record(rb);
        let mut rc = store.get(c).unwrap();
        rc.created_at = 200;
        store.write_record(rc);
    }
    store.set_succeeded(a, None).unwrap();

    let pending = store.list_pending();
    assert_eq!(pending.len(), 2);
    assert_eq!(pending[0].id, b);
    assert_eq!(pending[1].id, c);
}

#[test]
fn fail_and_cancel() {
    let mut store = JobStore::new();
    let id = fresh_id();
    store.create(id, "k", "{}").unwrap();
    store.set_failed(id, "boom".to_string()).unwrap();
    let record = store.get(id).unwrap();
    assert_eq!(record.status, JobStatus::Failed);
    assert_eq!(record.error.as_deref(), Some("boom"));

    let id2 = fresh_id();
    store.create(id2, "k", "{}").unwrap();
    store.set_canceled(id2).unwrap();
    assert_eq!(store.get(id2).unwrap().status, JobStatus::Canceled);
    assert!(store.list_pending().is_empty());
}

#[test]
fn missing_job_is_none_or_not_found() {
    let mut store = JobStore::new();
    let id = fresh_id();
    assert!(store.get(id).is_none());
    let err = store.set_running(id).unwrap_err();
    assert!(matches!(err, StoreError::NotFound { .. }));
    assert_eq!(err, StoreError::NotFound { entity_type: "job", id });
}

#[test]
fn restarting_clears_result_and_error() {
    let mut store = JobStore::new();
    let id = 42;
    store.create_at(id, "export_timeline", "{\"x\":1}", 10).unwrap();
    store.set_failed_at(id, "disk full".to_string(), 11).unwrap();
    store.set_running_at(id, 12).unwrap();
    let r = store.get(id).unwrap();
    assert_eq!(r.status, JobStatus::Running);
    assert_eq!(r.error, None);
    assert_eq!(r.progress, None);
    assert_eq!(r.created_at, 10);
    assert_eq!(r.updated_at, 12);
    assert_eq!(r.payload_json, "{\"x\":1}");
    store.set_succeeded_at(id, Some("{}".to_string()), 13).unwrap();
    assert_eq!(store.get(id).unwrap().result_json.as_deref(), Some("{}"));
}

#[test]
fn recovery_plan_rewrites_only_running_jobs() {
    let mut a = JobRecord::new_queued(1, "k", "{}", 5);
    a.mark_running(6);
    let b = JobRecord::new_queued(2, "k", "{}", 7);
    let plan = recover_plan(&vec![a, b], 9);
    assert_eq!(plan.len(), 1);
    assert_eq!(plan[0].id, 1);
    assert_eq!(plan[0].status, JobStatus::Queued);
    assert_eq!(plan[0].updated_at, 9);
}

#[test]
fn job_files_are_recognised() {
    let id = 0xa1a2a3a4b1b2c1c2d1d2d3d4d5d6d7d8u128;
    assert_eq!(job_file_name(id), "a1a2a3a4-b1b2-c1c2-d1d2-d3d4d5d6d7d8.json");
    assert!(is_job_file(&job_file_name(fresh_id())));
    assert!(!is_job_file("temp_x.json"));
    assert!(!is_job_file("corrupted_x.json"));
    assert!(!is_job_file("x.json.bak"));
    assert!(is_job_file(".json"));
}

#[test]
fn job_kind_and_status_names_roundtrip() {
    for k in [JobKind::AnalyzeAsset, JobKind::GenerateProxy, JobKind::ExportTimeline] {
        assert_eq!(JobKind::from_str(k.as_str()), Some(k));
    }
    assert_eq!(JobKind::from_str("analyze"), None);
    for s in [
        DomainJobStatus::Queued,
        DomainJobStatus::Running,
        DomainJobStatus::Succeeded,
        DomainJobStatus::Failed,
        DomainJobStatus::Canceled,
    ] {
        assert_eq!(DomainJobStatus::from_str(s.as_str()), Some(s));
    }
    assert_eq!(DomainJobStatus::from_str("Queued"), None);
    assert_eq!(JobStatus::Canceled.as_str(), "canceled");
    let v4 = JobId::new().0;
    assert_eq!((v4 >> 76) & 0xf, 4);
    assert_eq!((v4 >> 62) & 0x3, 2);
}

#[test]
fn recovery_stamps_the_given_time() {
    let mut store = JobStore::new();
    store.create_at(7, "k", "{}", 1).unwrap();
    store.set_running_at(7, 2).unwrap();
    assert_eq!(store.recover_incomplete_at(3), 1);
    let record = store.get(7).unwrap();
    assert_eq!(record.status, JobStatus::Queued);
    assert_eq!(record.updated_at, 3);
    assert_eq!(record.created_at, 1);
}

#[test]
fn clock_stamps_are_current_times() {
    let mut store = JobStore::new();
    store.create(8, "k", "{}").unwrap();
    let created = store.get(8).unwrap().created_at;
    // 2020-09-13 in Unix milliseconds: the clock is read, not made up.
    assert!(created > 1_600_000_000_000);
    store.set_running(8).unwrap();
    assert!(store.get(8).unwrap().updated_at >= created);
}
