use snapshort::asset::Project;
use snapshort::project_store::{is_project_file, newest_first, project_file_name, ProjectStore};

#[test]
fn library_lists_most_recent_first() {
    // Projects "a", "b", "c" saved at 100, 300, 200 list as b, c, a.
    let names = ["a", "b", "c"];
    let order = newest_first(&vec![100, 300, 200]);
    let listed: Vec<&str> = order.iter().map(|&i| names[i]).collect();
    assert_eq!(listed, vec!["b", "c", "a"]);

    // Re-saving "b" as "b2" at 400 brings it to the front.
    let names = ["a", "b2", "c"];
    let order = newest_first(&vec![100, 400, 200]);
    assert_eq!(order.len(), 3);
    assert_eq!(names[order[0]], "b2");
}

#[test]
fn equal_times_keep_reading_order() {
    assert_eq!(newest_first(&vec![5, 7, 5, 7, 5]), vec![1, 3, 0, 2, 4]);
    assert_eq!(newest_first(&vec![]), Vec::<usize>::new());
    assert_eq!(newest_first(&vec![i64::MIN, i64::MAX, 0]), vec![1, 2, 0]);
}

#[test]
fn newest_first_matches_a_stable_sort() {
    let times: Vec<i64> = (0..40).map(|k: i64| (k * 7919) % 13 - 6).collect();
    let mut expected: Vec<usize> = (0..times.len()).collect();
    expected.sort_by(|&a, &b| times[b].cmp(&times[a]));
    assert_eq!(newest_first(&times), expected);
}

#[test]
fn project_files_are_recognised() {
    assert!(is_project_file("6f1c0b0e-1d2a-4c3b-9e8f-0a1b2c3d4e5f.json"));
    assert!(!is_project_file("temp_6f1c.json"));
    assert!(!is_project_file("corrupted_6f1c.json"));
    assert!(!is_project_file("6f1c.json.bak"));
    assert!(!is_project_file("notes.txt"));
    let name = project_file_name(0x6f1c0b0e_1d2a_4c3b_9e8f_0a1b2c3d4e5f);
    assert_eq!(name, "6f1c0b0e-1d2a-4c3b-9e8f-0a1b2c3d4e5f.json");
    assert!(is_project_file(&name));
}

fn named(name: &str, modified_at: i64) -> Project {
    let mut project = Project::new(name);
    project.modified_at_ms = modified_at;
    project
}

#[test]
fn library_roundtrip_orders_upserts_and_misses() {
    let mut store = ProjectStore::new();
    assert!(store.list().is_empty());

    store.save(named("a", 100));
    store.save(named("b", 300));
    store.save(named("c", 200));
    let names: Vec<String> = store.list().into_iter().map(|p| p.name.clone()).collect();
    assert_eq!(names, vec!["b", "c", "a"]);

    // Re-saving overwrites in place (upsert): the entry stays single.
    let mut b2 = named("b2", 400);
    let first_b = store.list()[0].clone();
    b2.id = first_b.id;
    store.save(b2);
    let listed = store.list();
    assert_eq!(listed.len(), 3);
    assert_eq!(listed[0].name, "b2");

    assert!(store.get(Project::new("elsewhere").id).is_none());
}

#[test]
fn project_deletion_removes_all_traces() {
    let mut store = ProjectStore::new();
    let project = Project::new("doomed");
    let id = project.id;
    store.save(project);
    store.delete(id);
    assert!(store.get(id).is_none());
    assert!(store.list().is_empty());
}

#[test]
fn saved_project_reads_back_and_delete_is_idempotent() {
    let mut store = ProjectStore::new();
    let kept = Project::created(1, "kept", 10);
    let gone = Project::created(2, "gone", 20);
    store.save(kept);
    store.save(gone);
    let got = store.get(1).unwrap();
    assert_eq!(got.name, "kept");
    assert_eq!(got.modified_at_ms, 10);
    store.delete(2);
    store.delete(2);
    assert!(store.get(2).is_none());
    assert_eq!(store.get(1).unwrap().name, "kept");
    assert_eq!(store.list().len(), 1);
}
