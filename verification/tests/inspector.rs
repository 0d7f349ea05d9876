use snapshort::inspector::InspectorMemory;

#[test]
fn flags_default_off_and_read_back() {
    let mut m = InspectorMemory::new();
    assert!(!m.flag_get("clip-1:blur"));
    m.flag_set("clip-1:blur", true);
    assert!(m.flag_get("clip-1:blur"));
    assert!(!m.flag_get("clip-2:blur"));
    m.flag_set("clip-1:blur", false);
    assert!(!m.flag_get("clip-1:blur"));
}

#[test]
fn toggling_twice_restores() {
    let mut m = InspectorMemory::new();
    m.flag_toggle("k");
    assert!(m.flag_get("k"));
    m.flag_toggle("k");
    assert!(!m.flag_get("k"));
    m.flag_set("other", true);
    m.flag_toggle("k");
    m.flag_toggle("k");
    assert!(m.flag_get("other"));
    assert!(!m.flag_get("k"));
}

#[test]
fn texts_are_kept_by_key() {
    let mut m = InspectorMemory::new();
    assert_eq!(m.str_val_get("clip-1:title"), None);
    m.str_val_set("clip-1:title", "Intro".to_string());
    m.str_val_set("clip-2:title", "Outro".to_string());
    assert_eq!(m.str_val_get("clip-1:title").as_deref(), Some("Intro"));
    m.str_val_set("clip-1:title", "Opening".to_string());
    assert_eq!(m.str_val_get("clip-1:title").as_deref(), Some("Opening"));
    assert_eq!(m.str_val_get("clip-2:title").as_deref(), Some("Outro"));
    assert!(!m.flag_get("clip-1:title"));
}
