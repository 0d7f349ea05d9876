use snapshort::ai::{
    full_text, search_segments, segments_holding, AiError, AiService, FrameRange, SceneChangeType,
    SuggestionType,
};

#[test]
fn test_ai_service_creation() {
    let service = AiService::new();
    assert!(service.is_scene_detection_available());
    assert!(service.is_transcription_available());
}

#[test]
fn test_transcript_full_text() {
    let texts = vec!["Hello".to_string(), "world".to_string()];
    assert_eq!(full_text(&texts), "Hello world");
}

#[test]
fn test_transcript_search() {
    let texts = vec!["The quick brown fox".to_string(), "jumps over".to_string()];
    let results = search_segments(&texts, "fox");
    assert_eq!(results.len(), 1);
    assert!(texts[results[0]].contains("fox"));
}

#[test]
fn search_ignores_case_and_keeps_order() {
    let texts = vec![
        "The quick brown FOX".to_string(),
        "jumps Over".to_string(),
        "the lazy dog".to_string(),
    ];
    assert_eq!(search_segments(&texts, "fox"), vec![0]);
    assert_eq!(search_segments(&texts, "OVER"), vec![1]);
    assert_eq!(search_segments(&texts, "the"), vec![0, 2]);
    assert_eq!(search_segments(&texts, ""), vec![0, 1, 2]);
    assert!(search_segments(&texts, "cat").is_empty());
    assert!(search_segments(&Vec::new(), "fox").is_empty());
}

#[test]
fn full_text_edge_cases() {
    assert_eq!(full_text(&Vec::new()), "");
    assert_eq!(full_text(&vec!["solo".to_string()]), "solo");
    assert_eq!(
        full_text(&vec!["a".to_string(), "".to_string(), "c".to_string()]),
        "a  c"
    );
}

#[test]
fn ai_error_messages() {
    assert_eq!(
        AiError::ModelNotAvailable("whisper".to_string()).message(),
        "Model not available: whisper"
    );
    assert_eq!(
        AiError::ProcessingFailed("oops".to_string()).message(),
        "Processing failed: oops"
    );
    assert_eq!(
        AiError::UnsupportedMedia("gif".to_string()).message(),
        "Unsupported media: gif"
    );
    assert_eq!(
        AiError::ServiceUnavailable("down".to_string()).message(),
        "Service unavailable: down"
    );
    assert_eq!(AiError::RateLimited.message(), "Rate limited");
}

#[test]
fn ai_service_offers_auto_edit_without_local_models() {
    let service = AiService::new();
    assert!(service.is_auto_edit_available());
    assert!(!service.has_local_models());
}

#[test]
fn ai_frame_range_and_kinds() {
    let r = FrameRange::new(24, 48);
    assert_eq!((r.start, r.end), (24, 48));
    assert_ne!(SceneChangeType::HardCut, SceneChangeType::Fade);
    assert_eq!(SuggestionType::CutPoint, SuggestionType::CutPoint.clone());
}

#[test]
fn exact_search_is_case_sensitive() {
    let texts = vec!["The FOX".to_string(), "fox".to_string(), "foxes".to_string()];
    assert_eq!(segments_holding(&texts, "fox"), vec![1, 2]);
    assert_eq!(segments_holding(&texts, "FOX"), vec![0]);
    assert_eq!(segments_holding(&texts, "foxes!"), Vec::<usize>::new());
}
