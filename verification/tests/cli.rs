use snapshort::cli::{
    analysis_result, check_export_args, format_duration, format_file_size, list_selection,
    media_type_for_extension, CliResult, MediaType,
};

#[test]
fn test_format_file_size() {
    assert_eq!(format_file_size(500), "500 bytes");
    assert_eq!(format_file_size(1024), "1.00 KB");
    assert_eq!(format_file_size(1024 * 1024), "1.00 MB");
    assert_eq!(format_file_size(1024 * 1024 * 1024), "1.00 GB");
}

#[test]
fn test_format_duration() {
    assert_eq!(format_duration(0), "0:00");
    assert_eq!(format_duration(30000), "0:30");
    assert_eq!(format_duration(90000), "1:30");
    assert_eq!(format_duration(3661000), "1:01:01");
}

#[test]
fn test_cli_result() {
    let success = CliResult::success("Operation completed");
    assert!(success.success);
    assert_eq!(success.exit_code, 0);

    let failure = CliResult::failure("Operation failed", 1);
    assert!(!failure.success);
    assert_eq!(failure.exit_code, 1);
}

fn float_file_size(bytes: u64) -> String {
    const KB: u64 = 1024;
    const MB: u64 = KB * 1024;
    const GB: u64 = MB * 1024;
    if bytes >= GB {
        format!("{:.2} GB", bytes as f64 / GB as f64)
    } else if bytes >= MB {
        format!("{:.2} MB", bytes as f64 / MB as f64)
    } else if bytes >= KB {
        format!("{:.2} KB", bytes as f64 / KB as f64)
    } else {
        format!("{} bytes", bytes)
    }
}

#[test]
fn file_size_agrees_with_float_formatting() {
    let mut samples: Vec<u64> = vec![
        0, 1, 1023, 1024, 1152, 1153, 1535, 1536, 5120, 1_048_575, 1_048_576, 1_179_648,
        123_456_789, 1_073_741_823, 1_073_741_824, 1_207_959_552, 999_999_999_999,
        (1u64 << 53) - 1, 1u64 << 53, (1u64 << 53) + 1, (1u64 << 53) + 3, (1u64 << 60) + 12345,
        u64::MAX - 1, u64::MAX,
    ];
    let mut x: u64 = 7;
    for _ in 0..20000 {
        x = x.wrapping_mul(6364136223846793005).wrapping_add(1442695040888963407);
        samples.push(x >> (x % 64));
        samples.push((x % 4096) * 1024 / 8 + 1024);
    }
    for b in samples {
        assert_eq!(format_file_size(b), float_file_size(b), "bytes = {b}");
    }
}

#[test]
fn durations_past_an_hour_and_minute_padding() {
    assert_eq!(format_duration(59_999), "0:59");
    assert_eq!(format_duration(600_000), "10:00");
    assert_eq!(format_duration(36_000_000), "10:00:00");
    assert_eq!(format_duration(360_000_000_000), "100000:00:00");
}

#[test]
fn media_types_by_extension() {
    assert_eq!(media_type_for_extension(Some("mp4")), MediaType::Video);
    assert_eq!(media_type_for_extension(Some("webm")), MediaType::Video);
    assert_eq!(media_type_for_extension(Some("flac")), MediaType::Audio);
    assert_eq!(media_type_for_extension(Some("tiff")), MediaType::Image);
    assert_eq!(media_type_for_extension(Some("MP4")), MediaType::Unknown);
    assert_eq!(media_type_for_extension(Some("txt")), MediaType::Unknown);
    assert_eq!(media_type_for_extension(None), MediaType::Unknown);
}

#[test]
fn export_arguments_are_checked_in_order() {
    assert!(check_export_args("mp4", "standard").is_none());
    let bad = check_export_args("avi", "nope").unwrap();
    assert!(!bad.success);
    assert_eq!(bad.exit_code, 1);
    assert_eq!(
        bad.message,
        "Invalid format 'avi'. Valid formats: mp4, webm, mov, png-sequence, jpg-sequence"
    );
    let bad = check_export_args("webm", "ultra").unwrap();
    assert_eq!(
        bad.message,
        "Invalid quality 'ultra'. Valid qualities: draft, preview, standard, high, master"
    );
}

#[test]
fn list_selection_and_analysis_outcome() {
    assert_eq!(list_selection("all").unwrap(), (true, true));
    assert_eq!(list_selection("timelines").unwrap(), (true, false));
    assert_eq!(list_selection("assets").unwrap(), (false, true));
    let err = list_selection("clips").unwrap_err();
    assert_eq!(err.message, "Invalid list type 'clips'. Use: timelines, assets, or all");
    assert_eq!(err.exit_code, 1);
    let r = analysis_result(3);
    assert!(!r.success);
    assert_eq!(r.message, "Analysis completed with 3 error(s)");
    let r = analysis_result(0);
    assert!(r.success);
    assert_eq!(r.message, "Analysis completed successfully");
}
