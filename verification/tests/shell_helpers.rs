use open_rec::shell::{
    build_editor_route, concat_manifest, concat_merge_args, ensure_recording_disk_headroom,
    escape_concat_path, ffmpeg_timeout_error, is_missing_process_error,
    normalize_opened_project_id, normalize_project_id_input, recording_disk_space_status,
    strip_wrapping_quotes, truncate_tray_label, MIN_RECORDING_FREE_SPACE_BYTES,
    OPENREC_RELEASES_URL, OPENREC_UNSIGNED_INSTALL_GUIDE_URL,
};

#[test]
fn detects_missing_process_error_messages() {
    assert!(is_missing_process_error("kill: (123) - No such process"));
    assert!(is_missing_process_error("ERROR: The process \"123\" not found."));
    assert!(is_missing_process_error("Cannot find the process with PID 123"));
    assert!(!is_missing_process_error("permission denied"));
}

#[test]
fn exposes_manual_update_urls() {
    assert!(OPENREC_RELEASES_URL.starts_with("https://"));
    assert!(OPENREC_RELEASES_URL.contains("/releases"));
    assert!(OPENREC_UNSIGNED_INSTALL_GUIDE_URL.starts_with("https://"));
    assert!(OPENREC_UNSIGNED_INSTALL_GUIDE_URL.contains("UNSIGNED_MAC_INSTALL.md"));
}

#[test]
fn normalizes_opened_project_ids() {
    assert_eq!(normalize_opened_project_id(""), None);
    assert_eq!(normalize_opened_project_id("   "), None);
    assert_eq!(
        normalize_opened_project_id("example-project.openrec").as_deref(),
        Some("example-project")
    );
    assert_eq!(
        normalize_opened_project_id("EXAMPLE-PROJECT.OPENREC").as_deref(),
        Some("EXAMPLE-PROJECT")
    );
    assert_eq!(
        normalize_opened_project_id("already-normalized").as_deref(),
        Some("already-normalized")
    );
}

#[test]
fn normalizes_project_id_input() {
    assert_eq!(
        normalize_project_id_input("  project-123  ".to_string(), "test context")
            .expect("project id should normalize"),
        "project-123".to_string()
    );
}

#[test]
fn rejects_empty_project_id_input() {
    let error = normalize_project_id_input("   ".to_string(), "test context")
        .expect_err("empty project id should fail");
    assert_eq!(error.message(), "Missing project id for test context".to_string());
}

#[test]
fn strips_wrapping_quotes_from_startup_arguments() {
    assert_eq!(strip_wrapping_quotes("\"/tmp/sample.openrec\""), "/tmp/sample.openrec");
    assert_eq!(strip_wrapping_quotes("'/tmp/sample.openrec'"), "/tmp/sample.openrec");
    assert_eq!(strip_wrapping_quotes("/tmp/sample.openrec"), "/tmp/sample.openrec");
    assert_eq!(strip_wrapping_quotes("   \"/tmp/spaced.openrec\"   "), "/tmp/spaced.openrec");
    assert_eq!(strip_wrapping_quotes("   "), "");
}

#[test]
fn builds_percent_encoded_editor_route() {
    assert_eq!(
        build_editor_route("project with spaces/and/slashes"),
        "/editor/project+with+spaces%2Fand%2Fslashes"
    );
}

#[test]
fn truncates_tray_labels_with_ellipsis() {
    assert_eq!(truncate_tray_label("short", 10), "short");
    assert_eq!(truncate_tray_label("a much longer label", 6), "a much…");
    assert_eq!(truncate_tray_label("anything", 0), "");
}

#[test]
fn reports_disk_space_against_the_floor() {
    let status = recording_disk_space_status(6 * 1024 * 1024 * 1024);
    assert!(status.sufficient);
    assert_eq!(status.minimum_required_bytes, MIN_RECORDING_FREE_SPACE_BYTES);
    let status = recording_disk_space_status(1024);
    assert!(!status.sufficient);
    assert!(ensure_recording_disk_headroom(MIN_RECORDING_FREE_SPACE_BYTES).is_ok());
    let error = ensure_recording_disk_headroom(2_684_354_560).expect_err("low space should fail");
    assert_eq!(
        error.message(),
        "Insufficient disk space. At least 5 GB free is required (currently 2.50 GB)."
    );
}

#[test]
fn escapes_single_quotes_in_concat_paths() {
    assert_eq!(escape_concat_path("/tmp/it's here.mp4"), "/tmp/it'\\''s here.mp4");
    assert_eq!(escape_concat_path("/plain/path.mp4"), "/plain/path.mp4");
}

#[test]
fn formats_ffmpeg_timeout_error() {
    let error = ffmpeg_timeout_error(12);
    assert_eq!(error.message(), "ffmpeg command timed out after 12 seconds");
}

#[test]
fn concat_manifest_quotes_each_segment() {
    let manifest = concat_manifest(&vec![
        "/rec/screen.mp4".to_string(),
        "/rec/screen_part1.mp4".to_string(),
        "/rec/it's a part.mp4".to_string(),
    ]);
    assert_eq!(
        manifest,
        "file '/rec/screen.mp4'\nfile '/rec/screen_part1.mp4'\nfile '/rec/it'\\''s a part.mp4'"
    );
    assert_eq!(concat_manifest(&vec![]), "");
    let args = concat_merge_args("/rec/segments_concat.txt", "/rec/screen_merged.mp4");
    assert_eq!(
        args,
        vec![
            "-f", "concat", "-safe", "0", "-i", "/rec/segments_concat.txt", "-c", "copy", "-y",
            "/rec/screen_merged.mp4"
        ]
    );
}
