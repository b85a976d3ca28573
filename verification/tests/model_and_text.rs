use open_rec::error::AppError;
use open_rec::numtext::{
    display_micros, fact5, hundredths2, i64_to_string, micros6, millis3, millis3_signed,
    u64_to_padded, u64_to_string,
};
use open_rec::project::{AnnotationMode, Project};
use open_rec::video::{build_camera_overlay_coordinates, escape_drawtext_text};
use open_rec::project::{
    AudioMixSettings, CameraOverlayPosition, CameraOverlaySettings, ColorCorrectionSettings,
    EditDecisionList, Resolution, Segment,
};

#[test]
fn renders_fixed_point_numbers_exactly() {
    assert_eq!(u64_to_string(0), "0");
    assert_eq!(u64_to_string(1234567), "1234567");
    assert_eq!(u64_to_padded(7, 4), "0007");
    assert_eq!(i64_to_string(-250), "-250");
    assert_eq!(micros6(5_000_000), "5.000000");
    assert_eq!(micros6(5_100_000), "5.100000");
    assert_eq!(micros6(12), "0.000012");
    assert_eq!(millis3(1_500), "1.500");
    assert_eq!(millis3_signed(-500), "-0.500");
    assert_eq!(fact5(150_000), "1.50000");
    assert_eq!(hundredths2(250), "2.50");
    assert_eq!(display_micros(5_000_000), "5");
    assert_eq!(display_micros(5_250_000), "5.25");
    assert_eq!(display_micros(250_000), "0.25");
    assert_eq!(display_micros(5_100_000), "5.1");
}

#[test]
fn error_messages_carry_their_variant_prefix() {
    assert_eq!(AppError::Message("plain".to_string()).message(), "plain");
    assert_eq!(
        AppError::PermissionDenied("screen".to_string()).message(),
        "Permission denied: screen"
    );
    assert_eq!(AppError::Io("disk full".to_string()).message(), "I/O error: disk full");
    assert_eq!(AppError::Lock("poisoned".to_string()).message(), "State lock error: poisoned");
    let from_str: AppError = "wrapped".into();
    assert_eq!(from_str.message(), "wrapped");
    let from_string: AppError = String::from("owned").into();
    assert_eq!(from_string.message(), "owned");
}

#[test]
fn annotation_mode_defaults_to_outline() {
    assert!(matches!(AnnotationMode::default(), AnnotationMode::Outline));
}

#[test]
fn new_projects_carry_one_full_enabled_segment() {
    let project = Project::new(
        "abcdef1234".to_string(),
        "/rec/screen.mp4".to_string(),
        None,
        Some("/rec/mic.webm".to_string()),
        20_000_000,
        1920,
        1080,
        None,
        Some(40),
    );
    assert_eq!(project.name, "Recording abcdef12");
    assert_eq!(project.duration, 20_000_000);
    assert_eq!(project.edits.segments.len(), 1);
    let segment = &project.edits.segments[0];
    assert_eq!(segment.start_time, 0);
    assert_eq!(segment.end_time, 20_000_000);
    assert!(segment.enabled);
    assert!(project.edits.speed.is_empty());
    assert!(project.edits.zoom.is_empty());
    assert_eq!(project.edits.audio_mix.system_volume, 1000);
    assert_eq!(project.edits.camera_overlay.margin, 20);
    assert_eq!(project.edits.color_correction.contrast, 1000);
    assert_eq!(project.microphone_offset_ms, Some(40));
}

#[test]
fn escapes_the_engine_text_syntax() {
    assert_eq!(escape_drawtext_text("a:b"), "a\\:b");
    assert_eq!(escape_drawtext_text("50%, done"), "50\\%\\, done");
    assert_eq!(escape_drawtext_text("back\\slash 'quote'\nnext"), "back\\\\slash \\'quote\\'\\nnext");
    assert_eq!(escape_drawtext_text("plain"), "plain");
}

fn overlay_project(overlay: CameraOverlaySettings) -> Project {
    Project {
        id: "p".to_string(),
        name: "n".to_string(),
        created_at_ms: 0,
        screen_video_path: "/rec/screen.mp4".to_string(),
        camera_video_path: Some("/rec/camera.mp4".to_string()),
        microphone_audio_path: None,
        camera_offset_ms: None,
        microphone_offset_ms: None,
        duration: 10_000_000,
        resolution: Resolution { width: 1920, height: 1080 },
        edits: EditDecisionList {
            segments: vec![Segment {
                id: "s".to_string(),
                start_time: 0,
                end_time: 10_000_000,
                enabled: true,
            }],
            zoom: vec![],
            speed: vec![],
            annotations: vec![],
            camera_overlay: overlay,
            audio_mix: AudioMixSettings::default(),
            color_correction: ColorCorrectionSettings::default(),
        },
    }
}

#[test]
fn camera_overlay_coordinates_follow_the_corner() {
    let mut overlay = CameraOverlaySettings::default();
    overlay.margin = 16;
    overlay.position = CameraOverlayPosition::TopLeft;
    assert_eq!(build_camera_overlay_coordinates(&overlay_project(overlay.clone())), "16:16");
    overlay.position = CameraOverlayPosition::TopRight;
    assert_eq!(build_camera_overlay_coordinates(&overlay_project(overlay.clone())), "W-w-16:16");
    overlay.position = CameraOverlayPosition::BottomLeft;
    assert_eq!(build_camera_overlay_coordinates(&overlay_project(overlay.clone())), "16:H-h-16");
    overlay.position = CameraOverlayPosition::BottomRight;
    assert_eq!(build_camera_overlay_coordinates(&overlay_project(overlay.clone())), "W-w-16:H-h-16");
    overlay.position = CameraOverlayPosition::Custom;
    overlay.custom_x = 250_000;
    overlay.custom_y = 1_500_000;
    assert_eq!(
        build_camera_overlay_coordinates(&overlay_project(overlay)),
        "(W-w)*0.250000:(H-h)*1.000000"
    );
}
