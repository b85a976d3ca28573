use open_rec::capture::{
    list_capture_sources, make_even_dimension, resolve_display_fallback_index,
    resolve_window_fallback_id, SourceType,
};
use open_rec::project::{
    AudioMixSettings, CameraOverlaySettings, ColorCorrectionSettings, EditDecisionList, Project,
    Resolution, Segment, SpeedEffect, ZoomEffect,
};
use open_rec::timeline::{build_timeline_pieces, enabled_segments, timeline_is_edited};

fn segment(id: &str, start: u64, end: u64, enabled: bool) -> Segment {
    Segment { id: id.to_string(), start_time: start, end_time: end, enabled }
}

fn project_with(segments: Vec<Segment>, speed: Vec<SpeedEffect>, zoom: Vec<ZoomEffect>) -> Project {
    Project {
        id: "project-1".to_string(),
        name: "Demo".to_string(),
        created_at_ms: 0,
        screen_video_path: "/rec/screen.mp4".to_string(),
        camera_video_path: None,
        microphone_audio_path: None,
        camera_offset_ms: None,
        microphone_offset_ms: None,
        duration: 20_000_000,
        resolution: Resolution { width: 1920, height: 1080 },
        edits: EditDecisionList {
            segments,
            zoom,
            speed,
            annotations: vec![],
            camera_overlay: CameraOverlaySettings::default(),
            audio_mix: AudioMixSettings::default(),
            color_correction: ColorCorrectionSettings::default(),
        },
    }
}

#[test]
fn resolves_display_fallback_index_from_preferred_ordinal() {
    assert_eq!(resolve_display_fallback_index(3, Some(2)), 2);
    assert_eq!(resolve_display_fallback_index(3, Some(99)), 0);
    assert_eq!(resolve_display_fallback_index(3, None), 0);
    assert_eq!(resolve_display_fallback_index(0, Some(1)), 0);
}

#[test]
fn resolves_window_fallback_id_from_available_sources() {
    assert_eq!(resolve_window_fallback_id(12, &vec![12, 44, 7]), Some((12, false)));
    assert_eq!(resolve_window_fallback_id(99, &vec![12, 44, 7]), Some((7, true)));
    assert_eq!(resolve_window_fallback_id(99, &vec![]), None);
}

#[test]
fn capture_backend_is_absent_on_this_host() {
    let error = list_capture_sources(SourceType::Display).unwrap_err();
    assert_eq!(error.message(), "Screen capture is only supported on macOS");
}

#[test]
fn rounds_capture_dimensions_to_even() {
    assert_eq!(make_even_dimension(1921), 1920);
    assert_eq!(make_even_dimension(1080), 1080);
    assert_eq!(make_even_dimension(0), 2);
    assert_eq!(make_even_dimension(3), 2);
}

#[test]
fn enabled_segments_are_sorted_and_padded() {
    let project = project_with(
        vec![
            segment("b", 9_000_000, 14_000_000, true),
            segment("a", 1_000_000, 5_000_000, true),
            segment("c", 6_000_000, 7_000_000, false),
        ],
        vec![],
        vec![],
    );
    let segments = enabled_segments(&project);
    assert_eq!(segments, vec![(1_000_000, 5_000_000), (9_000_000, 14_000_000)]);

    let none_enabled = project_with(vec![segment("a", 1, 2, false)], vec![], vec![]);
    assert_eq!(enabled_segments(&none_enabled), vec![(0, 20_000_000)]);
}

#[test]
fn pieces_tile_each_enabled_segment() {
    let project = project_with(
        vec![
            segment("a", 1_000_000, 5_000_000, true),
            segment("b", 9_000_000, 14_000_000, true),
        ],
        vec![SpeedEffect {
            id: "sp".to_string(),
            start_time: 2_000_000,
            end_time: 4_000_000,
            speed: 2_000_000,
        }],
        vec![],
    );
    let pieces = build_timeline_pieces(&project);
    assert_eq!(pieces.len(), 4);
    assert_eq!((pieces[0].start, pieces[0].end, pieces[0].speed), (1_000_000, 2_000_000, 1_000_000));
    assert_eq!((pieces[1].start, pieces[1].end, pieces[1].speed), (2_000_000, 4_000_000, 2_000_000));
    assert_eq!((pieces[2].start, pieces[2].end, pieces[2].speed), (4_000_000, 5_000_000, 1_000_000));
    assert_eq!((pieces[3].start, pieces[3].end, pieces[3].speed), (9_000_000, 14_000_000, 1_000_000));
    // the pieces of each segment sum to its duration, with no gaps
    assert_eq!(pieces[0].end, pieces[1].start);
    assert_eq!(pieces[1].end, pieces[2].start);
    let first_segment_total: u64 =
        pieces[..3].iter().map(|piece| piece.end - piece.start).sum();
    assert_eq!(first_segment_total, 4_000_000);
}

#[test]
fn first_listed_effect_wins_overlaps() {
    let project = project_with(
        vec![segment("a", 0, 10_000_000, true)],
        vec![
            SpeedEffect {
                id: "first".to_string(),
                start_time: 1_000_000,
                end_time: 6_000_000,
                speed: 2_000_000,
            },
            SpeedEffect {
                id: "second".to_string(),
                start_time: 1_000_000,
                end_time: 6_000_000,
                speed: 3_000_000,
            },
        ],
        vec![],
    );
    let pieces = build_timeline_pieces(&project);
    assert!(pieces.iter().any(|piece| piece.speed == 2_000_000));
    assert!(pieces.iter().all(|piece| piece.speed != 3_000_000));
}

#[test]
fn sub_unit_zoom_scale_is_ignored() {
    let project = project_with(
        vec![segment("a", 0, 10_000_000, true)],
        vec![],
        vec![ZoomEffect {
            id: "z".to_string(),
            start_time: 2_000_000,
            end_time: 4_000_000,
            scale: 900_000,
            x: 0,
            y: 0,
        }],
    );
    let pieces = build_timeline_pieces(&project);
    assert!(pieces.iter().all(|piece| piece.zoom.is_none()));
}

#[test]
fn empty_piece_list_falls_back_to_the_full_recording() {
    let project = project_with(vec![segment("a", 3_000_000, 3_000_000, true)], vec![], vec![]);
    let pieces = build_timeline_pieces(&project);
    assert_eq!(pieces.len(), 1);
    assert_eq!((pieces[0].start, pieces[0].end, pieces[0].speed), (0, 20_000_000, 1_000_000));
}

#[test]
fn edit_detection_tolerates_only_the_untrimmed_unit_piece() {
    let untouched = project_with(vec![segment("a", 0, 20_000_000, true)], vec![], vec![]);
    let pieces = build_timeline_pieces(&untouched);
    assert!(!timeline_is_edited(&untouched, &pieces));

    let trimmed = project_with(vec![segment("a", 5_000_000, 15_000_000, true)], vec![], vec![]);
    let pieces = build_timeline_pieces(&trimmed);
    assert!(timeline_is_edited(&trimmed, &pieces));

    let sped = project_with(
        vec![segment("a", 0, 20_000_000, true)],
        vec![SpeedEffect {
            id: "sp".to_string(),
            start_time: 0,
            end_time: 20_000_000,
            speed: 1_200_000,
        }],
        vec![],
    );
    let pieces = build_timeline_pieces(&sped);
    assert!(timeline_is_edited(&sped, &pieces));
}

#[test]
fn activating_zoom_wins_over_an_earlier_inactive_one() {
    // a unit-scale zoom listed first must not shadow the activating one
    let project = project_with(
        vec![segment("a", 0, 10_000_000, true)],
        vec![],
        vec![
            ZoomEffect {
                id: "flat".to_string(),
                start_time: 0,
                end_time: 10_000_000,
                scale: 1_000_000,
                x: 0,
                y: 0,
            },
            ZoomEffect {
                id: "double".to_string(),
                start_time: 0,
                end_time: 10_000_000,
                scale: 2_000_000,
                x: 5_000,
                y: -5_000,
            },
        ],
    );
    let pieces = build_timeline_pieces(&project);
    assert_eq!(pieces.len(), 1);
    let zoom = pieces[0].zoom.as_ref().expect("the activating zoom should be picked");
    assert_eq!(zoom.scale, 2_000_000);
    assert_eq!((zoom.x, zoom.y), (5_000, -5_000));
}
