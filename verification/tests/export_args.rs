use open_rec::audio::{apply_audio_offset, atempo_chain};
use open_rec::export::{
    build_ffmpeg_args, export_file_name, get_export_output_path, validate_export_inputs,
    target_video_bitrate_kbps, CompressionPreset, ExportFormat, ExportOptions, MediaProbes,
    Platform, ResolutionPreset,
};
use open_rec::project::Annotation;
use open_rec::project::AnnotationMode;
use open_rec::clock::LocalTimestamp;
use open_rec::project::{
    AudioMixSettings, CameraOverlaySettings, ColorCorrectionSettings, EditDecisionList, Project,
    Resolution, Segment, SpeedEffect,
};

fn segment(id: &str, start: u64, end: u64, enabled: bool) -> Segment {
    Segment { id: id.to_string(), start_time: start, end_time: end, enabled }
}

fn bare_project(duration: u64, segments: Vec<Segment>) -> Project {
    Project {
        id: "project-1".to_string(),
        name: "Demo Clip".to_string(),
        created_at_ms: 0,
        screen_video_path: "/rec/screen.mp4".to_string(),
        camera_video_path: None,
        microphone_audio_path: None,
        camera_offset_ms: None,
        microphone_offset_ms: None,
        duration,
        resolution: Resolution { width: 1920, height: 1080 },
        edits: EditDecisionList {
            segments,
            zoom: vec![],
            speed: vec![],
            annotations: vec![],
            camera_overlay: CameraOverlaySettings::default(),
            audio_mix: AudioMixSettings::default(),
            color_correction: ColorCorrectionSettings::default(),
        },
    }
}

fn mp4_options() -> ExportOptions {
    ExportOptions {
        format: ExportFormat::Mp4,
        frame_rate: 30,
        compression: CompressionPreset::Social,
        resolution: ResolutionPreset::P1080,
    }
}

#[test]
fn single_trimmed_segment_takes_the_seek_fast_path() {
    // one enabled segment [5, 15] of a 20 s source, nothing else
    let project = bare_project(20_000_000, vec![segment("s1", 5_000_000, 15_000_000, true)]);
    let args = build_ffmpeg_args(&project, &mp4_options(), "/out/clip.mp4", false, Platform::Other);
    assert_eq!(args[0], "-ss");
    assert_eq!(args[1], "5");
    assert_eq!(args[2], "-to");
    assert_eq!(args[3], "15");
    assert_eq!(args[4], "-i");
    assert_eq!(args[5], "/rec/screen.mp4");
    assert!(!args.iter().any(|a| a == "-filter_complex"));
    assert_eq!(args[args.len() - 2], "-y");
    assert_eq!(args[args.len() - 1], "/out/clip.mp4");
}

#[test]
fn two_segments_concatenate_two_trimmed_video_labels() {
    let project = bare_project(
        20_000_000,
        vec![
            segment("s1", 1_000_000, 5_000_000, true),
            segment("s2", 9_000_000, 14_000_000, true),
        ],
    );
    let args = build_ffmpeg_args(&project, &mp4_options(), "/out/clip.mp4", false, Platform::Other);
    let graph_at = args.iter().position(|a| a == "-filter_complex").expect("graph expected");
    let graph = &args[graph_at + 1];
    assert!(graph.contains("[vpiece0]"));
    assert!(graph.contains("[vpiece1]"));
    assert!(graph.contains("[vpiece0][vpiece1]concat=n=2:v=1:a=0[vconcat]"));
    assert!(!graph.contains("[vpiece2]"));
    assert!(args.iter().all(|a| a != "-ss"));
}

#[test]
fn speed_effect_emits_tempo_chain_and_setpts_divisor() {
    let chain = atempo_chain(3_000_000).expect("a triple speed needs a chain");
    assert_eq!(chain, "atempo=2.0,atempo=1.50000");

    let mut project = bare_project(20_000_000, vec![segment("s1", 0, 20_000_000, true)]);
    project.edits.speed = vec![SpeedEffect {
        id: "sp1".to_string(),
        start_time: 4_000_000,
        end_time: 8_000_000,
        speed: 3_000_000,
    }];
    let args = build_ffmpeg_args(&project, &mp4_options(), "/out/clip.mp4", true, Platform::Other);
    let graph_at = args.iter().position(|a| a == "-filter_complex").expect("graph expected");
    let graph = &args[graph_at + 1];
    assert!(graph.contains("setpts=(PTS-STARTPTS)/3.000000"));
    assert!(graph.contains("atempo=2.0,atempo=1.50000"));
}

#[test]
fn compiling_twice_yields_identical_argument_vectors() {
    let mut project = bare_project(
        30_000_000,
        vec![
            segment("s1", 0, 10_000_000, true),
            segment("s2", 12_000_000, 28_000_000, true),
        ],
    );
    project.edits.speed = vec![SpeedEffect {
        id: "sp1".to_string(),
        start_time: 2_000_000,
        end_time: 6_000_000,
        speed: 500_000,
    }];
    let first = build_ffmpeg_args(&project, &mp4_options(), "/out/clip.mp4", true, Platform::Other);
    let second = build_ffmpeg_args(&project, &mp4_options(), "/out/clip.mp4", true, Platform::Other);
    assert_eq!(first, second);
}

#[test]
fn untouched_full_segment_builds_no_graph() {
    let project = bare_project(20_000_000, vec![segment("s1", 0, 20_000_000, true)]);
    let args = build_ffmpeg_args(&project, &mp4_options(), "/out/clip.mp4", true, Platform::Other);
    assert!(args.iter().all(|a| a != "-filter_complex"));
    assert!(args.iter().all(|a| a != "-ss"));
    let vf_at = args.iter().position(|a| a == "-vf").expect("plain scale expected");
    assert_eq!(args[vf_at + 1], "scale=-2:1080");
    assert_eq!(args[vf_at + 2], "-map");
    assert_eq!(args[vf_at + 3], "0:v");
    assert_eq!(args[vf_at + 4], "-map");
    assert_eq!(args[vf_at + 5], "0:a?");
}

#[test]
fn software_encoder_arguments_follow_the_compression_preset() {
    let project = bare_project(20_000_000, vec![segment("s1", 0, 20_000_000, true)]);
    let mut options = mp4_options();
    options.compression = CompressionPreset::Web;
    let args = build_ffmpeg_args(&project, &options, "/out/clip.mp4", false, Platform::Other);
    let cv = args.iter().position(|a| a == "-c:v").expect("video codec expected");
    assert_eq!(args[cv + 1], "libx264");
    assert_eq!(args[cv + 2], "-crf");
    assert_eq!(args[cv + 3], "28");
    assert_eq!(args[cv + 4], "-preset");
    assert_eq!(args[cv + 5], "fast");
    assert_eq!(args[cv + 6], "-pix_fmt");
    assert_eq!(args[cv + 7], "yuv420p");
    assert_eq!(args[cv + 8], "-c:a");
    assert_eq!(args[cv + 9], "aac");
    assert_eq!(args[cv + 10], "-b:a");
    assert_eq!(args[cv + 11], "128k");
}

#[test]
fn hardware_encoder_uses_the_bitrate_table() {
    let project = bare_project(20_000_000, vec![segment("s1", 0, 20_000_000, true)]);
    let mut options = mp4_options();
    options.compression = CompressionPreset::Minimal;
    assert_eq!(target_video_bitrate_kbps(&options), 12800);
    let args = build_ffmpeg_args(&project, &options, "/out/clip.mp4", false, Platform::MacOs);
    let cv = args.iter().position(|a| a == "-c:v").expect("video codec expected");
    assert_eq!(args[cv + 1], "h264_videotoolbox");
    assert_eq!(args[cv + 2], "-b:v");
    assert_eq!(args[cv + 3], "12800k");
    assert_eq!(args[cv + 4], "-allow_sw");
    assert_eq!(args[cv + 5], "1");
}

#[test]
fn mov_export_selects_the_lossless_codecs() {
    let project = bare_project(20_000_000, vec![segment("s1", 0, 20_000_000, true)]);
    let mut options = mp4_options();
    options.format = ExportFormat::Mov;
    let args = build_ffmpeg_args(&project, &options, "/out/clip.mov", false, Platform::MacOs);
    let cv = args.iter().position(|a| a == "-c:v").expect("video codec expected");
    assert_eq!(args[cv + 1], "prores_ks");
    assert_eq!(args[cv + 2], "-profile:v");
    assert_eq!(args[cv + 3], "3");
    assert_eq!(args[cv + 4], "-pix_fmt");
    assert_eq!(args[cv + 5], "yuv422p10le");
    assert_eq!(args[cv + 6], "-c:a");
    assert_eq!(args[cv + 7], "pcm_s16le");
}

#[test]
fn gif_export_caps_frame_rate_and_height() {
    let project = bare_project(20_000_000, vec![segment("s1", 0, 20_000_000, true)]);
    let mut options = mp4_options();
    options.format = ExportFormat::Gif;
    options.frame_rate = 60;
    let args = build_ffmpeg_args(&project, &options, "/out/clip.gif", false, Platform::Other);
    let vf = args.iter().position(|a| a == "-vf").expect("plain filter expected");
    assert_eq!(
        args[vf + 1],
        "fps=30,scale=-1:720:flags=lanczos,split[s0][s1];[s0]palettegen=stats_mode=diff[p];[s1][p]paletteuse=dither=bayer:bayer_scale=5:diff_mode=rectangle"
    );
    assert!(args.iter().all(|a| a != "-c:v"));
}

#[test]
fn audio_export_trims_and_maps_the_screen_track() {
    let project = bare_project(
        20_000_000,
        vec![
            segment("s1", 2_000_000, 9_000_000, true),
            segment("s2", 12_000_000, 15_000_000, true),
        ],
    );
    let mut options = mp4_options();
    options.format = ExportFormat::Mp3;
    let args = build_ffmpeg_args(&project, &options, "/out/clip.mp3", true, Platform::Other);
    assert_eq!(args[0], "-i");
    let vn = args.iter().position(|a| a == "-vn").expect("audio-only flag expected");
    assert_eq!(args[vn + 1], "-c:a");
    assert_eq!(args[vn + 2], "libmp3lame");
    assert_eq!(args[vn + 3], "-b:a");
    assert_eq!(args[vn + 4], "192k");
    let graph_at = args.iter().position(|a| a == "-filter_complex").expect("graph expected");
    let graph = &args[graph_at + 1];
    assert!(graph.contains("[0:a]atrim=start=2.000000:end=9.000000,asetpts=PTS-STARTPTS[ascreen0]"));
    assert!(graph.contains("[0:a]atrim=start=12.000000:end=15.000000,asetpts=PTS-STARTPTS[ascreen1]"));
    assert!(graph.contains("[ascreen0][ascreen1]concat=n=2:v=0:a=1[ascreenout]"));
    assert_eq!(args[graph_at + 2], "-map");
    assert_eq!(args[graph_at + 3], "[ascreenout]");
}

#[test]
fn validation_rejects_each_broken_input() {
    let project = bare_project(20_000_000, vec![segment("s1", 0, 20_000_000, true)]);
    let options = mp4_options();
    let all_present = MediaProbes {
        screen_file_exists: true,
        camera_file_exists: true,
        microphone_file_exists: true,
        screen_has_audio: true,
    };

    assert!(validate_export_inputs(&project, &options, &all_present).is_ok());

    let missing_screen = MediaProbes { screen_file_exists: false, ..all_present };
    let error = validate_export_inputs(&project, &options, &missing_screen).unwrap_err();
    assert_eq!(error.message(), "Screen recording file does not exist: /rec/screen.mp4");

    let mut with_camera = bare_project(20_000_000, vec![segment("s1", 0, 20_000_000, true)]);
    with_camera.camera_video_path = Some("/rec/camera.mp4".to_string());
    let missing_camera = MediaProbes { camera_file_exists: false, ..all_present };
    let error = validate_export_inputs(&with_camera, &options, &missing_camera).unwrap_err();
    assert_eq!(error.message(), "Camera recording file does not exist: /rec/camera.mp4");

    let mut with_mic = bare_project(20_000_000, vec![segment("s1", 0, 20_000_000, true)]);
    with_mic.microphone_audio_path = Some("/rec/mic.webm".to_string());
    let missing_mic = MediaProbes { microphone_file_exists: false, ..all_present };
    let error = validate_export_inputs(&with_mic, &options, &missing_mic).unwrap_err();
    assert_eq!(error.message(), "Microphone recording file does not exist: /rec/mic.webm");

    let disabled = bare_project(20_000_000, vec![segment("s1", 0, 20_000_000, false)]);
    let error = validate_export_inputs(&disabled, &options, &all_present).unwrap_err();
    assert_eq!(error.message(), "No enabled timeline segments to export");

    let mut audio_options = mp4_options();
    audio_options.format = ExportFormat::Wav;
    let no_audio = MediaProbes { screen_has_audio: false, ..all_present };
    let error = validate_export_inputs(&project, &audio_options, &no_audio).unwrap_err();
    assert_eq!(
        error.message(),
        "Audio export requires at least one audio source (system or microphone)"
    );
}

#[test]
fn tempo_chain_handles_slowdowns_and_noops() {
    assert_eq!(atempo_chain(1_000_000), None);
    assert_eq!(atempo_chain(1_005_000), None);
    assert_eq!(atempo_chain(0), None);
    assert_eq!(atempo_chain(250_000).expect("quarter speed"), "atempo=0.5,atempo=0.50000");
    assert_eq!(atempo_chain(5_000_000).expect("five-fold speed"), "atempo=2.0,atempo=2.0,atempo=1.25000");
    assert_eq!(atempo_chain(1_500_000).expect("one and a half"), "atempo=1.50000");
}

#[test]
fn export_file_name_is_sanitized_and_stamped() {
    let mut project = bare_project(20_000_000, vec![segment("s1", 0, 20_000_000, true)]);
    project.name = "My: Great/Clip?".to_string();
    let t = LocalTimestamp { year: 2024, month: 3, day: 7, hour: 9, minute: 5, second: 42 };
    let options = mp4_options();
    assert_eq!(export_file_name(&project, &options, &t), "My__Great_Clip__20240307_090542_1080p.mp4");
    let mut audio_options = mp4_options();
    audio_options.format = ExportFormat::Wav;
    assert_eq!(
        export_file_name(&project, &audio_options, &t),
        "My__Great_Clip__20240307_090542_audio.wav"
    );
}

#[test]
fn microphone_runs_through_offset_highpass_and_mix() {
    let mut project = bare_project(20_000_000, vec![segment("s1", 0, 20_000_000, true)]);
    project.microphone_audio_path = Some("/rec/mic.webm".to_string());
    project.microphone_offset_ms = Some(-250);
    project.edits.audio_mix.microphone_volume = 1500;
    let args = build_ffmpeg_args(&project, &mp4_options(), "/out/clip.mp4", true, Platform::Other);
    let graph_at = args.iter().position(|a| a == "-filter_complex").expect("graph expected");
    let graph = &args[graph_at + 1];
    assert!(graph.contains("[1:a]atrim=start=0.250000,asetpts=PTS-STARTPTS[amicoffset]"));
    assert!(graph.contains("highpass=f=80[amicclean]"));
    assert!(graph.contains("[amicclean]volume=1.500[amicvol]"));
    assert!(graph.contains(
        "[ascreenvol][amicvol]sidechaincompress=threshold=0.025:ratio=8:attack=20:release=300[aducked]"
    ) || graph.contains(
        "[0:a][amicvol]sidechaincompress=threshold=0.025:ratio=8:attack=20:release=300[aducked]"
    ));
    assert!(graph.contains("amix=inputs=2:duration=longest:dropout_transition=0[aout]"));
    let map_at = args.iter().rposition(|a| a == "-map").expect("audio map expected");
    assert_eq!(args[map_at + 1], "[aout]");
}

#[test]
fn positive_offset_delays_both_channels() {
    let (filters, label) = apply_audio_offset("[1:a]", 120, "amic");
    assert_eq!(filters, vec!["[1:a]adelay=120|120[amicoffset]".to_string()]);
    assert_eq!(label, "[amicoffset]");

    let (filters, label) = apply_audio_offset("[1:a]", 0, "amic");
    assert!(filters.is_empty());
    assert_eq!(label, "[1:a]");
}

#[test]
fn default_output_path_lands_in_the_requested_directory() {
    let project = bare_project(20_000_000, vec![segment("s1", 0, 20_000_000, true)]);
    let path = get_export_output_path(&project, &mp4_options(), "/downloads");
    assert!(path.starts_with("/downloads/Demo_Clip_"));
    assert!(path.ends_with("_1080p.mp4"));
    let path = get_export_output_path(&project, &mp4_options(), "/downloads/");
    assert!(path.starts_with("/downloads/Demo_Clip_"));
}

#[test]
fn annotations_draw_boxes_and_text_in_order() {
    let mut project = bare_project(20_000_000, vec![segment("s1", 0, 20_000_000, true)]);
    project.edits.annotations = vec![
        Annotation {
            id: "a0".to_string(),
            start_time: 1_000_000,
            end_time: 1_005_000,
            x: 0,
            y: 0,
            width: 500_000,
            height: 500_000,
            color: "red".to_string(),
            opacity: 500,
            thickness: 2,
            text: None,
            mode: AnnotationMode::Outline,
        },
        Annotation {
            id: "a1".to_string(),
            start_time: 2_000_000,
            end_time: 6_000_000,
            x: 250_000,
            y: 250_000,
            width: 500_000,
            height: 400_000,
            color: "#ff 00 00".to_string(),
            opacity: 800,
            thickness: 0,
            text: Some("  50%, off  ".to_string()),
            mode: AnnotationMode::Outline,
        },
    ];
    let args = build_ffmpeg_args(&project, &mp4_options(), "/out/clip.mp4", false, Platform::Other);
    let graph_at = args.iter().position(|a| a == "-filter_complex").expect("graph expected");
    let graph = &args[graph_at + 1];
    // the first annotation is too short to draw; the second keeps its list index
    assert!(!graph.contains("[vannot0]"));
    assert!(graph.contains(
        "[0:v]drawbox=x=iw*0.250000:y=ih*0.250000:w=iw*0.500000:h=ih*0.400000:color=#ff0000@0.800:t=1:enable='between(t,2.000000,6.000000)'[vannot1]"
    ));
    assert!(graph.contains("[vannot1]drawtext=text='50\\%\\, off'"));
    assert!(graph.contains("[vannottxt1]"));
    assert!(graph.contains("[vannottxt1]scale=-2:1080[vout]"));
}

#[test]
fn gif_with_camera_overlays_before_the_palette() {
    let mut project = bare_project(20_000_000, vec![segment("s1", 0, 20_000_000, true)]);
    project.camera_video_path = Some("/rec/camera.mp4".to_string());
    let mut options = mp4_options();
    options.format = ExportFormat::Gif;
    let args = build_ffmpeg_args(&project, &options, "/out/clip.gif", false, Platform::Other);
    assert_eq!(args[0], "-i");
    assert_eq!(args[1], "/rec/screen.mp4");
    assert_eq!(args[2], "-i");
    assert_eq!(args[3], "/rec/camera.mp4");
    let graph_at = args.iter().position(|a| a == "-filter_complex").expect("graph expected");
    let graph = &args[graph_at + 1];
    assert!(graph.starts_with("[1:v]scale=iw*0.25:ih*0.25[cam];[0:v][cam]overlay=W-w-20:H-h-20,fps=30,scale=-1:720:flags=lanczos"));
}
