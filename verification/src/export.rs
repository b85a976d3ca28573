//! The command assembler: export options, pre-flight validation, the
//! fast container-level seek path, the full filter-graph path, codec
//! and container selection, stream mapping, and the final ordered
//! argument vector for the external media engine.

use vstd::prelude::*;
use vstd::string::*;
use crate::error::AppError;
use crate::project::Project;
use crate::text::{views, push_str_arg, push_string_arg, append_args, push_char};
use crate::numtext::{spec_dec, u64_to_string, spec_display_micros, display_micros};

verus! {

/// Export options from the frontend.
#[derive(Debug, Clone)]
pub struct ExportOptions {
    pub format: ExportFormat,
    pub frame_rate: u32,
    pub compression: CompressionPreset,
    pub resolution: ResolutionPreset,
}

#[derive(Debug, Clone, Copy, PartialEq, Eq, Structural)]
pub enum ExportFormat {
    Mp4,
    Gif,
    Mov,
    Wav,
    Mp3,
}

#[derive(Debug, Clone, Copy, PartialEq, Eq, Structural)]
pub enum CompressionPreset {
    Minimal,
    Social,
    Web,
    Potato,
}

#[derive(Debug, Clone, Copy, PartialEq, Eq, Structural)]
pub enum ResolutionPreset {
    P720,
    P1080,
    P4K,
}

/// Which video encoder family the host offers: the hardware encoder of
/// the Mac platform, or the portable software encoder elsewhere.
#[derive(Debug, Clone, Copy, PartialEq, Eq, Structural)]
pub enum Platform {
    MacOs,
    Other,
}

/// The constant-rate-factor for each compression preset.
pub open spec fn spec_crf(c: CompressionPreset) -> u32 {
    match c {
        CompressionPreset::Minimal => 18,
        CompressionPreset::Social => 23,
        CompressionPreset::Web => 28,
        CompressionPreset::Potato => 35,
    }
}

/// The encoder speed preset for each compression preset.
pub open spec fn spec_preset(c: CompressionPreset) -> Seq<char> {
    match c {
        CompressionPreset::Minimal => "slow"@,
        CompressionPreset::Social => "medium"@,
        CompressionPreset::Web => "fast"@,
        CompressionPreset::Potato => "veryfast"@,
    }
}

/// The audio bitrate in kbps for each compression preset.
pub open spec fn spec_audio_bitrate(c: CompressionPreset) -> u32 {
    match c {
        CompressionPreset::Minimal => 320,
        CompressionPreset::Social => 192,
        CompressionPreset::Web => 128,
        CompressionPreset::Potato => 96,
    }
}

/// The target output height for each resolution preset.
pub open spec fn spec_height(r: ResolutionPreset) -> u32 {
    match r {
        ResolutionPreset::P720 => 720,
        ResolutionPreset::P1080 => 1080,
        ResolutionPreset::P4K => 2160,
    }
}

/// The file-name label of each resolution preset.
pub open spec fn spec_resolution_label(r: ResolutionPreset) -> Seq<char> {
    match r {
        ResolutionPreset::P720 => "720p"@,
        ResolutionPreset::P1080 => "1080p"@,
        ResolutionPreset::P4K => "4k"@,
    }
}

impl CompressionPreset {
    /// Get CRF value for H.264 encoding.
    pub fn crf(&self) -> (r: u32)
        ensures
            r == spec_crf(*self),
    {
        match self {
            CompressionPreset::Minimal => 18,
            CompressionPreset::Social => 23,
            CompressionPreset::Web => 28,
            CompressionPreset::Potato => 35,
        }
    }

    /// Get encoding preset (speed vs quality tradeoff).
    pub fn preset(&self) -> (r: &'static str)
        ensures
            r@ == spec_preset(*self),
    {
        match self {
            CompressionPreset::Minimal => "slow",
            CompressionPreset::Social => "medium",
            CompressionPreset::Web => "fast",
            CompressionPreset::Potato => "veryfast",
        }
    }

    /// Get audio bitrate in kbps.
    pub fn audio_bitrate(&self) -> (r: u32)
        ensures
            r == spec_audio_bitrate(*self),
    {
        match self {
            CompressionPreset::Minimal => 320,
            CompressionPreset::Social => 192,
            CompressionPreset::Web => 128,
            CompressionPreset::Potato => 96,
        }
    }
}

impl ResolutionPreset {
    /// Get target height.
    pub fn height(&self) -> (r: u32)
        ensures
            r == spec_height(*self),
    {
        match self {
            ResolutionPreset::P720 => 720,
            ResolutionPreset::P1080 => 1080,
            ResolutionPreset::P4K => 2160,
        }
    }

    /// The label used in export file names.
    pub fn label(&self) -> (r: &'static str)
        ensures
            r@ == spec_resolution_label(*self),
    {
        match self {
            ResolutionPreset::P720 => "720p",
            ResolutionPreset::P1080 => "1080p",
            ResolutionPreset::P4K => "4k",
        }
    }
}

/// The target video bitrate in kbps: a per-resolution base scaled by a
/// per-preset factor, tabulated exactly.
pub open spec fn spec_target_video_bitrate_kbps(o: ExportOptions) -> u32 {
    match o.resolution {
        ResolutionPreset::P720 => match o.compression {
            CompressionPreset::Minimal => 8000,
            CompressionPreset::Social => 5000,
            CompressionPreset::Web => 3600,
            CompressionPreset::Potato => 2500,
        },
        ResolutionPreset::P1080 => match o.compression {
            CompressionPreset::Minimal => 12800,
            CompressionPreset::Social => 8000,
            CompressionPreset::Web => 5760,
            CompressionPreset::Potato => 4000,
        },
        ResolutionPreset::P4K => match o.compression {
            CompressionPreset::Minimal => 38400,
            CompressionPreset::Social => 24000,
            CompressionPreset::Web => 17280,
            CompressionPreset::Potato => 12000,
        },
    }
}

/// The bitrate target for the hardware encoder: a base of 5000, 8000 or
/// 24000 kbps by resolution, scaled by 1.6, 1.0, 0.72 or 0.5 by preset
/// (every product is exact).
pub fn target_video_bitrate_kbps(options: &ExportOptions) -> (r: u32)
    ensures
        r == spec_target_video_bitrate_kbps(*options),
{
    match options.resolution {
        ResolutionPreset::P720 => match options.compression {
            CompressionPreset::Minimal => 8000,
            CompressionPreset::Social => 5000,
            CompressionPreset::Web => 3600,
            CompressionPreset::Potato => 2500,
        },
        ResolutionPreset::P1080 => match options.compression {
            CompressionPreset::Minimal => 12800,
            CompressionPreset::Social => 8000,
            CompressionPreset::Web => 5760,
            CompressionPreset::Potato => 4000,
        },
        ResolutionPreset::P4K => match options.compression {
            CompressionPreset::Minimal => 38400,
            CompressionPreset::Social => 24000,
            CompressionPreset::Web => 17280,
            CompressionPreset::Potato => 12000,
        },
    }
}

// ---------------------------------------------------------------------
// Pre-flight validation.
// ---------------------------------------------------------------------

/// What the caller has established about the media files on disk: the
/// compiler itself does no I/O, so existence and the audio-stream probe
/// come in as plain facts.
#[derive(Debug, Clone, Copy)]
pub struct MediaProbes {
    pub screen_file_exists: bool,
    /// Meaningful only when the project references a camera file.
    pub camera_file_exists: bool,
    /// Meaningful only when the project references a microphone file.
    pub microphone_file_exists: bool,
    /// Whether the screen recording holds an audio stream (a failed
    /// probe counts as no audio).
    pub screen_has_audio: bool,
}

/// Whether any segment of the list is enabled.
pub open spec fn spec_any_enabled(p: Project) -> bool {
    exists|i: int| 0 <= i < p.edits.segments@.len() && p.edits.segments@[i].enabled
}

/// The message validation fails with, `None` when the export may
/// proceed: a missing screen, camera or microphone file, no enabled
/// segment, or an audio-only export without any audio source.
pub open spec fn spec_validation_error(p: Project, o: ExportOptions, probes: MediaProbes) -> Option<
    Seq<char>,
> {
    if !probes.screen_file_exists {
        Some("Screen recording file does not exist: "@ + p.screen_video_path@)
    } else if p.camera_video_path is Some && !probes.camera_file_exists {
        Some("Camera recording file does not exist: "@ + p.camera_video_path.unwrap()@)
    } else if p.microphone_audio_path is Some && !probes.microphone_file_exists {
        Some("Microphone recording file does not exist: "@ + p.microphone_audio_path.unwrap()@)
    } else if !spec_any_enabled(p) {
        Some("No enabled timeline segments to export"@)
    } else if (o.format is Wav || o.format is Mp3) && !probes.screen_has_audio && !(
    p.microphone_audio_path is Some && probes.microphone_file_exists) {
        Some("Audio export requires at least one audio source (system or microphone)"@)
    } else {
        None
    }
}

/// Rejects an export whose inputs cannot work, with the exact message
/// of [`spec_validation_error`]; accepts exactly when that is `None`.
pub fn validate_export_inputs(project: &Project, options: &ExportOptions, probes: &MediaProbes) -> (
    r: Result<(), AppError>)
    ensures
        r is Ok <==> spec_validation_error(*project, *options, *probes) is None,
        r matches Err(e) ==> e matches AppError::Message(m) && m@ == spec_validation_error(
            *project,
            *options,
            *probes,
        ).unwrap(),
{
    if !probes.screen_file_exists {
        let mut m = String::from_str("Screen recording file does not exist: ");
        m.append(project.screen_video_path.as_str());
        return Err(AppError::Message(m));
    }
    match &project.camera_video_path {
        Some(path) => {
            if !probes.camera_file_exists {
                let mut m = String::from_str("Camera recording file does not exist: ");
                m.append(path.as_str());
                return Err(AppError::Message(m));
            }
        },
        None => {},
    }
    match &project.microphone_audio_path {
        Some(path) => {
            if !probes.microphone_file_exists {
                let mut m = String::from_str("Microphone recording file does not exist: ");
                m.append(path.as_str());
                return Err(AppError::Message(m));
            }
        },
        None => {},
    }
    let mut any_enabled = false;
    let mut i: usize = 0;
    while i < project.edits.segments.len()
        invariant
            i <= project.edits.segments@.len(),
            any_enabled == exists|k: int|
                0 <= k < i && project.edits.segments@[k].enabled,
        decreases project.edits.segments.len() - i,
    {
        if project.edits.segments[i].enabled {
            any_enabled = true;
        }
        i = i + 1;
    }
    if !any_enabled {
        return Err(AppError::Message(String::from_str("No enabled timeline segments to export")));
    }
    let audio_only = match options.format {
        ExportFormat::Wav => true,
        ExportFormat::Mp3 => true,
        _ => false,
    };
    if audio_only {
        let has_microphone_audio = match &project.microphone_audio_path {
            Some(_) => probes.microphone_file_exists,
            None => false,
        };
        if !probes.screen_has_audio && !has_microphone_audio {
            return Err(
                AppError::Message(
                    String::from_str(
                        "Audio export requires at least one audio source (system or microphone)",
                    ),
                ),
            );
        }
    }
    Ok(())
}

// ---------------------------------------------------------------------
// The argument vector, stage by stage.
// ---------------------------------------------------------------------

/// The input index of the microphone stream, after the screen (0) and
/// the optional camera (1).
pub open spec fn spec_mic_index(p: Project) -> Option<nat> {
    if p.microphone_audio_path is Some {
        if p.camera_video_path is Some {
            Some(2nat)
        } else {
            Some(1nat)
        }
    } else {
        None
    }
}

/// Whether the pieces edit the recording beyond a plain trim: more
/// than one piece, a non-unit speed, or a zoom.
pub open spec fn spec_edited_beyond_trim(pieces: Seq<crate::timeline::TimelinePiece>) -> bool {
    ||| pieces.len() != 1
    ||| pieces[0].speed > 1010000
    ||| pieces[0].speed + 10000 < 1000000
    ||| pieces[0].zoom is Some
}

/// The fast path: container-level seeking replaces the filter graph
/// when there is no camera and no microphone, exactly one enabled
/// segment that is a strict sub-range of the recording, no edit beyond
/// that trim, and no zoom effect at all.
pub open spec fn spec_use_input_seeking(p: Project) -> bool {
    let segs = crate::timeline::spec_enabled_segments(p);
    &&& p.camera_video_path is None
    &&& p.microphone_audio_path is None
    &&& segs.len() == 1
    &&& (segs[0].0 > 0 || segs[0].1 < p.duration)
    &&& !spec_edited_beyond_trim(crate::timeline::spec_timeline_pieces(p))
    &&& p.edits.zoom@.len() == 0
}

/// The seek arguments placed before the input on the fast path.
pub open spec fn spec_seek_args(p: Project) -> Seq<Seq<char>> {
    if spec_use_input_seeking(p) {
        seq![
            "-ss"@,
            spec_display_micros(crate::timeline::spec_enabled_segments(p)[0].0 as nat),
            "-to"@,
            spec_display_micros(crate::timeline::spec_enabled_segments(p)[0].1 as nat),
        ]
    } else {
        Seq::<Seq<char>>::empty()
    }
}

/// The input-file arguments: screen, then camera and microphone when
/// present.
pub open spec fn spec_input_args(p: Project) -> Seq<Seq<char>> {
    seq!["-i"@, p.screen_video_path@] + (match p.camera_video_path {
        Some(c) => seq!["-i"@, c@],
        None => Seq::<Seq<char>>::empty(),
    }) + (match p.microphone_audio_path {
        Some(m) => seq!["-i"@, m@],
        None => Seq::<Seq<char>>::empty(),
    })
}

/// The per-piece video filters and the label they leave the video on;
/// the raw stream when the fast path runs or nothing is edited.
pub open spec fn spec_video_stage(p: Project) -> (Seq<Seq<char>>, Seq<char>) {
    let pieces = crate::timeline::spec_timeline_pieces(p);
    if !spec_use_input_seeking(p) && crate::timeline::spec_timeline_is_edited(p.duration, pieces) {
        (
            crate::video::spec_video_timeline_filters(pieces, p.resolution.width, p.resolution.height),
            crate::video::spec_video_timeline_label(pieces),
        )
    } else {
        (Seq::<Seq<char>>::empty(), "[0:v]"@)
    }
}

/// The camera scale factor, clamped to at least a tenth.
pub open spec fn spec_camera_scale(p: Project) -> u64 {
    if p.edits.camera_overlay.scale < 100000 {
        100000
    } else {
        p.edits.camera_overlay.scale
    }
}

/// The `scale=iw*f:ih*f` fragment of the camera branch.
pub open spec fn spec_camera_scale_filter(p: Project) -> Seq<char> {
    "scale=iw*"@ + spec_display_micros(spec_camera_scale(p) as nat) + ":ih*"@
        + spec_display_micros(spec_camera_scale(p) as nat)
}

/// The node preparing the camera stream: align it by the configured
/// clock offset (delay forward, or trim from the start) and scale it.
pub open spec fn spec_camera_setup_filter(p: Project) -> Seq<char> {
    let off = match p.camera_offset_ms {
        Some(v) => v,
        None => 0,
    };
    if off > 0 {
        "[1:v]setpts=PTS+"@ + crate::numtext::spec_micros6((off * 1000) as nat) + "/TB,"@
            + spec_camera_scale_filter(p) + "[cam]"@
    } else if off < 0 {
        "[1:v]trim=start="@ + crate::numtext::spec_micros6((-off * 1000) as nat)
            + ",setpts=PTS-STARTPTS,"@ + spec_camera_scale_filter(p) + "[cam]"@
    } else {
        "[1:v]"@ + spec_camera_scale_filter(p) + "[cam]"@
    }
}

/// The camera stage: prepare the camera stream and overlay it onto the
/// current video label.
pub open spec fn spec_camera_stage(p: Project, cur: Seq<char>) -> (Seq<Seq<char>>, Seq<char>) {
    if p.camera_video_path is Some {
        (
            seq![
                spec_camera_setup_filter(p),
                cur + "[cam]"@ + "overlay="@ + crate::video::spec_camera_overlay_coordinates(p)
                    + "[vwithcam]"@,
            ],
            "[vwithcam]"@,
        )
    } else {
        (Seq::<Seq<char>>::empty(), cur)
    }
}

/// The screen-audio stage: the trimmed and tempo-adjusted timeline
/// (skipped on the fast path, where the container seek already trims),
/// then the system gain.
pub open spec fn spec_screen_audio_stage(p: Project, screen_has_audio: bool) -> (
    Seq<Seq<char>>,
    Option<Seq<char>>,
) {
    if screen_has_audio {
        let pieces = crate::timeline::spec_timeline_pieces(p);
        let fs = if spec_use_input_seeking(p) {
            Seq::<Seq<char>>::empty()
        } else {
            crate::audio::spec_audio_timeline_filters("[0:a]"@, pieces, "ascreen"@)
        };
        let lab = if spec_use_input_seeking(p) {
            "[0:a]"@
        } else {
            crate::audio::spec_audio_timeline_label("[0:a]"@, pieces, "ascreen"@)
        };
        let vol = p.edits.audio_mix.system_volume;
        if crate::audio::spec_gain_skipped(vol) {
            (fs, Some(lab))
        } else {
            (
                fs.push(crate::audio::spec_gain_filter(lab, vol, "ascreenvol"@)),
                Some("["@ + "ascreenvol"@ + "]"@),
            )
        }
    } else {
        (Seq::<Seq<char>>::empty(), None)
    }
}

/// The microphone stage: clock offset, timeline, high-pass cut below
/// 80 Hz, then the microphone gain.
pub open spec fn spec_mic_audio_stage(p: Project) -> (Seq<Seq<char>>, Option<Seq<char>>) {
    match spec_mic_index(p) {
        None => (Seq::<Seq<char>>::empty(), None),
        Some(idx) => {
            let pieces = crate::timeline::spec_timeline_pieces(p);
            let input = "["@ + spec_dec(idx) + ":a]"@;
            let off = match p.microphone_offset_ms {
                Some(v) => v,
                None => 0,
            };
            let ofs = if off == 0 {
                Seq::<Seq<char>>::empty()
            } else {
                seq![crate::audio::spec_offset_filter(input, off, "amic"@)]
            };
            let olab = if off == 0 {
                input
            } else {
                crate::audio::spec_offset_label("amic"@)
            };
            let tfs = crate::audio::spec_audio_timeline_filters(olab, pieces, "amicpiece"@);
            let tlab = crate::audio::spec_audio_timeline_label(olab, pieces, "amicpiece"@);
            let hp = tlab + "highpass=f=80"@ + "[amicclean]"@;
            let vol = p.edits.audio_mix.microphone_volume;
            if crate::audio::spec_gain_skipped(vol) {
                (ofs + tfs + seq![hp], Some("[amicclean]"@))
            } else {
                (
                    ofs + tfs + seq![
                        hp,
                        crate::audio::spec_gain_filter("[amicclean]"@, vol, "amicvol"@),
                    ],
                    Some("["@ + "amicvol"@ + "]"@),
                )
            }
        },
    }
}

/// The ducking-and-mix stage: when both tracks exist, the microphone
/// side-chain compresses the system track, and the two are mixed.
pub open spec fn spec_audio_mix_stage(screen: Option<Seq<char>>, mic: Option<Seq<char>>) -> (
    Seq<Seq<char>>,
    Option<Seq<char>>,
) {
    match (screen, mic) {
        (Some(s), Some(m)) => (
            seq![
                s + m + "sidechaincompress=threshold=0.025:ratio=8:attack=20:release=300"@
                    + "[aducked]"@,
                "[aducked]"@ + m + "amix=inputs=2:duration=longest:dropout_transition=0"@
                    + "[aout]"@,
            ],
            Some("[aout]"@),
        ),
        (Some(s), None) => (Seq::<Seq<char>>::empty(), Some(s)),
        (None, Some(m)) => (Seq::<Seq<char>>::empty(), Some(m)),
        (None, None) => (Seq::<Seq<char>>::empty(), None),
    }
}

/// All filter nodes of the graph path, in emission order, before the
/// final scale node.
pub open spec fn spec_graph_filters(p: Project, screen_has_audio: bool) -> Seq<Seq<char>> {
    spec_video_stage(p).0 + spec_camera_stage(p, spec_video_stage(p).1).0
        + crate::video::spec_apply_annotations(
        spec_camera_stage(p, spec_video_stage(p).1).1,
        p.edits.annotations@,
        p.duration,
    ).0 + spec_screen_audio_stage(p, screen_has_audio).0 + spec_mic_audio_stage(p).0
        + spec_audio_mix_stage(
        spec_screen_audio_stage(p, screen_has_audio).1,
        spec_mic_audio_stage(p).1,
    ).0
}

/// The video label after annotations, before the final scale.
pub open spec fn spec_graph_video_label(p: Project) -> Seq<char> {
    crate::video::spec_apply_annotations(
        spec_camera_stage(p, spec_video_stage(p).1).1,
        p.edits.annotations@,
        p.duration,
    ).1
}

/// The audio label after mixing, if any audio runs through the graph.
pub open spec fn spec_graph_audio_label(p: Project, screen_has_audio: bool) -> Option<Seq<char>> {
    spec_audio_mix_stage(
        spec_screen_audio_stage(p, screen_has_audio).1,
        spec_mic_audio_stage(p).1,
    ).1
}

// ---------------------------------------------------------------------
// Stream mapping.
// ---------------------------------------------------------------------

/// How many `[` characters the label starts with.
pub open spec fn spec_leading_open(s: Seq<char>) -> nat
    decreases s.len(),
{
    if s.len() > 0 && s[0] == '[' {
        1 + spec_leading_open(s.drop_first())
    } else {
        0
    }
}

/// How many `]` characters the label ends with.
pub open spec fn spec_trailing_close(s: Seq<char>) -> nat
    decreases s.len(),
{
    if s.len() > 0 && s.last() == ']' {
        1 + spec_trailing_close(s.drop_last())
    } else {
        0
    }
}

/// The label with its leading `[`s and trailing `]`s removed.
pub open spec fn spec_strip_brackets(s: Seq<char>) -> Seq<char> {
    let t = s.skip(spec_leading_open(s) as int);
    t.take((t.len() - spec_trailing_close(t)) as int)
}

/// A raw input stream label such as `[1:a]`: bracketed, at least five
/// characters, ending in `:a]`.
pub open spec fn spec_is_raw_stream_label(s: Seq<char>) -> bool {
    s.len() >= 5 && s[0] == '[' && s.subrange(s.len() - 3, s.len() as int) == ":a]"@
}

/// The value mapped for an audio label that came out of the graph: the
/// raw screen stream maps optionally, another raw stream by its stream
/// name, and a synthetic graph label as itself.
pub open spec fn spec_map_value(label: Seq<char>) -> Seq<char> {
    if label == "[0:a]"@ {
        "0:a?"@
    } else if spec_is_raw_stream_label(label) {
        spec_strip_brackets(label)
    } else {
        label
    }
}

/// The `-map` (or `-an`) arguments for the audio output.  With a graph
/// present every audio label is mapped; without one only raw stream
/// labels are.  On the video path a graph without audio mutes the
/// output, and no graph at all falls back to the optional screen
/// stream.
pub open spec fn spec_audio_map_args(
    audio: Option<Seq<char>>,
    graph: bool,
    screen_has_audio: bool,
    video_branch: bool,
) -> Seq<Seq<char>> {
    match audio {
        Some(label) => {
            if graph {
                seq!["-map"@, spec_map_value(label)]
            } else if label == "[0:a]"@ {
                seq!["-map"@, "0:a?"@]
            } else if spec_is_raw_stream_label(label) {
                seq!["-map"@, spec_strip_brackets(label)]
            } else {
                Seq::<Seq<char>>::empty()
            }
        },
        None => {
            if video_branch {
                if graph {
                    seq!["-an"@]
                } else if screen_has_audio {
                    seq!["-map"@, "0:a?"@]
                } else {
                    Seq::<Seq<char>>::empty()
                }
            } else {
                Seq::<Seq<char>>::empty()
            }
        },
    }
}

/// The filter-graph nodes joined with the engine's `;` separator.
pub open spec fn spec_join_semicolon(fs: Seq<Seq<char>>) -> Seq<char>
    decreases fs.len(),
{
    if fs.len() == 0 {
        Seq::<char>::empty()
    } else if fs.len() == 1 {
        fs[0]
    } else {
        spec_join_semicolon(fs.drop_last()) + ";"@ + fs.last()
    }
}

/// Strips the label's brackets (exec mirror of [`spec_strip_brackets`]).
fn strip_brackets(label: &str) -> (r: String)
    ensures
        r@ == spec_strip_brackets(label@),
{
    let n = label.unicode_len();
    let mut start: usize = 0;
    proof {
        assert(label@.skip(0) =~= label@);
    }
    while start < n && label.get_char(start) == '['
        invariant
            n == label@.len(),
            start <= n,
            spec_leading_open(label@) == start + spec_leading_open(label@.skip(start as int)),
        decreases n - start,
    {
        proof {
            assert(label@.skip(start as int)[0] == label@[start as int]);
            assert(label@.skip(start as int).drop_first() =~= label@.skip(start + 1));
        }
        start = start + 1;
    }
    proof {
        if start < n {
            assert(label@.skip(start as int)[0] == label@[start as int]);
        }
        assert(spec_leading_open(label@.skip(start as int)) == 0);
        assert(spec_leading_open(label@) == start);
    }
    let ghost t = label@.skip(start as int);
    let mut end: usize = n;
    proof {
        assert(t.take((n - start) as int) =~= t);
    }
    while end > start && label.get_char(end - 1) == ']'
        invariant
            n == label@.len(),
            start <= end <= n,
            t == label@.skip(start as int),
            spec_trailing_close(t) == (n - end) + spec_trailing_close(t.take((end - start) as int)),
        decreases end,
    {
        proof {
            let piece = t.take((end - start) as int);
            assert(piece.last() == label@[end - 1]);
            assert(piece.drop_last() =~= t.take((end - 1 - start) as int));
        }
        end = end - 1;
    }
    proof {
        let piece = t.take((end - start) as int);
        if end > start {
            assert(piece.last() == label@[end - 1]);
        }
        assert(spec_trailing_close(piece) == 0);
        assert(spec_trailing_close(t) == n - end);
        assert(label@.subrange(start as int, end as int) =~= t.take(
            (t.len() - spec_trailing_close(t)) as int,
        ));
    }
    String::from_str(label.substring_char(start, end))
}

/// Whether the label is a raw input stream label (exec mirror of
/// [`spec_is_raw_stream_label`]).
fn is_raw_stream_label(label: &str) -> (r: bool)
    ensures
        r == spec_is_raw_stream_label(label@),
{
    let n = label.unicode_len();
    if n < 5 {
        return false;
    }
    if label.get_char(0) != '[' {
        return false;
    }
    let c1 = label.get_char(n - 3);
    let c2 = label.get_char(n - 2);
    let c3 = label.get_char(n - 1);
    let r = c1 == ':' && c2 == 'a' && c3 == ']';
    proof {
        reveal_strlit(":a]");
        if r {
            assert(label@.subrange(n - 3, n as int) =~= ":a]"@);
        } else {
            if label@.subrange(n - 3, n as int) == ":a]"@ {
                assert(label@.subrange(n - 3, n as int)[0] == ':');
                assert(label@.subrange(n - 3, n as int)[1] == 'a');
                assert(label@.subrange(n - 3, n as int)[2] == ']');
            }
        }
    }
    r
}

/// Pushes the `-map`/`-an` arguments for the audio output (exec mirror
/// of [`spec_audio_map_args`]).
fn push_audio_map_args(
    args: &mut Vec<String>,
    audio_label: &Option<String>,
    graph: bool,
    screen_has_audio: bool,
    video_branch: bool,
)
    ensures
        views(final(args)@) == views(old(args)@) + spec_audio_map_args(
            match *audio_label {
                Some(l) => Some(l@),
                None => None,
            },
            graph,
            screen_has_audio,
            video_branch,
        ),
{
    match audio_label {
        Some(label) => {
            let is_screen = crate::text::str_eq(label.as_str(), "[0:a]");
            if graph {
                push_str_arg(args, "-map");
                if is_screen {
                    push_str_arg(args, "0:a?");
                } else if is_raw_stream_label(label.as_str()) {
                    push_string_arg(args, strip_brackets(label.as_str()));
                } else {
                    push_string_arg(args, label.clone());
                }
            } else if is_screen {
                push_str_arg(args, "-map");
                push_str_arg(args, "0:a?");
            } else if is_raw_stream_label(label.as_str()) {
                push_str_arg(args, "-map");
                push_string_arg(args, strip_brackets(label.as_str()));
            }
        },
        None => {
            if video_branch {
                if graph {
                    push_str_arg(args, "-an");
                } else if screen_has_audio {
                    push_str_arg(args, "-map");
                    push_str_arg(args, "0:a?");
                }
            }
        },
    }
    proof {
        assert(views(args@) =~= views(old(args)@) + spec_audio_map_args(
            match *audio_label {
                Some(l) => Some(l@),
                None => None,
            },
            graph,
            screen_has_audio,
            video_branch,
        ));
    }
}

/// Joins the filter nodes with `;` (exec mirror of
/// [`spec_join_semicolon`]).
fn join_semicolon(fs: &Vec<String>) -> (r: String)
    ensures
        r@ == spec_join_semicolon(views(fs@)),
{
    let mut out = String::new();
    let mut i: usize = 0;
    while i < fs.len()
        invariant
            i <= fs.len(),
            out@ == spec_join_semicolon(views(fs@).take(i as int)),
        decreases fs.len() - i,
    {
        proof {
            assert(views(fs@).take(i + 1).drop_last() =~= views(fs@).take(i as int));
            assert(views(fs@).take(i + 1).last() == fs@[i as int]@);
            assert(views(fs@).take(1)[0] == fs@[0]@);
        }
        if i > 0 {
            out.append(";");
        }
        out.append(fs[i].as_str());
        i = i + 1;
    }
    proof {
        assert(views(fs@).take(views(fs@).len() as int) =~= views(fs@));
    }
    out
}

// ---------------------------------------------------------------------
// Codec selection and the per-format argument middles.
// ---------------------------------------------------------------------

/// The video codec arguments: the lossless-profile codec for the Mov
/// container; otherwise the platform's hardware encoder with a bitrate
/// target, or the software encoder with CRF and speed preset.
pub open spec fn spec_video_codec_args(o: ExportOptions, platform: Platform) -> Seq<Seq<char>> {
    seq!["-c:v"@] + (if o.format is Mov {
        seq!["prores_ks"@, "-profile:v"@, "3"@, "-pix_fmt"@, "yuv422p10le"@]
    } else {
        (if platform is MacOs {
            seq![
                "h264_videotoolbox"@,
                "-b:v"@,
                spec_dec(spec_target_video_bitrate_kbps(o) as nat) + "k"@,
                "-allow_sw"@,
                "1"@,
            ]
        } else {
            seq![
                "libx264"@,
                "-crf"@,
                spec_dec(spec_crf(o.compression) as nat),
                "-preset"@,
                spec_preset(o.compression),
            ]
        }) + seq!["-pix_fmt"@, "yuv420p"@]
    })
}

/// The audio codec arguments of the video containers: lossless for Mov,
/// compressed with a bitrate target otherwise.
pub open spec fn spec_audio_codec_args(o: ExportOptions) -> Seq<Seq<char>> {
    seq!["-c:a"@] + (if o.format is Mov {
        seq!["pcm_s16le"@]
    } else {
        seq!["aac"@, "-b:a"@, spec_dec(spec_audio_bitrate(o.compression) as nat) + "k"@]
    })
}

/// The final scale node bringing the graph's video to the output
/// height, width forced even.
pub open spec fn spec_final_scale_filter(p: Project, o: ExportOptions) -> Seq<char> {
    spec_graph_video_label(p) + "scale=-2:"@ + spec_dec(spec_height(o.resolution) as nat)
        + "[vout]"@
}

/// All filter nodes of the video path, final scale included; empty
/// exactly when the graph is empty.
pub open spec fn spec_video_all_filters(p: Project, o: ExportOptions, sha: bool) -> Seq<Seq<char>> {
    if spec_graph_filters(p, sha).len() == 0 {
        Seq::<Seq<char>>::empty()
    } else {
        spec_graph_filters(p, sha).push(spec_final_scale_filter(p, o))
    }
}

/// The arguments of the Mp4/Mov branch, from codec selection through
/// stream mapping.
pub open spec fn spec_video_middle(p: Project, o: ExportOptions, sha: bool, platform: Platform) -> Seq<
    Seq<char>,
> {
    let graph = spec_graph_filters(p, sha).len() > 0;
    spec_video_codec_args(o, platform) + spec_audio_codec_args(o) + seq![
        "-r"@,
        spec_dec(o.frame_rate as nat),
    ] + (if graph {
        seq![
            "-filter_complex"@,
            spec_join_semicolon(spec_video_all_filters(p, o, sha)),
            "-map"@,
            "[vout]"@,
        ]
    } else {
        seq![
            "-vf"@,
            "scale=-2:"@ + spec_dec(spec_height(o.resolution) as nat),
            "-map"@,
            "0:v"@,
        ]
    }) + spec_audio_map_args(spec_graph_audio_label(p, sha), graph, sha, true)
}

/// The palette-generation tail shared by both animated-image variants.
pub open spec fn spec_gif_tail(o: ExportOptions) -> Seq<char> {
    "fps="@ + spec_dec((if o.frame_rate < 30 {
        o.frame_rate
    } else {
        30
    }) as nat) + ",scale=-1:"@ + spec_dec((if spec_height(o.resolution) < 720 {
        spec_height(o.resolution)
    } else {
        720
    }) as nat)
        + ":flags=lanczos,split[s0][s1];[s0]palettegen=stats_mode=diff[p];[s1][p]paletteuse=dither=bayer:bayer_scale=5:diff_mode=rectangle"@
}

/// The arguments of the animated-image branch: a camera overlay runs
/// through a filter graph; otherwise a plain video filter, with the
/// annotation chain ahead of the palette tail.
pub open spec fn spec_gif_middle(p: Project, o: ExportOptions) -> Seq<Seq<char>> {
    let chain = crate::video::spec_annotation_chain(p.edits.annotations@, p.duration);
    if p.camera_video_path is Some {
        seq![
            "-filter_complex"@,
            "[1:v]scale=iw*"@ + spec_display_micros(spec_camera_scale(p) as nat) + ":ih*"@
                + spec_display_micros(spec_camera_scale(p) as nat) + "[cam];[0:v][cam]overlay="@
                + crate::video::spec_camera_overlay_coordinates(p) + chain + ","@ + spec_gif_tail(
                o,
            ),
        ]
    } else {
        let pref = if chain.len() > 0 && chain[0] == ',' {
            chain.drop_first()
        } else {
            chain
        };
        seq![
            "-vf"@,
            (if pref.len() == 0 {
                Seq::<char>::empty()
            } else {
                pref + ","@
            }) + spec_gif_tail(o),
        ]
    }
}

/// The filter nodes of the audio-only path.
pub open spec fn spec_audio_graph_filters(p: Project, sha: bool) -> Seq<Seq<char>> {
    spec_screen_audio_stage(p, sha).0 + spec_mic_audio_stage(p).0 + spec_audio_mix_stage(
        spec_screen_audio_stage(p, sha).1,
        spec_mic_audio_stage(p).1,
    ).0
}

/// The arguments of the audio-only branch.
pub open spec fn spec_audio_middle(p: Project, o: ExportOptions, sha: bool) -> Seq<Seq<char>> {
    let filters = spec_audio_graph_filters(p, sha);
    let label = spec_graph_audio_label(p, sha);
    seq!["-vn"@] + (if o.format is Wav {
        seq!["-c:a"@, "pcm_s16le"@]
    } else {
        seq![
            "-c:a"@,
            "libmp3lame"@,
            "-b:a"@,
            spec_dec(spec_audio_bitrate(o.compression) as nat) + "k"@,
        ]
    }) + (if label is Some && filters.len() > 0 {
        seq!["-filter_complex"@, spec_join_semicolon(filters)]
    } else {
        Seq::<Seq<char>>::empty()
    }) + spec_audio_map_args(label, filters.len() > 0, sha, false)
}

/// The offsets the argument builder can render without overflowing the
/// microsecond scale.
pub open spec fn spec_offsets_bounded(p: Project) -> bool {
    &&& match p.camera_offset_ms {
        Some(v) => -9223372036854775 <= v <= 9223372036854775,
        None => true,
    }
    &&& match p.microphone_offset_ms {
        Some(v) => -9223372036854775 <= v <= 9223372036854775,
        None => true,
    }
}

/// The full argument vector: optional seek bounds, the input files, the
/// format's own middle, and the forced overwrite flag with the output
/// path last.
pub open spec fn spec_ffmpeg_args(
    p: Project,
    o: ExportOptions,
    output_path: Seq<char>,
    sha: bool,
    platform: Platform,
) -> Seq<Seq<char>> {
    spec_seek_args(p) + spec_input_args(p) + (match o.format {
        ExportFormat::Mp4 => spec_video_middle(p, o, sha, platform),
        ExportFormat::Mov => spec_video_middle(p, o, sha, platform),
        ExportFormat::Gif => spec_gif_middle(p, o),
        ExportFormat::Wav => spec_audio_middle(p, o, sha),
        ExportFormat::Mp3 => spec_audio_middle(p, o, sha),
    }) + seq!["-y"@, output_path]
}

// ---------------------------------------------------------------------
// The exec builders.
// ---------------------------------------------------------------------

/// Builds the screen-audio, microphone and mix stages, returning their
/// filter nodes and the final audio label.
#[verifier::rlimit(80)]
fn build_audio_stages(
    project: &Project,
    pieces: &Vec<crate::timeline::TimelinePiece>,
    screen_has_audio: bool,
) -> (r: (Vec<String>, Option<String>))
    requires
        pieces@ == crate::timeline::spec_timeline_pieces(*project),
        spec_offsets_bounded(*project),
    ensures
        views(r.0@) == spec_audio_graph_filters(*project, screen_has_audio),
        r.1 is Some <==> spec_graph_audio_label(*project, screen_has_audio) is Some,
        r.1 is Some ==> r.1.unwrap()@ == spec_graph_audio_label(
            *project,
            screen_has_audio,
        ).unwrap(),
{
    let ghost p = *project;
    let seeking = use_input_seeking(project);
    let mut filter_parts: Vec<String> = Vec::new();
    let screen_audio_label: Option<String> = if screen_has_audio {
        let timeline_label: String;
        if seeking {
            timeline_label = String::from_str("[0:a]");
        } else {
            let tl = crate::audio::build_audio_timeline_filter("[0:a]", pieces, "ascreen");
            append_args(&mut filter_parts, tl.0);
            timeline_label = tl.1;
        }
        let lab = crate::audio::apply_audio_gain(
            &mut filter_parts,
            timeline_label,
            project.edits.audio_mix.system_volume,
            "ascreenvol",
        );
        Some(lab)
    } else {
        None
    };
    proof {
        assert(views(filter_parts@) =~= spec_screen_audio_stage(p, screen_has_audio).0);
    }
    let ghost screen_stage = spec_screen_audio_stage(p, screen_has_audio);
    let microphone_processed_label: Option<String> = if project.microphone_audio_path.is_some() {
        let idx: u64 = if project.camera_video_path.is_some() {
            2
        } else {
            1
        };
        let mut input_label = String::from_str("[");
        input_label.append(u64_to_string(idx).as_str());
        input_label.append(":a]");
        let offset_ms = match project.microphone_offset_ms {
            Some(v) => v,
            None => 0,
        };
        let off = crate::audio::apply_audio_offset(input_label.as_str(), offset_ms, "amic");
        append_args(&mut filter_parts, off.0);
        let tl = crate::audio::build_audio_timeline_filter(off.1.as_str(), pieces, "amicpiece");
        append_args(&mut filter_parts, tl.0);
        let mut hp = tl.1;
        hp.append("highpass=f=80");
        hp.append("[amicclean]");
        push_string_arg(&mut filter_parts, hp);
        let lab = crate::audio::apply_audio_gain(
            &mut filter_parts,
            String::from_str("[amicclean]"),
            project.edits.audio_mix.microphone_volume,
            "amicvol",
        );
        Some(lab)
    } else {
        None
    };
    proof {
        assert(views(filter_parts@) =~= screen_stage.0 + spec_mic_audio_stage(p).0);
    }
    let ghost mic_stage = spec_mic_audio_stage(p);
    let audio_output_label: Option<String> = match (screen_audio_label, microphone_processed_label) {
        (Some(screen_label), Some(microphone_label)) => {
            let mut ducked = screen_label;
            ducked.append(microphone_label.as_str());
            ducked.append("sidechaincompress=threshold=0.025:ratio=8:attack=20:release=300");
            ducked.append("[aducked]");
            push_string_arg(&mut filter_parts, ducked);
            let mut mixed = String::from_str("[aducked]");
            mixed.append(microphone_label.as_str());
            mixed.append("amix=inputs=2:duration=longest:dropout_transition=0");
            mixed.append("[aout]");
            push_string_arg(&mut filter_parts, mixed);
            Some(String::from_str("[aout]"))
        },
        (Some(screen_label), None) => Some(screen_label),
        (None, Some(microphone_label)) => Some(microphone_label),
        (None, None) => None,
    };
    proof {
        assert(views(filter_parts@) =~= spec_audio_graph_filters(p, screen_has_audio));
    }
    (filter_parts, audio_output_label)
}

/// Whether the fast container-level seek path applies.
fn use_input_seeking(project: &Project) -> (r: bool)
    ensures
        r == spec_use_input_seeking(*project),
{
    let segments = crate::timeline::enabled_segments(project);
    let pieces = crate::timeline::build_timeline_pieces(project);
    if project.camera_video_path.is_some() {
        return false;
    }
    if project.microphone_audio_path.is_some() {
        return false;
    }
    if segments.len() != 1 {
        return false;
    }
    let mut excess = pieces.len() != 1;
    if !excess {
        let piece = &pieces[0];
        excess = piece.speed > 1010000 || piece.speed + 10000 < 1000000 || piece.zoom.is_some();
    }
    let s0 = segments[0];
    (s0.0 > 0 || s0.1 < project.duration) && !excess && project.edits.zoom.len() == 0
}

/// Builds the whole filter graph of the video path (final scale node
/// included) and the audio output label.
#[verifier::rlimit(80)]
fn build_video_graph(
    project: &Project,
    options: &ExportOptions,
    screen_has_audio: bool,
) -> (r: (Vec<String>, Option<String>))
    requires
        spec_offsets_bounded(*project),
    ensures
        views(r.0@) == spec_video_all_filters(*project, *options, screen_has_audio),
        r.1 is Some <==> spec_graph_audio_label(*project, screen_has_audio) is Some,
        r.1 is Some ==> r.1.unwrap()@ == spec_graph_audio_label(
            *project,
            screen_has_audio,
        ).unwrap(),
{
    let ghost p = *project;
    let ghost o = *options;
    let pieces = crate::timeline::build_timeline_pieces(project);
    let edited = crate::timeline::timeline_is_edited(project, &pieces);
    let seeking = use_input_seeking(project);

    let mut filter_parts: Vec<String> = Vec::new();
    let mut current_video_label = String::from_str("[0:v]");
    if !seeking && edited {
        let tl = crate::video::build_video_timeline_filters(
            &pieces,
            project.resolution.width,
            project.resolution.height,
        );
        append_args(&mut filter_parts, tl.0);
        current_video_label = tl.1;
    }
    proof {
        assert(views(filter_parts@) =~= spec_video_stage(p).0);
        assert(current_video_label@ == spec_video_stage(p).1);
    }
    let ghost video_stage = spec_video_stage(p);

    if project.camera_video_path.is_some() {
        let camera_offset = match project.camera_offset_ms {
            Some(v) => v,
            None => 0,
        };
        let camera_scale = if project.edits.camera_overlay.scale < 100000 {
            100000u64
        } else {
            project.edits.camera_overlay.scale
        };
        let mut scale_filter = String::from_str("scale=iw*");
        scale_filter.append(display_micros(camera_scale).as_str());
        scale_filter.append(":ih*");
        scale_filter.append(display_micros(camera_scale).as_str());
        proof {
            assert(scale_filter@ =~= spec_camera_scale_filter(p));
        }
        let mut setup: String;
        if camera_offset > 0 {
            setup = String::from_str("[1:v]setpts=PTS+");
            setup.append(crate::numtext::micros6((camera_offset as u64) * 1000).as_str());
            setup.append("/TB,");
            setup.append(scale_filter.as_str());
            setup.append("[cam]");
        } else if camera_offset < 0 {
            let magnitude: u64 = ((-(camera_offset + 1)) as u64) + 1;
            setup = String::from_str("[1:v]trim=start=");
            setup.append(crate::numtext::micros6(magnitude * 1000).as_str());
            setup.append(",setpts=PTS-STARTPTS,");
            setup.append(scale_filter.as_str());
            setup.append("[cam]");
        } else {
            setup = String::from_str("[1:v]");
            setup.append(scale_filter.as_str());
            setup.append("[cam]");
        }
        proof {
            assert(setup@ =~= spec_camera_setup_filter(p));
        }
        push_string_arg(&mut filter_parts, setup);
        let mut overlay = current_video_label;
        overlay.append("[cam]");
        overlay.append("overlay=");
        overlay.append(crate::video::build_camera_overlay_coordinates(project).as_str());
        overlay.append("[vwithcam]");
        push_string_arg(&mut filter_parts, overlay);
        current_video_label = String::from_str("[vwithcam]");
    }
    proof {
        assert(views(filter_parts@) =~= video_stage.0 + spec_camera_stage(p, video_stage.1).0);
        assert(current_video_label@ == spec_camera_stage(p, video_stage.1).1);
    }
    let ghost after_camera = video_stage.0 + spec_camera_stage(p, video_stage.1).0;

    let current_video_label = crate::video::apply_video_annotations(
        &mut filter_parts,
        current_video_label,
        project,
    );
    proof {
        assert(views(filter_parts@) =~= after_camera + crate::video::spec_apply_annotations(
            spec_camera_stage(p, video_stage.1).1,
            p.edits.annotations@,
            p.duration,
        ).0);
        assert(current_video_label@ == spec_graph_video_label(p));
    }

    let audio = build_audio_stages(project, &pieces, screen_has_audio);
    append_args(&mut filter_parts, audio.0);
    let audio_output_label = audio.1;
    proof {
        assert(views(filter_parts@) =~= spec_graph_filters(p, screen_has_audio));
    }

    if filter_parts.len() > 0 {
        let mut final_scale = current_video_label;
        final_scale.append("scale=-2:");
        final_scale.append(u64_to_string(options.resolution.height() as u64).as_str());
        final_scale.append("[vout]");
        proof {
            assert(final_scale@ =~= spec_final_scale_filter(p, o));
        }
        push_string_arg(&mut filter_parts, final_scale);
    }
    proof {
        assert(views(filter_parts@) =~= spec_video_all_filters(p, o, screen_has_audio));
    }
    (filter_parts, audio_output_label)
}

/// Builds the codec, frame-rate and pixel-format arguments of the
/// Mp4/Mov branch.
#[verifier::rlimit(80)]
fn codec_and_rate_args(options: &ExportOptions, platform: Platform) -> (r: Vec<String>)
    ensures
        views(r@) == spec_video_codec_args(*options, platform) + spec_audio_codec_args(*options)
            + seq!["-r"@, spec_dec(options.frame_rate as nat)],
{
    let ghost o = *options;
    let mut args: Vec<String> = Vec::new();
    push_str_arg(&mut args, "-c:v");
    let is_mov = match options.format {
        ExportFormat::Mov => true,
        _ => false,
    };
    if is_mov {
        push_str_arg(&mut args, "prores_ks");
        push_str_arg(&mut args, "-profile:v");
        push_str_arg(&mut args, "3");
        push_str_arg(&mut args, "-pix_fmt");
        push_str_arg(&mut args, "yuv422p10le");
    } else {
        match platform {
            Platform::MacOs => {
                push_str_arg(&mut args, "h264_videotoolbox");
                push_str_arg(&mut args, "-b:v");
                let mut b = u64_to_string(target_video_bitrate_kbps(options) as u64);
                b.append("k");
                push_string_arg(&mut args, b);
                push_str_arg(&mut args, "-allow_sw");
                push_str_arg(&mut args, "1");
            },
            Platform::Other => {
                push_str_arg(&mut args, "libx264");
                push_str_arg(&mut args, "-crf");
                push_string_arg(&mut args, u64_to_string(options.compression.crf() as u64));
                push_str_arg(&mut args, "-preset");
                push_str_arg(&mut args, options.compression.preset());
            },
        }
        push_str_arg(&mut args, "-pix_fmt");
        push_str_arg(&mut args, "yuv420p");
    }
    proof {
        assert(views(args@) =~= spec_video_codec_args(o, platform));
    }
    let ghost after_vcodec = views(args@);
    push_str_arg(&mut args, "-c:a");
    if is_mov {
        push_str_arg(&mut args, "pcm_s16le");
    } else {
        push_str_arg(&mut args, "aac");
        push_str_arg(&mut args, "-b:a");
        let mut b = u64_to_string(options.compression.audio_bitrate() as u64);
        b.append("k");
        push_string_arg(&mut args, b);
    }
    push_str_arg(&mut args, "-r");
    push_string_arg(&mut args, u64_to_string(options.frame_rate as u64));
    proof {
        assert(views(args@) =~= after_vcodec + spec_audio_codec_args(o) + seq![
            "-r"@,
            spec_dec(o.frame_rate as nat),
        ]);
    }
    args
}

/// Builds the Mp4/Mov middle: the filter graph, codec selection, and
/// stream mapping.
#[verifier::rlimit(80)]
fn video_format_args(
    project: &Project,
    options: &ExportOptions,
    screen_has_audio: bool,
    platform: Platform,
) -> (r: Vec<String>)
    requires
        spec_offsets_bounded(*project),
        options.format is Mp4 || options.format is Mov,
    ensures
        views(r@) == spec_video_middle(*project, *options, screen_has_audio, platform),
{
    let ghost p = *project;
    let ghost o = *options;
    let graph_parts = build_video_graph(project, options, screen_has_audio);
    let filter_parts = graph_parts.0;
    let audio_output_label = graph_parts.1;
    let graph = filter_parts.len() > 0;
    proof {
        assert(spec_video_all_filters(p, o, screen_has_audio).len() > 0 <==> spec_graph_filters(
            p,
            screen_has_audio,
        ).len() > 0);
        assert(graph == (spec_graph_filters(p, screen_has_audio).len() > 0));
    }
    let mut args = codec_and_rate_args(options, platform);
    let ghost after_rate = views(args@);
    if graph {
        push_str_arg(&mut args, "-filter_complex");
        push_string_arg(&mut args, join_semicolon(&filter_parts));
        push_str_arg(&mut args, "-map");
        push_str_arg(&mut args, "[vout]");
        proof {
            assert(views(args@) =~= after_rate + seq![
                "-filter_complex"@,
                spec_join_semicolon(spec_video_all_filters(p, o, screen_has_audio)),
                "-map"@,
                "[vout]"@,
            ]);
        }
    } else {
        push_str_arg(&mut args, "-vf");
        let mut v = String::from_str("scale=-2:");
        v.append(u64_to_string(options.resolution.height() as u64).as_str());
        push_string_arg(&mut args, v);
        push_str_arg(&mut args, "-map");
        push_str_arg(&mut args, "0:v");
        proof {
            assert(views(args@) =~= after_rate + seq![
                "-vf"@,
                "scale=-2:"@ + spec_dec(spec_height(o.resolution) as nat),
                "-map"@,
                "0:v"@,
            ]);
        }
    }
    push_audio_map_args(&mut args, &audio_output_label, graph, screen_has_audio, true);
    proof {
        assert(match audio_output_label {
            Some(l) => Some(l@),
            None => None,
        } == spec_graph_audio_label(p, screen_has_audio));
        assert(views(args@) =~= spec_video_middle(p, o, screen_has_audio, platform));
    }
    args
}

/// Builds the animated-image middle.
#[verifier::rlimit(80)]
fn gif_format_args(project: &Project, options: &ExportOptions) -> (r: Vec<String>)
    ensures
        views(r@) == spec_gif_middle(*project, *options),
{
    let ghost p = *project;
    let ghost o = *options;
    let fr: u32 = if options.frame_rate < 30 {
        options.frame_rate
    } else {
        30
    };
    let height = options.resolution.height();
    let h: u32 = if height < 720 {
        height
    } else {
        720
    };
    let mut tail = String::from_str("fps=");
    tail.append(u64_to_string(fr as u64).as_str());
    tail.append(",scale=-1:");
    tail.append(u64_to_string(h as u64).as_str());
    tail.append(
        ":flags=lanczos,split[s0][s1];[s0]palettegen=stats_mode=diff[p];[s1][p]paletteuse=dither=bayer:bayer_scale=5:diff_mode=rectangle",
    );
    proof {
        assert(tail@ =~= spec_gif_tail(o));
    }
    let chain = crate::video::build_annotation_drawbox_chain(project);
    let mut args: Vec<String> = Vec::new();
    if project.camera_video_path.is_some() {
        let camera_scale = if project.edits.camera_overlay.scale < 100000 {
            100000u64
        } else {
            project.edits.camera_overlay.scale
        };
        push_str_arg(&mut args, "-filter_complex");
        let mut f = String::from_str("[1:v]scale=iw*");
        f.append(display_micros(camera_scale).as_str());
        f.append(":ih*");
        f.append(display_micros(camera_scale).as_str());
        f.append("[cam];[0:v][cam]overlay=");
        f.append(crate::video::build_camera_overlay_coordinates(project).as_str());
        f.append(chain.as_str());
        f.append(",");
        f.append(tail.as_str());
        proof {
            assert(f@ =~= spec_gif_middle(p, o)[1]);
        }
        push_string_arg(&mut args, f);
    } else {
        push_str_arg(&mut args, "-vf");
        let n = chain.as_str().unicode_len();
        let ghost chain_view = chain@;
        let mut f: String;
        if n > 0 && chain.as_str().get_char(0) == ',' {
            let stripped = chain.as_str().substring_char(1, n);
            proof {
                assert(chain_view.subrange(1, n as int) =~= chain_view.drop_first());
            }
            if n == 1 {
                f = String::new();
                proof {
                    assert(chain_view.drop_first().len() == 0);
                }
            } else {
                f = String::from_str(stripped);
                f.append(",");
            }
        } else if n == 0 {
            f = String::new();
        } else {
            f = chain;
            f.append(",");
        }
        f.append(tail.as_str());
        proof {
            assert(f@ =~= spec_gif_middle(p, o)[1]);
        }
        push_string_arg(&mut args, f);
    }
    proof {
        assert(views(args@) =~= spec_gif_middle(p, o));
    }
    args
}

/// Builds the audio-only middle.
#[verifier::rlimit(80)]
fn audio_format_args(project: &Project, options: &ExportOptions, screen_has_audio: bool) -> (r:
    Vec<String>)
    requires
        spec_offsets_bounded(*project),
        options.format is Wav || options.format is Mp3,
    ensures
        views(r@) == spec_audio_middle(*project, *options, screen_has_audio),
{
    let ghost p = *project;
    let ghost o = *options;
    let pieces = crate::timeline::build_timeline_pieces(project);
    let audio = build_audio_stages(project, &pieces, screen_has_audio);
    let filter_parts = audio.0;
    let audio_output_label = audio.1;
    let mut args: Vec<String> = Vec::new();
    push_str_arg(&mut args, "-vn");
    match options.format {
        ExportFormat::Wav => {
            push_str_arg(&mut args, "-c:a");
            push_str_arg(&mut args, "pcm_s16le");
        },
        _ => {
            push_str_arg(&mut args, "-c:a");
            push_str_arg(&mut args, "libmp3lame");
            push_str_arg(&mut args, "-b:a");
            let mut b = u64_to_string(options.compression.audio_bitrate() as u64);
            b.append("k");
            push_string_arg(&mut args, b);
        },
    }
    let graph = filter_parts.len() > 0;
    if audio_output_label.is_some() && graph {
        push_str_arg(&mut args, "-filter_complex");
        push_string_arg(&mut args, join_semicolon(&filter_parts));
    }
    push_audio_map_args(&mut args, &audio_output_label, graph, screen_has_audio, false);
    proof {
        assert(match audio_output_label {
            Some(l) => Some(l@),
            None => None,
        } == spec_graph_audio_label(p, screen_has_audio));
        assert(views(args@) =~= spec_audio_middle(p, o, screen_has_audio));
    }
    args
}

/// Build the engine's argument vector for an export.  The compiler is a
/// pure function of its inputs: the same project, options, output path,
/// probe result and platform always yield the same vector, token for
/// token.
#[verifier::rlimit(100)]
pub fn build_ffmpeg_args(
    project: &Project,
    options: &ExportOptions,
    output_path: &str,
    screen_has_audio: bool,
    platform: Platform,
) -> (r: Vec<String>)
    requires
        spec_offsets_bounded(*project),
    ensures
        views(r@) == spec_ffmpeg_args(
            *project,
            *options,
            output_path@,
            screen_has_audio,
            platform,
        ),
{
    let ghost p = *project;
    let ghost o = *options;
    let mut args: Vec<String> = Vec::new();
    let seeking = use_input_seeking(project);
    if seeking {
        let segments = crate::timeline::enabled_segments(project);
        let seg = segments[0];
        push_str_arg(&mut args, "-ss");
        push_string_arg(&mut args, display_micros(seg.0));
        push_str_arg(&mut args, "-to");
        push_string_arg(&mut args, display_micros(seg.1));
    }
    proof {
        assert(views(args@) =~= spec_seek_args(p));
    }
    push_str_arg(&mut args, "-i");
    push_string_arg(&mut args, project.screen_video_path.clone());
    match &project.camera_video_path {
        Some(cam) => {
            push_str_arg(&mut args, "-i");
            push_string_arg(&mut args, cam.clone());
        },
        None => {},
    }
    match &project.microphone_audio_path {
        Some(mic) => {
            push_str_arg(&mut args, "-i");
            push_string_arg(&mut args, mic.clone());
        },
        None => {},
    }
    proof {
        assert(views(args@) =~= spec_seek_args(p) + spec_input_args(p));
    }
    let middle = match options.format {
        ExportFormat::Mp4 => video_format_args(project, options, screen_has_audio, platform),
        ExportFormat::Mov => video_format_args(project, options, screen_has_audio, platform),
        ExportFormat::Gif => gif_format_args(project, options),
        ExportFormat::Wav => audio_format_args(project, options, screen_has_audio),
        ExportFormat::Mp3 => audio_format_args(project, options, screen_has_audio),
    };
    append_args(&mut args, middle);
    push_str_arg(&mut args, "-y");
    push_string_arg(&mut args, String::from_str(output_path));
    proof {
        assert(views(args@) =~= spec_ffmpeg_args(p, o, output_path@, screen_has_audio, platform));
    }
    args
}

// ---------------------------------------------------------------------
// Output file naming.
// ---------------------------------------------------------------------

/// The extension of each export format.
pub open spec fn spec_format_extension(f: ExportFormat) -> Seq<char> {
    match f {
        ExportFormat::Mp4 => "mp4"@,
        ExportFormat::Gif => "gif"@,
        ExportFormat::Mov => "mov"@,
        ExportFormat::Wav => "wav"@,
        ExportFormat::Mp3 => "mp3"@,
    }
}

/// A project-name character made safe for file systems: separators,
/// wildcards, quotes and spaces become underscores.
pub open spec fn spec_safe_name_char(c: char) -> char {
    if c == '/' || c == '\\' || c == ':' || c == '*' || c == '?' || c == '"' || c == '<' || c == '>'
        || c == '|' || c == ' ' {
        '_'
    } else {
        c
    }
}

/// The project name with every unsafe character replaced.
pub open spec fn spec_sanitized_name(s: Seq<char>) -> Seq<char>
    decreases s.len(),
{
    if s.len() == 0 {
        Seq::<char>::empty()
    } else {
        spec_sanitized_name(s.drop_last()).push(spec_safe_name_char(s.last()))
    }
}

/// The timestamp rendered as `YYYYMMDD_HHMMSS`; years outside
/// 0..=9999 are rendered in full, negative ones with a sign.
pub open spec fn spec_timestamp_text(t: crate::clock::LocalTimestamp) -> Seq<char> {
    (if 0 <= t.year <= 9999 {
        crate::numtext::spec_pad(t.year as nat, 4)
    } else {
        crate::numtext::spec_dec_i64(t.year as int)
    }) + crate::numtext::spec_pad(t.month as nat, 2) + crate::numtext::spec_pad(t.day as nat, 2)
        + "_"@ + crate::numtext::spec_pad(t.hour as nat, 2) + crate::numtext::spec_pad(
        t.minute as nat,
        2,
    ) + crate::numtext::spec_pad(t.second as nat, 2)
}

/// The deterministic export file name for one timestamp.
pub open spec fn spec_export_file_name(
    p: Project,
    o: ExportOptions,
    t: crate::clock::LocalTimestamp,
) -> Seq<char> {
    spec_sanitized_name(p.name@) + "_"@ + spec_timestamp_text(t) + "_"@ + (if o.format is Mp3
        || o.format is Wav {
        "audio"@
    } else {
        spec_resolution_label(o.resolution)
    }) + "."@ + spec_format_extension(o.format)
}

/// The file name joined onto the downloads directory.
pub open spec fn spec_export_output_path(
    p: Project,
    o: ExportOptions,
    dir: Seq<char>,
    t: crate::clock::LocalTimestamp,
) -> Seq<char> {
    if dir.len() == 0 {
        spec_export_file_name(p, o, t)
    } else if dir.last() == '/' {
        dir + spec_export_file_name(p, o, t)
    } else {
        dir + "/"@ + spec_export_file_name(p, o, t)
    }
}

/// Replaces file-system-unsafe characters and spaces in the project
/// name with underscores.
fn sanitize_project_name(name: &str) -> (r: String)
    ensures
        r@ == spec_sanitized_name(name@),
{
    let n = name.unicode_len();
    let mut out = String::new();
    let mut i: usize = 0;
    while i < n
        invariant
            n == name@.len(),
            i <= n,
            out@ == spec_sanitized_name(name@.take(i as int)),
        decreases n - i,
    {
        proof {
            assert(name@.take(i + 1).drop_last() =~= name@.take(i as int));
            assert(name@.take(i + 1).last() == name@[i as int]);
        }
        let c = name.get_char(i);
        if c == '/' || c == '\\' || c == ':' || c == '*' || c == '?' || c == '"' || c == '<' || c
            == '>' || c == '|' || c == ' ' {
            push_char(&mut out, '_');
        } else {
            push_char(&mut out, c);
        }
        i = i + 1;
    }
    proof {
        assert(name@.take(name@.len() as int) =~= name@);
    }
    out
}

/// Renders the timestamp as `YYYYMMDD_HHMMSS`.
fn timestamp_text(t: &crate::clock::LocalTimestamp) -> (r: String)
    ensures
        r@ == spec_timestamp_text(*t),
{
    let mut s: String;
    if 0 <= t.year && t.year <= 9999 {
        s = crate::numtext::u64_to_padded(t.year as u64, 4);
    } else {
        s = crate::numtext::i64_to_string(t.year as i64);
    }
    s.append(crate::numtext::u64_to_padded(t.month as u64, 2).as_str());
    s.append(crate::numtext::u64_to_padded(t.day as u64, 2).as_str());
    s.append("_");
    s.append(crate::numtext::u64_to_padded(t.hour as u64, 2).as_str());
    s.append(crate::numtext::u64_to_padded(t.minute as u64, 2).as_str());
    s.append(crate::numtext::u64_to_padded(t.second as u64, 2).as_str());
    s
}

/// The deterministic export file name for a given clock reading.
pub fn export_file_name(
    project: &Project,
    options: &ExportOptions,
    t: &crate::clock::LocalTimestamp,
) -> (r: String)
    ensures
        r@ == spec_export_file_name(*project, *options, *t),
{
    let mut s = sanitize_project_name(project.name.as_str());
    s.append("_");
    s.append(timestamp_text(t).as_str());
    s.append("_");
    let audio_only = match options.format {
        ExportFormat::Mp3 => true,
        ExportFormat::Wav => true,
        _ => false,
    };
    if audio_only {
        s.append("audio");
    } else {
        s.append(options.resolution.label());
    }
    s.append(".");
    match options.format {
        ExportFormat::Mp4 => s.append("mp4"),
        ExportFormat::Gif => s.append("gif"),
        ExportFormat::Mov => s.append("mov"),
        ExportFormat::Wav => s.append("wav"),
        ExportFormat::Mp3 => s.append("mp3"),
    }
    proof {
        assert(s@ =~= spec_export_file_name(*project, *options, *t));
    }
    s
}

/// Get the default export output path: the sanitized project name, the
/// current local time, the resolution label (or `audio`) and the
/// format's extension, under the downloads directory.  The clock makes
/// the result nondeterministic; for some in-range timestamp it equals
/// the deterministic [`spec_export_output_path`].
pub fn get_export_output_path(
    project: &Project,
    options: &ExportOptions,
    downloads_dir: &str,
) -> (r: String)
    ensures
        exists|t: crate::clock::LocalTimestamp|
            crate::clock::timestamp_in_range(t) && r@ == spec_export_output_path(
                *project,
                *options,
                downloads_dir@,
                t,
            ),
{
    let t = crate::clock::local_now();
    let name = export_file_name(project, options, &t);
    let n = downloads_dir.unicode_len();
    let mut out: String;
    if n == 0 {
        out = name;
    } else if downloads_dir.get_char(n - 1) == '/' {
        out = String::from_str(downloads_dir);
        out.append(name.as_str());
    } else {
        out = String::from_str(downloads_dir);
        out.append("/");
        out.append(name.as_str());
    }
    proof {
        assert(downloads_dir@.last() == downloads_dir@[n - 1]);
        assert(out@ == spec_export_output_path(*project, *options, downloads_dir@, t));
    }
    out
}

// ---------------------------------------------------------------------
// The untouched-timeline law.
// ---------------------------------------------------------------------

/// With a single enabled segment covering the whole recording, no speed,
/// zoom or annotation effects, no camera or microphone, and a system
/// gain close enough to the unit to skip its node, the timeline is not
/// edited and the export builds no filter graph at all: the argument
/// vector's video runs through the plain post-decode scale, whatever the
/// audio probe returned.
pub proof fn lemma_untouched_timeline_skips_graph(p: Project, screen_has_audio: bool)
    requires
        p.duration > 0,
        p.edits.segments@.len() == 1,
        p.edits.segments@[0].enabled,
        p.edits.segments@[0].start_time == 0,
        p.edits.segments@[0].end_time == p.duration,
        p.edits.speed@.len() == 0,
        p.edits.zoom@.len() == 0,
        p.edits.annotations@.len() == 0,
        p.camera_video_path is None,
        p.microphone_audio_path is None,
        crate::audio::spec_gain_skipped(p.edits.audio_mix.system_volume),
    ensures
        !crate::timeline::spec_timeline_is_edited(p.duration, crate::timeline::spec_timeline_pieces(p)),
        spec_graph_filters(p, screen_has_audio).len() == 0,
        !spec_use_input_seeking(p),
{
    reveal_with_fuel(crate::timeline::spec_enabled_pairs, 2);
    reveal_with_fuel(crate::timeline::sort_pairs, 2);
    reveal_with_fuel(crate::timeline::insert_pair, 2);
    reveal_with_fuel(crate::timeline::sort_u64, 3);
    reveal_with_fuel(crate::timeline::insert_u64, 3);
    reveal_with_fuel(crate::timeline::spec_dedup, 3);
    reveal_with_fuel(crate::timeline::spec_segment_pieces, 3);
    reveal_with_fuel(crate::timeline::spec_all_pieces, 2);
    let segs = p.edits.segments@;
    let pair = (0u64, p.duration);
    assert(segs.drop_last().len() == 0);
    assert(crate::timeline::spec_enabled_pairs(segs) =~= seq![pair]);
    let sorted = crate::timeline::spec_enabled_segments(p);
    assert(seq![pair].drop_last().len() == 0);
    assert(crate::timeline::sort_pairs(seq![pair]) == crate::timeline::insert_pair(
        pair,
        crate::timeline::sort_pairs(Seq::<(u64, u64)>::empty()),
    ));
    assert(crate::timeline::sort_pairs(Seq::<(u64, u64)>::empty()).len() == 0);
    assert(crate::timeline::insert_pair(pair, crate::timeline::sort_pairs(Seq::<(u64, u64)>::empty()))
        =~= seq![pair]);
    assert(sorted =~= seq![pair]);
    // breakpoints of the full segment
    let raw = seq![0u64, p.duration] + crate::timeline::spec_speed_points(p.edits.speed@, 0, p.duration)
        + crate::timeline::spec_zoom_points(p.edits.zoom@, 0, p.duration);
    assert(crate::timeline::spec_speed_points(p.edits.speed@, 0, p.duration).len() == 0);
    assert(crate::timeline::spec_zoom_points(p.edits.zoom@, 0, p.duration).len() == 0);
    assert(raw =~= seq![0u64, p.duration]);
    let srt = crate::timeline::sort_u64(raw);
    assert(raw.drop_last() =~= seq![0u64]);
    assert(seq![0u64].drop_last().len() == 0);
    assert(crate::timeline::sort_u64(seq![0u64]) =~= seq![0u64]) by {
        assert(crate::timeline::sort_u64(seq![0u64]) == crate::timeline::insert_u64(
            0u64,
            crate::timeline::sort_u64(Seq::<u64>::empty()),
        ));
        assert(crate::timeline::sort_u64(Seq::<u64>::empty()).len() == 0);
    }
    assert(raw.last() == p.duration);
    assert(srt == crate::timeline::insert_u64(p.duration, seq![0u64]));
    assert(srt =~= seq![0u64, p.duration]) by {
        assert(crate::timeline::insert_u64(p.duration, seq![0u64]) == seq![0u64]
            + crate::timeline::insert_u64(p.duration, seq![0u64].drop_first()));
        assert(seq![0u64].drop_first().len() == 0);
        assert(crate::timeline::insert_u64(p.duration, seq![0u64].drop_first()) =~= seq![
            p.duration,
        ]);
    }
    let b = crate::timeline::spec_dedup(srt);
    assert(b =~= seq![0u64, p.duration]) by {
        assert(srt.drop_last() =~= seq![0u64]);
        assert(seq![0u64].drop_last().len() == 0);
        assert(crate::timeline::spec_dedup(seq![0u64]) =~= seq![0u64]);
        assert(crate::timeline::spec_dedup(srt) =~= crate::timeline::spec_dedup(
            seq![0u64],
        ).push(p.duration));
    }
    assert(crate::timeline::spec_breakpoints(0, p.duration, p.edits.speed@, p.edits.zoom@) =~= seq![
        0u64,
        p.duration,
    ]);
    let piece = crate::timeline::TimelinePiece {
        start: 0,
        end: p.duration,
        speed: 1000000,
        zoom: None,
    };
    let pieces = crate::timeline::spec_timeline_pieces(p);
    assert(crate::timeline::spec_segment_pieces(b, p.edits.speed@, p.edits.zoom@) =~= seq![piece])
        by {
        assert(b.drop_first() =~= seq![p.duration]);
        assert(crate::timeline::spec_segment_pieces(seq![p.duration], p.edits.speed@, p.edits.zoom@)
            .len() == 0);
        assert(crate::timeline::spec_speed_at(p.edits.speed@, 0) == 1000000);
        assert(crate::timeline::spec_zoom_at(p.edits.zoom@, 0) is None);
    }
    assert(crate::timeline::spec_all_pieces(sorted, p.edits.speed@, p.edits.zoom@) =~= seq![piece])
        by {
        assert(sorted.drop_last().len() == 0);
        assert(crate::timeline::spec_all_pieces(sorted.drop_last(), p.edits.speed@, p.edits.zoom@)
            .len() == 0);
        assert(sorted.last() == pair);
        assert(crate::timeline::spec_pieces_for_segment(pair, p.edits.speed@, p.edits.zoom@) =~= seq![
            piece,
        ]);
    }
    assert(pieces =~= seq![piece]);
    assert(!crate::timeline::spec_timeline_is_edited(p.duration, pieces));
    assert(!spec_use_input_seeking(p)) by {
        assert(sorted[0].0 == 0 && sorted[0].1 == p.duration);
    }
    // the graph stays empty
    assert(spec_video_stage(p).0.len() == 0);
    assert(spec_camera_stage(p, spec_video_stage(p).1).0.len() == 0);
    assert(crate::video::spec_apply_annotations(
        spec_camera_stage(p, spec_video_stage(p).1).1,
        p.edits.annotations@,
        p.duration,
    ).0.len() == 0);
    assert(spec_screen_audio_stage(p, screen_has_audio).0.len() == 0) by {
        if screen_has_audio {
            assert(crate::audio::spec_audio_passthrough(pieces));
            assert(crate::audio::spec_audio_timeline_filters("[0:a]"@, pieces, "ascreen"@).len()
                == 0);
        }
    }
    assert(spec_mic_audio_stage(p).0.len() == 0);
    assert(spec_audio_mix_stage(
        spec_screen_audio_stage(p, screen_has_audio).1,
        spec_mic_audio_stage(p).1,
    ).0.len() == 0);
}

} // verus!
