//! The project data model: media paths, resolution, duration, and the
//! edit decision list.
//!
//! Quantities that the editing UI authors as decimal numbers are held in
//! fixed point: times in microseconds, speed and scale factors in
//! millionths of the unit factor, volumes and pixel offsets in
//! thousandths.

use vstd::prelude::*;
use vstd::string::*;
use crate::clock;

verus! {

#[derive(Debug, Clone)]
pub struct Resolution {
    pub width: u32,
    pub height: u32,
}

#[derive(Debug, Clone)]
pub enum CameraOverlayPosition {
    TopLeft,
    TopRight,
    BottomLeft,
    BottomRight,
    Custom,
}

#[derive(Debug, Clone)]
pub struct CameraOverlaySettings {
    pub position: CameraOverlayPosition,
    /// Margin from the chosen corner, in pixels.
    pub margin: u32,
    /// Camera scale factor, in millionths.
    pub scale: u64,
    /// Normalized custom horizontal position, in millionths.
    pub custom_x: i64,
    /// Normalized custom vertical position, in millionths.
    pub custom_y: i64,
}

#[derive(Debug, Clone)]
pub struct AudioMixSettings {
    /// System-audio gain, in thousandths.
    pub system_volume: i64,
    /// Microphone gain, in thousandths.
    pub microphone_volume: i64,
    pub microphone_noise_gate: bool,
}

#[derive(Debug, Clone)]
pub struct ColorCorrectionSettings {
    /// Brightness shift, in thousandths.
    pub brightness: i64,
    /// Contrast factor, in thousandths.
    pub contrast: i64,
    /// Saturation factor, in thousandths.
    pub saturation: i64,
}

#[derive(Debug, Clone)]
pub struct Segment {
    pub id: String,
    /// Start of the kept range, in microseconds.
    pub start_time: u64,
    /// End of the kept range, in microseconds.
    pub end_time: u64,
    pub enabled: bool,
}

#[derive(Debug, Clone)]
pub struct ZoomEffect {
    pub id: String,
    pub start_time: u64,
    pub end_time: u64,
    /// Zoom factor in millionths; the effect is active above the unit.
    pub scale: u64,
    /// Horizontal offset from center, in thousandths of a pixel.
    pub x: i64,
    /// Vertical offset from center, in thousandths of a pixel.
    pub y: i64,
}

#[derive(Debug, Clone)]
pub struct SpeedEffect {
    pub id: String,
    pub start_time: u64,
    pub end_time: u64,
    /// Playback speed factor, in millionths.
    pub speed: u64,
}

#[derive(Debug, Clone)]
pub enum AnnotationMode {
    Outline,
    Blur,
    Text,
    Arrow,
}

#[derive(Debug, Clone)]
pub struct Annotation {
    pub id: String,
    pub start_time: u64,
    pub end_time: u64,
    /// Normalized box coordinates and size, in millionths.
    pub x: i64,
    pub y: i64,
    pub width: i64,
    pub height: i64,
    pub color: String,
    /// Opacity, in thousandths.
    pub opacity: i64,
    pub thickness: u32,
    pub text: Option<String>,
    pub mode: AnnotationMode,
}

#[derive(Debug, Clone)]
pub struct EditDecisionList {
    pub segments: Vec<Segment>,
    pub zoom: Vec<ZoomEffect>,
    pub speed: Vec<SpeedEffect>,
    pub annotations: Vec<Annotation>,
    pub camera_overlay: CameraOverlaySettings,
    pub audio_mix: AudioMixSettings,
    pub color_correction: ColorCorrectionSettings,
}

/// Project metadata and edit decision list.
#[derive(Debug, Clone)]
pub struct Project {
    pub id: String,
    pub name: String,
    /// Creation instant, as milliseconds since the Unix epoch.
    pub created_at_ms: i64,
    pub screen_video_path: String,
    pub camera_video_path: Option<String>,
    pub microphone_audio_path: Option<String>,
    pub camera_offset_ms: Option<i64>,
    pub microphone_offset_ms: Option<i64>,
    /// Source duration, in microseconds.
    pub duration: u64,
    pub resolution: Resolution,
    pub edits: EditDecisionList,
}

impl Default for AnnotationMode {
    fn default() -> (r: Self)
        ensures
            r is Outline,
    {
        AnnotationMode::Outline
    }
}

/// The default camera overlay: bottom-right corner, 20 px margin,
/// quarter scale, custom position at the far corner.
pub open spec fn camera_overlay_default(s: CameraOverlaySettings) -> bool {
    &&& s.position is BottomRight
    &&& s.margin == 20
    &&& s.scale == 250000
    &&& s.custom_x == 1000000
    &&& s.custom_y == 1000000
}

impl Default for CameraOverlaySettings {
    fn default() -> (r: Self)
        ensures
            camera_overlay_default(r),
    {
        CameraOverlaySettings {
            position: CameraOverlayPosition::BottomRight,
            margin: 20,
            scale: 250000,
            custom_x: 1000000,
            custom_y: 1000000,
        }
    }
}

/// The default audio mix: unit gain on both tracks, no noise gate.
pub open spec fn audio_mix_default(s: AudioMixSettings) -> bool {
    &&& s.system_volume == 1000
    &&& s.microphone_volume == 1000
    &&& !s.microphone_noise_gate
}

impl Default for AudioMixSettings {
    fn default() -> (r: Self)
        ensures
            audio_mix_default(r),
    {
        AudioMixSettings { system_volume: 1000, microphone_volume: 1000, microphone_noise_gate: false }
    }
}

/// The default color correction: neutral on all three axes.
pub open spec fn color_correction_default(s: ColorCorrectionSettings) -> bool {
    &&& s.brightness == 0
    &&& s.contrast == 1000
    &&& s.saturation == 1000
}

impl Default for ColorCorrectionSettings {
    fn default() -> (r: Self)
        ensures
            color_correction_default(r),
    {
        ColorCorrectionSettings { brightness: 0, contrast: 1000, saturation: 1000 }
    }
}

/// Relies on `uuid::Uuid::new_v4` and its `Display` rendering: a random
/// identifier in the simple hyphenated textual form, 36 characters long.
#[verifier::external_body]
fn new_uuid_string() -> (r: String)
    ensures
        r@.len() == 36,
{
    uuid::Uuid::new_v4().to_string()
}

impl Project {
    /// Create a new project from recording paths.  The fresh project
    /// carries a single enabled segment spanning the whole recording and
    /// otherwise default edits; its name quotes the first eight
    /// characters of the identifier.
    pub fn new(
        id: String,
        screen_video_path: String,
        camera_video_path: Option<String>,
        microphone_audio_path: Option<String>,
        duration: u64,
        width: u32,
        height: u32,
        camera_offset_ms: Option<i64>,
        microphone_offset_ms: Option<i64>,
    ) -> (p: Project)
        requires
            id@.len() >= 8,
        ensures
            p.id == id,
            p.name@ == "Recording "@ + id@.subrange(0, 8),
            p.screen_video_path == screen_video_path,
            p.camera_video_path == camera_video_path,
            p.microphone_audio_path == microphone_audio_path,
            p.camera_offset_ms == camera_offset_ms,
            p.microphone_offset_ms == microphone_offset_ms,
            p.duration == duration,
            p.resolution.width == width,
            p.resolution.height == height,
            p.edits.segments@.len() == 1,
            p.edits.segments@[0].start_time == 0,
            p.edits.segments@[0].end_time == duration,
            p.edits.segments@[0].enabled,
            p.edits.zoom@.len() == 0,
            p.edits.speed@.len() == 0,
            p.edits.annotations@.len() == 0,
            camera_overlay_default(p.edits.camera_overlay),
            audio_mix_default(p.edits.audio_mix),
            color_correction_default(p.edits.color_correction),
    {
        let segment_id = new_uuid_string();
        let mut name = String::from_str("Recording ");
        name.append(id.as_str().substring_char(0, 8));
        let segment = Segment { id: segment_id, start_time: 0, end_time: duration, enabled: true };
        let mut segments: Vec<Segment> = Vec::new();
        segments.push(segment);
        Project {
            id,
            name,
            created_at_ms: clock::utc_now_millis(),
            screen_video_path,
            camera_video_path,
            microphone_audio_path,
            camera_offset_ms,
            microphone_offset_ms,
            duration,
            resolution: Resolution { width, height },
            edits: EditDecisionList {
                segments,
                zoom: Vec::new(),
                speed: Vec::new(),
                annotations: Vec::new(),
                camera_overlay: CameraOverlaySettings::default(),
                audio_mix: AudioMixSettings::default(),
                color_correction: ColorCorrectionSettings::default(),
            },
        }
    }
}

} // verus!
