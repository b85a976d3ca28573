//! The video chain builder: per-piece trim, speed and zoom, multi-piece
//! concatenation, camera overlay positioning, and annotation overlays.

use vstd::prelude::*;
use vstd::string::*;
use crate::numtext::{
    spec_dec, u64_to_string, spec_micros6, micros6, spec_millis3_signed, millis3_signed,
};
use crate::timeline::{TimelinePiece, ActiveZoom};
use crate::project::{Project, Annotation, CameraOverlayPosition};
use crate::text::{
    views, push_string_arg, spec_is_whitespace, is_whitespace_char, push_char, spec_trim, str_trim,
};
use crate::audio::{spec_piece_label, spec_labels_concat, piece_label};

verus! {

// ---------------------------------------------------------------------
// Drawtext escaping and color sanitizing.
// ---------------------------------------------------------------------

/// How one character appears inside the engine's quoted text argument.
pub open spec fn spec_escape_char(c: char) -> Seq<char> {
    if c == '\\' {
        seq!['\\', '\\']
    } else if c == ':' {
        seq!['\\', ':']
    } else if c == '\'' {
        seq!['\\', '\'']
    } else if c == ',' {
        seq!['\\', ',']
    } else if c == '%' {
        seq!['\\', '%']
    } else if c == '\n' {
        seq!['\\', 'n']
    } else {
        seq![c]
    }
}

/// The whole text with every control character escaped.
pub open spec fn spec_escape_drawtext(s: Seq<char>) -> Seq<char>
    decreases s.len(),
{
    if s.len() == 0 {
        Seq::<char>::empty()
    } else {
        spec_escape_drawtext(s.drop_last()) + spec_escape_char(s.last())
    }
}

/// Escapes the characters that the engine's text filter treats as
/// syntax: backslash, colon, quote, comma, percent, and newline.
pub fn escape_drawtext_text(value: &str) -> (r: String)
    ensures
        r@ == spec_escape_drawtext(value@),
{
    let n = value.unicode_len();
    let mut out = String::new();
    let mut i: usize = 0;
    while i < n
        invariant
            n == value@.len(),
            i <= n,
            out@ == spec_escape_drawtext(value@.take(i as int)),
        decreases n - i,
    {
        proof {
            assert(value@.take(i + 1).drop_last() =~= value@.take(i as int));
            assert(value@.take(i + 1).last() == value@[i as int]);
        }
        let c = value.get_char(i);
        if c == '\\' {
            out.append("\\\\");
            proof {
                reveal_strlit("\\\\");
                assert("\\\\"@ =~= spec_escape_char(c));
            }
        } else if c == ':' {
            out.append("\\:");
            proof {
                reveal_strlit("\\:");
                assert("\\:"@ =~= spec_escape_char(c));
            }
        } else if c == '\'' {
            out.append("\\'");
            proof {
                reveal_strlit("\\'");
                assert("\\'"@ =~= spec_escape_char(c));
            }
        } else if c == ',' {
            out.append("\\,");
            proof {
                reveal_strlit("\\,");
                assert("\\,"@ =~= spec_escape_char(c));
            }
        } else if c == '%' {
            out.append("\\%");
            proof {
                reveal_strlit("\\%");
                assert("\\%"@ =~= spec_escape_char(c));
            }
        } else if c == '\n' {
            out.append("\\n");
            proof {
                reveal_strlit("\\n");
                assert("\\n"@ =~= spec_escape_char(c));
            }
        } else {
            push_char(&mut out, c);
            proof {
                assert(out@ =~= spec_escape_drawtext(value@.take(i as int)) + spec_escape_char(c));
            }
        }
        i = i + 1;
    }
    proof {
        assert(value@.take(value@.len() as int) =~= value@);
    }
    out
}

/// The color with every whitespace character removed.
pub open spec fn spec_sanitized_color(s: Seq<char>) -> Seq<char>
    decreases s.len(),
{
    if s.len() == 0 {
        Seq::<char>::empty()
    } else if spec_is_whitespace(s.last()) {
        spec_sanitized_color(s.drop_last())
    } else {
        spec_sanitized_color(s.drop_last()).push(s.last())
    }
}

/// Removes whitespace from a color value (exec mirror of
/// [`spec_sanitized_color`]).
fn sanitize_color(value: &str) -> (r: String)
    ensures
        r@ == spec_sanitized_color(value@),
{
    let n = value.unicode_len();
    let mut out = String::new();
    let mut i: usize = 0;
    while i < n
        invariant
            n == value@.len(),
            i <= n,
            out@ == spec_sanitized_color(value@.take(i as int)),
        decreases n - i,
    {
        proof {
            assert(value@.take(i + 1).drop_last() =~= value@.take(i as int));
            assert(value@.take(i + 1).last() == value@[i as int]);
        }
        let c = value.get_char(i);
        if !is_whitespace_char(c) {
            push_char(&mut out, c);
        }
        i = i + 1;
    }
    proof {
        assert(value@.take(value@.len() as int) =~= value@);
    }
    out
}

// ---------------------------------------------------------------------
// Camera overlay coordinates.
// ---------------------------------------------------------------------

/// A normalized custom coordinate (millionths) clamped to [0, 1].
pub open spec fn spec_clamped_unit(v: i64) -> u64 {
    if v < 0 {
        0
    } else if v > 1000000 {
        1000000
    } else {
        v as u64
    }
}

/// The overlay position expression for the configured corner (with its
/// margin) or for clamped custom normalized coordinates.
pub open spec fn spec_camera_overlay_coordinates(p: Project) -> Seq<char> {
    let m = spec_dec(p.edits.camera_overlay.margin as nat);
    match p.edits.camera_overlay.position {
        CameraOverlayPosition::TopLeft => m + ":"@ + m,
        CameraOverlayPosition::TopRight => "W-w-"@ + m + ":"@ + m,
        CameraOverlayPosition::BottomLeft => m + ":H-h-"@ + m,
        CameraOverlayPosition::BottomRight => "W-w-"@ + m + ":H-h-"@ + m,
        CameraOverlayPosition::Custom => "(W-w)*"@ + spec_micros6(
            spec_clamped_unit(p.edits.camera_overlay.custom_x) as nat,
        ) + ":(H-h)*"@ + spec_micros6(spec_clamped_unit(p.edits.camera_overlay.custom_y) as nat),
    }
}

/// Renders the overlay position expression (exec mirror of
/// [`spec_camera_overlay_coordinates`]).
pub fn build_camera_overlay_coordinates(project: &Project) -> (r: String)
    ensures
        r@ == spec_camera_overlay_coordinates(*project),
{
    let margin = u64_to_string(project.edits.camera_overlay.margin as u64);
    match &project.edits.camera_overlay.position {
        CameraOverlayPosition::TopLeft => {
            let mut s = margin.clone();
            s.append(":");
            s.append(margin.as_str());
            s
        },
        CameraOverlayPosition::TopRight => {
            let mut s = String::from_str("W-w-");
            s.append(margin.as_str());
            s.append(":");
            s.append(margin.as_str());
            s
        },
        CameraOverlayPosition::BottomLeft => {
            let mut s = margin.clone();
            s.append(":H-h-");
            s.append(margin.as_str());
            s
        },
        CameraOverlayPosition::BottomRight => {
            let mut s = String::from_str("W-w-");
            s.append(margin.as_str());
            s.append(":H-h-");
            s.append(margin.as_str());
            s
        },
        CameraOverlayPosition::Custom => {
            let cx = if project.edits.camera_overlay.custom_x < 0 {
                0u64
            } else if project.edits.camera_overlay.custom_x > 1000000 {
                1000000u64
            } else {
                project.edits.camera_overlay.custom_x as u64
            };
            let cy = if project.edits.camera_overlay.custom_y < 0 {
                0u64
            } else if project.edits.camera_overlay.custom_y > 1000000 {
                1000000u64
            } else {
                project.edits.camera_overlay.custom_y as u64
            };
            let mut s = String::from_str("(W-w)*");
            s.append(micros6(cx).as_str());
            s.append(":(H-h)*");
            s.append(micros6(cy).as_str());
            s
        },
    }
}

// ---------------------------------------------------------------------
// Per-piece video filters.
// ---------------------------------------------------------------------

/// The crop-and-rescale suffix of a zoomed piece: crop to the zoomed
/// window (centered plus the configured pixel offset) and scale back to
/// the output resolution.
pub open spec fn spec_zoom_suffix(zoom: ActiveZoom, width: u32, height: u32) -> Seq<char> {
    let s6 = spec_micros6((if zoom.scale < 1010000 {
        1010000u64
    } else {
        zoom.scale
    }) as nat);
    ",crop=w="@ + ("iw/"@ + s6) + ":h="@ + ("ih/"@ + s6) + ":x='"@ + ("(iw-"@ + ("iw/"@ + s6)
        + ")/2+"@ + spec_millis3_signed(zoom.x as int)) + "':y='"@ + ("(ih-"@ + ("ih/"@ + s6)
        + ")/2+"@ + spec_millis3_signed(zoom.y as int)) + "',scale="@ + spec_dec(width as nat)
        + ":"@ + spec_dec(height as nat)
}

/// Appends the zoom suffix for one piece.
#[verifier::rlimit(60)]
pub fn append_zoom_piece_filter(filter: &mut String, zoom: &ActiveZoom, width: u32, height: u32)
    ensures
        final(filter)@ == old(filter)@ + spec_zoom_suffix(*zoom, width, height),
{
    let scale = if zoom.scale < 1010000 {
        1010000u64
    } else {
        zoom.scale
    };
    let s6 = micros6(scale);
    let mut crop_width = String::from_str("iw/");
    crop_width.append(s6.as_str());
    let mut crop_height = String::from_str("ih/");
    crop_height.append(s6.as_str());
    filter.append(",crop=w=");
    filter.append(crop_width.as_str());
    filter.append(":h=");
    filter.append(crop_height.as_str());
    filter.append(":x='");
    filter.append("(iw-");
    filter.append(crop_width.as_str());
    filter.append(")/2+");
    filter.append(millis3_signed(zoom.x).as_str());
    filter.append("':y='");
    filter.append("(ih-");
    filter.append(crop_height.as_str());
    filter.append(")/2+");
    filter.append(millis3_signed(zoom.y).as_str());
    filter.append("',scale=");
    filter.append(u64_to_string(width as u64).as_str());
    filter.append(":");
    filter.append(u64_to_string(height as u64).as_str());
    proof {
        assert(filter@ =~= old(filter)@ + spec_zoom_suffix(*zoom, width, height));
    }
}

/// The trim, timestamp-scale and optional zoom filter of one video
/// piece, labeled `[vpiece<idx>]`.
pub open spec fn spec_video_piece_filter(p: TimelinePiece, width: u32, height: u32, idx: nat) -> Seq<
    char,
> {
    let base = "[0:v]trim=start="@ + spec_micros6(p.start as nat) + ":end="@ + spec_micros6(
        p.end as nat,
    ) + ",setpts=(PTS-STARTPTS)/"@ + spec_micros6(p.speed as nat);
    (match p.zoom {
        Some(z) => base + spec_zoom_suffix(z, width, height),
        None => base,
    }) + spec_piece_label("vpiece"@, idx)
}

/// The per-piece filters of the whole piece list, in order.
pub open spec fn spec_video_piece_filters(
    pieces: Seq<TimelinePiece>,
    width: u32,
    height: u32,
) -> Seq<Seq<char>>
    decreases pieces.len(),
{
    if pieces.len() == 0 {
        Seq::<Seq<char>>::empty()
    } else {
        spec_video_piece_filters(pieces.drop_last(), width, height).push(
            spec_video_piece_filter(pieces.last(), width, height, (pieces.len() - 1) as nat),
        )
    }
}

/// The concat node joining all video piece labels into `[vconcat]`.
pub open spec fn spec_video_concat_filter(n: nat) -> Seq<char> {
    spec_labels_concat("vpiece"@, n) + "concat=n="@ + spec_dec(n) + ":v=1:a=0"@ + "[vconcat]"@
}

/// The filters of an edited video timeline.
pub open spec fn spec_video_timeline_filters(
    pieces: Seq<TimelinePiece>,
    width: u32,
    height: u32,
) -> Seq<Seq<char>> {
    if pieces.len() == 1 {
        spec_video_piece_filters(pieces, width, height)
    } else {
        spec_video_piece_filters(pieces, width, height).push(spec_video_concat_filter(pieces.len()))
    }
}

/// The label carrying the edited video timeline's output.
pub open spec fn spec_video_timeline_label(pieces: Seq<TimelinePiece>) -> Seq<char> {
    if pieces.len() == 1 {
        spec_piece_label("vpiece"@, 0)
    } else {
        "[vconcat]"@
    }
}

/// Emits the trim/speed/zoom filter of every piece and, when there is
/// more than one, a concat node joining them.
pub fn build_video_timeline_filters(pieces: &Vec<TimelinePiece>, width: u32, height: u32) -> (r: (
    Vec<String>,
    String,
))
    ensures
        views(r.0@) == spec_video_timeline_filters(pieces@, width, height),
        r.1@ == spec_video_timeline_label(pieces@),
{
    let mut filters: Vec<String> = Vec::new();
    let mut labelcat = String::new();
    let mut i: usize = 0;
    while i < pieces.len()
        invariant
            i <= pieces.len(),
            views(filters@) == spec_video_piece_filters(pieces@.take(i as int), width, height),
            labelcat@ == spec_labels_concat("vpiece"@, i as nat),
        decreases pieces.len() - i,
    {
        proof {
            assert(pieces@.take(i + 1).drop_last() =~= pieces@.take(i as int));
            assert(pieces@.take(i + 1).last() == pieces@[i as int]);
        }
        let piece = &pieces[i];
        let mut filter = String::from_str("[0:v]trim=start=");
        filter.append(micros6(piece.start).as_str());
        filter.append(":end=");
        filter.append(micros6(piece.end).as_str());
        filter.append(",setpts=(PTS-STARTPTS)/");
        filter.append(micros6(piece.speed).as_str());
        match &piece.zoom {
            Some(z) => {
                append_zoom_piece_filter(&mut filter, z, width, height);
            },
            None => {},
        }
        filter.append(piece_label("vpiece", i).as_str());
        proof {
            assert(filter@ =~= spec_video_piece_filter(pieces@[i as int], width, height, i as nat));
        }
        push_string_arg(&mut filters, filter);
        labelcat.append(piece_label("vpiece", i).as_str());
        i = i + 1;
    }
    proof {
        assert(pieces@.take(pieces@.len() as int) =~= pieces@);
    }
    if pieces.len() == 1 {
        return (filters, piece_label("vpiece", 0));
    }
    let mut concat_filter = labelcat;
    concat_filter.append("concat=n=");
    concat_filter.append(u64_to_string(pieces.len() as u64).as_str());
    concat_filter.append(":v=1:a=0");
    concat_filter.append("[vconcat]");
    proof {
        assert(concat_filter@ =~= spec_video_concat_filter(pieces@.len() as nat));
    }
    push_string_arg(&mut filters, concat_filter);
    (filters, String::from_str("[vconcat]"))
}

// ---------------------------------------------------------------------
// Annotation overlays.
// ---------------------------------------------------------------------

/// A normalized box dimension (millionths) clamped to [0.02, 1].
pub open spec fn spec_clamped_dim(v: i64) -> u64 {
    if v < 20000 {
        20000
    } else if v > 1000000 {
        1000000
    } else {
        v as u64
    }
}

/// An opacity (thousandths) clamped to [0.1, 1].
pub open spec fn spec_clamped_opacity(v: i64) -> u64 {
    if v < 100 {
        100
    } else if v > 1000 {
        1000
    } else {
        v as u64
    }
}

/// The annotation's display range: its start, and its end clamped to
/// the project duration.
pub open spec fn spec_ann_end(a: Annotation, duration: u64) -> u64 {
    if a.end_time < duration {
        a.end_time
    } else {
        duration
    }
}

/// An annotation whose clamped range is not longer than a hundredth of
/// a second is not drawn.
pub open spec fn spec_ann_skipped(a: Annotation, duration: u64) -> bool {
    spec_ann_end(a, duration) as int <= a.start_time + 10000
}

/// Whether the annotation carries text worth drawing.
pub open spec fn spec_ann_has_text(a: Annotation) -> bool {
    match a.text {
        Some(t) => spec_trim(t@).len() > 0,
        None => false,
    }
}

/// The box-drawing node of one annotation, without input or output
/// labels.
pub open spec fn spec_drawbox_core(a: Annotation, duration: u64) -> Seq<char> {
    "drawbox=x=iw*"@ + spec_micros6(spec_clamped_unit(a.x) as nat) + ":y=ih*"@ + spec_micros6(
        spec_clamped_unit(a.y) as nat,
    ) + ":w=iw*"@ + spec_micros6(spec_clamped_dim(a.width) as nat) + ":h=ih*"@ + spec_micros6(
        spec_clamped_dim(a.height) as nat,
    ) + ":color="@ + spec_sanitized_color(a.color@) + "@"@ + crate::numtext::spec_millis3(
        spec_clamped_opacity(a.opacity) as nat,
    ) + ":t="@ + spec_dec((if a.thickness < 1 {
        1u32
    } else {
        a.thickness
    }) as nat) + ":enable='between(t,"@ + spec_micros6(a.start_time as nat) + ","@ + spec_micros6(
        spec_ann_end(a, duration) as nat,
    ) + ")'"@
}

/// The text-overlay node of one annotation, without input or output
/// labels; `pad` and `fontsize` differ between the video and the
/// animated-image paths.
pub open spec fn spec_drawtext_core(a: Annotation, duration: u64, pad: nat, fontsize: nat) -> Seq<
    char,
> {
    "drawtext=text='"@ + spec_escape_drawtext(spec_trim(a.text.unwrap()@)) + "':x=iw*"@
        + spec_micros6(spec_clamped_unit(a.x) as nat) + "+"@ + spec_dec(pad) + ":y=ih*"@
        + spec_micros6(spec_clamped_unit(a.y) as nat) + "+"@ + spec_dec(pad) + ":fontsize="@
        + spec_dec(fontsize) + ":fontcolor=white@"@ + crate::numtext::spec_millis3(
        spec_clamped_opacity(a.opacity) as nat,
    ) + ":box=1:boxcolor=black@0.35:enable='between(t,"@ + spec_micros6(a.start_time as nat) + ","@
        + spec_micros6(spec_ann_end(a, duration) as nat) + ")'"@
}

/// The labeled filter nodes that the annotations add to the video
/// chain, and the label left carrying the video after them.
pub open spec fn spec_apply_annotations(
    cur: Seq<char>,
    anns: Seq<Annotation>,
    duration: u64,
) -> (Seq<Seq<char>>, Seq<char>)
    decreases anns.len(),
{
    if anns.len() == 0 {
        (Seq::<Seq<char>>::empty(), cur)
    } else {
        let prev = spec_apply_annotations(cur, anns.drop_last(), duration);
        let a = anns.last();
        let idx = (anns.len() - 1) as nat;
        if spec_ann_skipped(a, duration) {
            prev
        } else {
            let box_label = "[vannot"@ + spec_dec(idx) + "]"@;
            let box_filter = prev.1 + spec_drawbox_core(a, duration) + box_label;
            if spec_ann_has_text(a) {
                let text_label = "[vannottxt"@ + spec_dec(idx) + "]"@;
                let text_filter = box_label + spec_drawtext_core(a, duration, 10, 28) + text_label;
                (prev.0.push(box_filter).push(text_filter), text_label)
            } else {
                (prev.0.push(box_filter), box_label)
            }
        }
    }
}

/// Renders the box-drawing node of one annotation.
#[verifier::rlimit(60)]
fn drawbox_core(a: &Annotation, duration: u64) -> (r: String)
    ensures
        r@ == spec_drawbox_core(*a, duration),
{
    let end = if a.end_time < duration {
        a.end_time
    } else {
        duration
    };
    let thickness = if a.thickness < 1 {
        1u32
    } else {
        a.thickness
    };
    let mut s = String::from_str("drawbox=x=iw*");
    s.append(micros6(clamped_unit(a.x)).as_str());
    s.append(":y=ih*");
    s.append(micros6(clamped_unit(a.y)).as_str());
    s.append(":w=iw*");
    s.append(micros6(clamped_dim(a.width)).as_str());
    s.append(":h=ih*");
    s.append(micros6(clamped_dim(a.height)).as_str());
    s.append(":color=");
    s.append(sanitize_color(a.color.as_str()).as_str());
    s.append("@");
    s.append(crate::numtext::millis3(clamped_opacity(a.opacity)).as_str());
    s.append(":t=");
    s.append(u64_to_string(thickness as u64).as_str());
    s.append(":enable='between(t,");
    s.append(micros6(a.start_time).as_str());
    s.append(",");
    s.append(micros6(end).as_str());
    s.append(")'");
    proof {
        assert(s@ =~= spec_drawbox_core(*a, duration));
    }
    s
}

/// Renders the text-overlay node of one annotation.
#[verifier::rlimit(60)]
fn drawtext_core(a: &Annotation, duration: u64, pad: u64, fontsize: u64) -> (r: String)
    requires
        a.text is Some,
    ensures
        r@ == spec_drawtext_core(*a, duration, pad as nat, fontsize as nat),
{
    let end = if a.end_time < duration {
        a.end_time
    } else {
        duration
    };
    let text = match &a.text {
        Some(t) => str_trim(t.as_str()),
        None => "",
    };
    let mut s = String::from_str("drawtext=text='");
    s.append(escape_drawtext_text(text).as_str());
    s.append("':x=iw*");
    s.append(micros6(clamped_unit(a.x)).as_str());
    s.append("+");
    s.append(u64_to_string(pad).as_str());
    s.append(":y=ih*");
    s.append(micros6(clamped_unit(a.y)).as_str());
    s.append("+");
    s.append(u64_to_string(pad).as_str());
    s.append(":fontsize=");
    s.append(u64_to_string(fontsize).as_str());
    s.append(":fontcolor=white@");
    s.append(crate::numtext::millis3(clamped_opacity(a.opacity)).as_str());
    s.append(":box=1:boxcolor=black@0.35:enable='between(t,");
    s.append(micros6(a.start_time).as_str());
    s.append(",");
    s.append(micros6(end).as_str());
    s.append(")'");
    proof {
        assert(s@ =~= spec_drawtext_core(*a, duration, pad as nat, fontsize as nat));
    }
    s
}

/// Clamps a normalized coordinate to [0, 1] (millionths).
fn clamped_unit(v: i64) -> (r: u64)
    ensures
        r == spec_clamped_unit(v),
{
    if v < 0 {
        0
    } else if v > 1000000 {
        1000000
    } else {
        v as u64
    }
}

/// Clamps a normalized dimension to [0.02, 1] (millionths).
fn clamped_dim(v: i64) -> (r: u64)
    ensures
        r == spec_clamped_dim(v),
{
    if v < 20000 {
        20000
    } else if v > 1000000 {
        1000000
    } else {
        v as u64
    }
}

/// Clamps an opacity to [0.1, 1] (thousandths).
fn clamped_opacity(v: i64) -> (r: u64)
    ensures
        r == spec_clamped_opacity(v),
{
    if v < 100 {
        100
    } else if v > 1000 {
        1000
    } else {
        v as u64
    }
}

/// Whether the annotation carries text worth drawing.
fn ann_has_text(a: &Annotation) -> (r: bool)
    ensures
        r == spec_ann_has_text(*a),
{
    match &a.text {
        Some(t) => {
            let trimmed = str_trim(t.as_str());
            trimmed.unicode_len() > 0
        },
        None => false,
    }
}

/// Whether the annotation's clamped range is too short to draw.
fn ann_skipped(a: &Annotation, duration: u64) -> (r: bool)
    ensures
        r == spec_ann_skipped(*a, duration),
{
    let end = if a.end_time < duration {
        a.end_time
    } else {
        duration
    };
    end <= a.start_time || end - a.start_time <= 10000
}

/// Applies the annotations in authored order, each as a box-drawing
/// node (and a text node when it has text), threading the video label
/// through; returns the final label.
pub fn apply_video_annotations(
    filter_parts: &mut Vec<String>,
    current_video_label: String,
    project: &Project,
) -> (r: String)
    ensures
        views(final(filter_parts)@) == views(old(filter_parts)@) + spec_apply_annotations(
            current_video_label@,
            project.edits.annotations@,
            project.duration,
        ).0,
        r@ == spec_apply_annotations(
            current_video_label@,
            project.edits.annotations@,
            project.duration,
        ).1,
{
    let ghost cur0 = current_video_label@;
    let ghost anns = project.edits.annotations@;
    let duration = project.duration;
    let mut cur = current_video_label;
    let mut i: usize = 0;
    while i < project.edits.annotations.len()
        invariant
            i <= anns.len(),
            project.edits.annotations@ == anns,
            project.duration == duration,
            views(filter_parts@) == views(old(filter_parts)@) + spec_apply_annotations(
                cur0,
                anns.take(i as int),
                duration,
            ).0,
            cur@ == spec_apply_annotations(cur0, anns.take(i as int), duration).1,
        decreases anns.len() - i,
    {
        proof {
            assert(anns.take(i + 1).drop_last() =~= anns.take(i as int));
            assert(anns.take(i + 1).last() == anns[i as int]);
        }
        let a = &project.edits.annotations[i];
        if !ann_skipped(a, duration) {
            let mut box_label = String::from_str("[vannot");
            box_label.append(u64_to_string(i as u64).as_str());
            box_label.append("]");
            let mut box_filter = cur;
            box_filter.append(drawbox_core(a, duration).as_str());
            box_filter.append(box_label.as_str());
            push_string_arg(filter_parts, box_filter);
            cur = box_label;
            if ann_has_text(a) {
                let mut text_label = String::from_str("[vannottxt");
                text_label.append(u64_to_string(i as u64).as_str());
                text_label.append("]");
                let mut text_filter = cur.clone();
                text_filter.append(drawtext_core(a, duration, 10, 28).as_str());
                text_filter.append(text_label.as_str());
                push_string_arg(filter_parts, text_filter);
                cur = text_label;
            }
            proof {
                assert(views(filter_parts@) =~= views(old(filter_parts)@)
                    + spec_apply_annotations(cur0, anns.take(i + 1), duration).0);
            }
        }
        i = i + 1;
    }
    proof {
        assert(anns.take(anns.len() as int) =~= anns);
    }
    cur
}

/// The unlabeled annotation chain of the animated-image path: one
/// comma-prefixed box node (and text node) per drawn annotation.
pub open spec fn spec_annotation_chain(anns: Seq<Annotation>, duration: u64) -> Seq<char>
    decreases anns.len(),
{
    if anns.len() == 0 {
        Seq::<char>::empty()
    } else {
        let prev = spec_annotation_chain(anns.drop_last(), duration);
        let a = anns.last();
        if spec_ann_skipped(a, duration) {
            prev
        } else if spec_ann_has_text(a) {
            prev + ","@ + spec_drawbox_core(a, duration) + ","@ + spec_drawtext_core(
                a,
                duration,
                8,
                20,
            )
        } else {
            prev + ","@ + spec_drawbox_core(a, duration)
        }
    }
}

/// Renders the comma-prefixed annotation chain used by the
/// animated-image path.
pub fn build_annotation_drawbox_chain(project: &Project) -> (r: String)
    ensures
        r@ == spec_annotation_chain(project.edits.annotations@, project.duration),
{
    let ghost anns = project.edits.annotations@;
    let duration = project.duration;
    let mut chain = String::new();
    let mut i: usize = 0;
    while i < project.edits.annotations.len()
        invariant
            i <= anns.len(),
            project.edits.annotations@ == anns,
            project.duration == duration,
            chain@ == spec_annotation_chain(anns.take(i as int), duration),
        decreases anns.len() - i,
    {
        proof {
            assert(anns.take(i + 1).drop_last() =~= anns.take(i as int));
            assert(anns.take(i + 1).last() == anns[i as int]);
        }
        let a = &project.edits.annotations[i];
        if !ann_skipped(a, duration) {
            chain.append(",");
            chain.append(drawbox_core(a, duration).as_str());
            if ann_has_text(a) {
                chain.append(",");
                chain.append(drawtext_core(a, duration, 8, 20).as_str());
            }
        }
        i = i + 1;
    }
    proof {
        assert(anns.take(anns.len() as int) =~= anns);
    }
    chain
}

} // verus!
