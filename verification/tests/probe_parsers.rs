use open_rec::probe::{
    parse_ffmpeg_progress, parse_ffprobe_dimensions_output, parse_ffprobe_duration_output,
    parse_ffprobe_duration_seconds, parse_micros, parse_u32, probe_reports_audio_stream,
};

#[test]
fn parses_ffprobe_dimensions_output() {
    assert!(matches!(parse_ffprobe_dimensions_output("1920x1080"), Ok((1920, 1080))));
    assert!(matches!(parse_ffprobe_dimensions_output(" 3840x2160 "), Ok((3840, 2160))));
    assert!(parse_ffprobe_dimensions_output("0x1080").is_err());
    assert!(parse_ffprobe_dimensions_output("1920x0").is_err());
    assert!(parse_ffprobe_dimensions_output("1920x1080x24").is_err());
    assert!(parse_ffprobe_dimensions_output("invalid").is_err());
}

#[test]
fn lib_parses_ffprobe_duration_output() {
    assert!(matches!(parse_ffprobe_duration_output("12.5"), Ok(12_500_000)));
    assert!(parse_ffprobe_duration_output("0").is_err());
    assert!(parse_ffprobe_duration_output("-2.0").is_err());
    assert!(parse_ffprobe_duration_output("NaN").is_err());
    assert!(parse_ffprobe_duration_output("N/A").is_err());
    assert!(parse_ffprobe_duration_output("").is_err());
}

#[test]
fn recorder_parses_ffprobe_duration_output() {
    assert_eq!(parse_ffprobe_duration_seconds("12.34"), Some(12_340_000));
    assert_eq!(parse_ffprobe_duration_seconds(" 0.0 "), Some(0));
    assert_eq!(parse_ffprobe_duration_seconds("N/A"), None);
    assert_eq!(parse_ffprobe_duration_seconds(""), None);
    assert_eq!(parse_ffprobe_duration_seconds("not-a-number"), None);
}

#[test]
fn parses_out_time_us_progress() {
    let parsed = parse_ffmpeg_progress("out_time_us=3500000");
    assert_eq!(parsed, Some(3_500_000));
}

#[test]
fn parses_out_time_ms_progress() {
    let parsed = parse_ffmpeg_progress("out_time_ms=4200000");
    assert_eq!(parsed, Some(4_200_000));
}

#[test]
fn parses_out_time_hhmmss_progress() {
    let parsed = parse_ffmpeg_progress("out_time=00:01:02.25");
    assert_eq!(parsed, Some(62_250_000));
}

#[test]
fn parses_legacy_time_progress() {
    let parsed =
        parse_ffmpeg_progress("frame=  32 fps=0.0 q=0.0 size=0kB time=00:00:05.04 bitrate=0.0kbits/s");
    assert_eq!(parsed, Some(5_040_000));
}

#[test]
fn ignores_invalid_progress_tokens() {
    assert_eq!(parse_ffmpeg_progress("out_time_ms=abc"), None);
    assert_eq!(parse_ffmpeg_progress("time=bad-value"), None);
}

#[test]
fn parses_plain_decimals_into_millionths() {
    assert_eq!(parse_micros("5"), Some(5_000_000));
    assert_eq!(parse_micros("5.1"), Some(5_100_000));
    assert_eq!(parse_micros("+0.25"), Some(250_000));
    assert_eq!(parse_micros("0.1234567"), Some(123_456));
    assert_eq!(parse_micros("5."), Some(5_000_000));
    assert_eq!(parse_micros(".5"), None);
    assert_eq!(parse_micros("-1"), None);
    assert_eq!(parse_micros("1e3"), None);
    assert_eq!(parse_micros(""), None);
}

#[test]
fn parses_u32_like_the_standard_library() {
    assert_eq!(parse_u32("1920"), Ok(1920));
    assert_eq!(parse_u32("+7"), Ok(7));
    assert_eq!(parse_u32(""), Err("cannot parse integer from empty string"));
    assert_eq!(parse_u32("12a"), Err("invalid digit found in string"));
    assert_eq!(parse_u32("4294967295"), Ok(4294967295));
    assert_eq!(parse_u32("4294967296"), Err("number too large to fit in target type"));
}

#[test]
fn audio_stream_probe_needs_success_and_a_stream_index() {
    assert!(probe_reports_audio_stream(true, " 0 \n"));
    assert!(probe_reports_audio_stream(true, "1"));
    assert!(!probe_reports_audio_stream(true, "   \n"));
    assert!(!probe_reports_audio_stream(true, ""));
    assert!(!probe_reports_audio_stream(false, "0"));
}
