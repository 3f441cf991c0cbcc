use clipforge::devices::{parse_camera_list, split_lines};
use clipforge::probe::{
    parse_decimal_ms, parse_fps_milli, parse_metadata, MetadataError, ProbeFormat, ProbeStream,
};

#[test]
fn split_lines_keeps_every_piece() {
    let lines = split_lines("a\nb\nc");
    assert_eq!(lines, vec!["a".to_string(), "b".to_string(), "c".to_string()]);
    let lines = split_lines("a\n");
    assert_eq!(lines, vec!["a".to_string(), "".to_string()]);
    let lines = split_lines("");
    assert_eq!(lines, vec!["".to_string()]);
}

#[test]
fn device_block_yields_exactly_the_camera() {
    let stderr = "\
[AVFoundation indev @ 0x156630da0] AVFoundation video devices:\n\
[AVFoundation indev @ 0x156630da0] [3] Capture screen 0\n\
[AVFoundation indev @ 0x156630da0] [0] Built-in Camera\n\
[AVFoundation indev @ 0x156630da0] AVFoundation audio devices:\n\
[AVFoundation indev @ 0x156630da0] [0] Built-in Microphone\n";
    let cams = parse_camera_list(stderr);
    assert_eq!(cams.len(), 1);
    assert_eq!(cams[0].index, 0);
    assert_eq!(cams[0].name, "Built-in Camera");
}

#[test]
fn lines_outside_the_video_section_are_ignored() {
    let stderr = "\
[something] [9] Not a device yet\n\
[AVFoundation indev @ 0x1] AVFoundation video devices:\n\
[AVFoundation indev @ 0x1] [0] FaceTime HD Camera\n\
[AVFoundation indev @ 0x1] [1] External Camera\n\
[AVFoundation indev @ 0x1] AVFoundation audio devices:\n\
[AVFoundation indev @ 0x1] [5] After the break\n";
    let cams = parse_camera_list(stderr);
    assert_eq!(cams.len(), 2);
    assert_eq!(cams[0].index, 0);
    assert_eq!(cams[0].name, "FaceTime HD Camera");
    assert_eq!(cams[1].index, 1);
    assert_eq!(cams[1].name, "External Camera");
}

#[test]
fn screen_capture_devices_are_skipped() {
    let stderr = "\
AVFoundation video devices:\n\
[x] [2] Capture screen 0\n\
[x] [3] Capture screen 1\n\
AVFoundation audio devices:\n";
    let cams = parse_camera_list(stderr);
    assert_eq!(cams.len(), 0);
}

#[test]
fn malformed_device_lines_are_ignored() {
    let stderr = "\
AVFoundation video devices:\n\
no brackets here\n\
[x] [notanumber] Camera\n\
[x] [7]   \n\
[x] [1] Good Camera\n\
AVFoundation audio devices:\n";
    let cams = parse_camera_list(stderr);
    assert_eq!(cams.len(), 1);
    assert_eq!(cams[0].index, 1);
    assert_eq!(cams[0].name, "Good Camera");
}

#[test]
fn empty_diagnostic_yields_no_cameras() {
    assert_eq!(parse_camera_list("").len(), 0);
    assert_eq!(parse_camera_list("[x] [0] Camera before any header\n").len(), 0);
}

#[test]
fn decimal_ms_parses_wholes_and_fractions() {
    assert_eq!(parse_decimal_ms("2"), Some(2000));
    assert_eq!(parse_decimal_ms("2.5"), Some(2500));
    assert_eq!(parse_decimal_ms("123.456"), Some(123456));
    assert_eq!(parse_decimal_ms("0.05"), Some(50));
    assert_eq!(parse_decimal_ms("2.5678"), Some(2567));
    assert_eq!(parse_decimal_ms("7."), Some(7000));
}

#[test]
fn decimal_ms_rejects_bad_shapes() {
    assert_eq!(parse_decimal_ms(""), None);
    assert_eq!(parse_decimal_ms(".5"), None);
    assert_eq!(parse_decimal_ms("a"), None);
    assert_eq!(parse_decimal_ms("1.2.3"), None);
    assert_eq!(parse_decimal_ms("-1"), None);
    assert_eq!(parse_decimal_ms("1e3"), None);
}

#[test]
fn fps_parses_ratios_and_decimals() {
    assert_eq!(parse_fps_milli("30000/1001"), Ok(29970));
    assert_eq!(parse_fps_milli("30"), Ok(30000));
    assert_eq!(parse_fps_milli("29.97"), Ok(29970));
    assert_eq!(parse_fps_milli("25/1"), Ok(25000));
}

#[test]
fn fps_reports_each_failure() {
    assert_eq!(parse_fps_milli("30/0"), Err(MetadataError::ZeroFpsDenominator));
    assert_eq!(parse_fps_milli("a/1"), Err(MetadataError::InvalidFpsNumerator));
    assert_eq!(parse_fps_milli("1/a"), Err(MetadataError::InvalidFpsDenominator));
    assert_eq!(parse_fps_milli("1/2/3"), Err(MetadataError::InvalidFpsFormat));
    assert_eq!(parse_fps_milli("abc"), Err(MetadataError::InvalidFpsFormat));
    assert_eq!(parse_fps_milli(""), Err(MetadataError::InvalidFpsFormat));
}

fn video_stream() -> ProbeStream {
    ProbeStream {
        codec_type: "video".to_string(),
        codec_name: Some("h264".to_string()),
        width: Some(1920),
        height: Some(1080),
        r_frame_rate: Some("30000/1001".to_string()),
    }
}

fn audio_stream() -> ProbeStream {
    ProbeStream {
        codec_type: "audio".to_string(),
        codec_name: Some("aac".to_string()),
        width: None,
        height: None,
        r_frame_rate: None,
    }
}

fn format_section() -> ProbeFormat {
    ProbeFormat {
        duration: Some("12.5".to_string()),
        bit_rate: Some("128000".to_string()),
        size: Some("1024".to_string()),
    }
}

#[test]
fn metadata_is_assembled_from_the_first_video_stream() {
    let streams = vec![audio_stream(), video_stream()];
    let m = parse_metadata(&streams, &format_section()).unwrap();
    assert_eq!(m.duration_ms, 12500);
    assert_eq!(m.width, 1920);
    assert_eq!(m.height, 1080);
    assert_eq!(m.fps_milli, 29970);
    assert_eq!(m.codec, "h264");
    assert_eq!(m.bitrate, 128000);
    assert_eq!(m.file_size, 1024);
}

#[test]
fn metadata_errors_name_the_missing_piece() {
    let no_video = vec![audio_stream()];
    assert_eq!(
        parse_metadata(&no_video, &format_section()),
        Err(MetadataError::NoVideoStream)
    );
    let streams = vec![video_stream()];
    let mut f = format_section();
    f.duration = None;
    assert_eq!(parse_metadata(&streams, &f), Err(MetadataError::BadDuration));
    let mut f = format_section();
    f.duration = Some("oops".to_string());
    assert_eq!(parse_metadata(&streams, &f), Err(MetadataError::BadDuration));
    let mut s = video_stream();
    s.width = None;
    assert_eq!(
        parse_metadata(&vec![s], &format_section()),
        Err(MetadataError::BadWidth)
    );
    let mut s = video_stream();
    s.width = Some(5_000_000_000);
    assert_eq!(
        parse_metadata(&vec![s], &format_section()),
        Err(MetadataError::BadWidth)
    );
    let mut s = video_stream();
    s.height = None;
    assert_eq!(
        parse_metadata(&vec![s], &format_section()),
        Err(MetadataError::BadHeight)
    );
    let mut s = video_stream();
    s.r_frame_rate = None;
    assert_eq!(
        parse_metadata(&vec![s], &format_section()),
        Err(MetadataError::MissingFrameRate)
    );
    let mut s = video_stream();
    s.r_frame_rate = Some("30/0".to_string());
    assert_eq!(
        parse_metadata(&vec![s], &format_section()),
        Err(MetadataError::ZeroFpsDenominator)
    );
}

#[test]
fn metadata_defaults_are_lenient() {
    let mut s = video_stream();
    s.codec_name = None;
    let mut f = format_section();
    f.bit_rate = Some("not a number".to_string());
    f.size = None;
    let m = parse_metadata(&vec![s], &f).unwrap();
    assert_eq!(m.codec, "unknown");
    assert_eq!(m.bitrate, 0);
    assert_eq!(m.file_size, 0);
}

#[test]
fn metadata_error_messages() {
    assert_eq!(
        MetadataError::NoVideoStream.message(),
        "No video stream found"
    );
    assert_eq!(
        MetadataError::BadDuration.message(),
        "Failed to parse duration"
    );
    assert_eq!(
        MetadataError::ZeroFpsDenominator.message(),
        "FPS denominator cannot be zero"
    );
}
