use base64::Engine as _;
use clipforge::engine::{thumbnail_base64, FFmpegExecutor};

fn executor() -> FFmpegExecutor {
    FFmpegExecutor::from_paths("/usr/bin/ffmpeg".to_string(), "/usr/bin/ffprobe".to_string())
}

fn strings(v: Vec<&str>) -> Vec<String> {
    v.into_iter().map(|s| s.to_string()).collect()
}

#[test]
fn executor_keeps_its_paths() {
    let e = executor();
    assert_eq!(e.ffmpeg_path, "/usr/bin/ffmpeg");
    assert_eq!(e.ffprobe_path, "/usr/bin/ffprobe");
}

#[test]
fn probe_invocation() {
    let args = executor().probe_args("movie.mp4");
    assert_eq!(
        args,
        strings(vec![
            "-v",
            "quiet",
            "-print_format",
            "json",
            "-show_format",
            "-show_streams",
            "movie.mp4",
        ])
    );
}

#[test]
fn thumbnail_invocation() {
    let args = executor().thumbnail_args("movie.mp4", 2500, "/tmp/thumb.jpg");
    assert_eq!(
        args,
        strings(vec![
            "-ss",
            "2.500",
            "-i",
            "movie.mp4",
            "-vframes",
            "1",
            "-q:v",
            "2",
            "-f",
            "image2",
            "/tmp/thumb.jpg",
        ])
    );
}

#[test]
fn screen_capture_invocation_with_overlays_and_audio() {
    let args = executor().screen_recording_args("out.mp4", "1280x720", 30, true, true, Some("1"));
    assert_eq!(
        args,
        strings(vec![
            "-f",
            "avfoundation",
            "-capture_cursor",
            "1",
            "-capture_mouse_clicks",
            "1",
            "-i",
            "3:1",
            "-c:v",
            "libx264",
            "-preset",
            "ultrafast",
            "-crf",
            "23",
            "-r",
            "30",
            "-s",
            "1280x720",
            "-y",
            "out.mp4",
        ])
    );
}

#[test]
fn screen_capture_invocation_plain_source() {
    let args = executor().screen_recording_args("out.mp4", "source", 60, false, false, None);
    assert_eq!(
        args,
        strings(vec![
            "-f",
            "avfoundation",
            "-i",
            "3:none",
            "-c:v",
            "libx264",
            "-preset",
            "ultrafast",
            "-crf",
            "23",
            "-r",
            "60",
            "-y",
            "out.mp4",
        ])
    );
}

#[test]
fn webcam_capture_invocation() {
    let args = executor().webcam_recording_args("cam.mp4", 2, "640x480", 24, None);
    assert_eq!(
        args,
        strings(vec![
            "-f",
            "avfoundation",
            "-i",
            "2:none",
            "-c:v",
            "libx264",
            "-preset",
            "ultrafast",
            "-crf",
            "23",
            "-r",
            "24",
            "-s",
            "640x480",
            "-y",
            "cam.mp4",
        ])
    );
}

#[test]
fn device_listing_invocation() {
    let args = executor().list_devices_args();
    assert_eq!(
        args,
        strings(vec!["-f", "avfoundation", "-list_devices", "true", "-i", ""])
    );
}

#[test]
fn thumbnail_payload_is_standard_base64() {
    assert_eq!(thumbnail_base64(&vec![]), "");
    assert_eq!(thumbnail_base64(&vec![b'a']), "YQ==");
    assert_eq!(thumbnail_base64(&vec![b'a', b'b']), "YWI=");
    assert_eq!(thumbnail_base64(&vec![b'a', b'b', b'c']), "YWJj");
    assert_eq!(thumbnail_base64(&vec![0xff, 0xfe, 0xfd, 0xfc]), "//79/A==");
    let bytes: Vec<u8> = (0u16..=255).map(|b| b as u8).collect();
    assert_eq!(
        thumbnail_base64(&bytes),
        base64::engine::general_purpose::STANDARD.encode(&bytes)
    );
}
