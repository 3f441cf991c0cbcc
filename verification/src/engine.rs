//! The transcoding-engine executor: the pair of binary paths the caller
//! discovered, and the exact argument lists for every operation the
//! backend runs — probing, thumbnail extraction, screen and camera
//! capture, and device listing. The caller spawns the processes; the
//! argument lists themselves are pinned down here.

use vstd::prelude::*;
use vstd::string::StringExecFns;
use crate::numfmt::{spec_dec, spec_secs, u64_to_dec, ms_to_secs};
use crate::textutil::str_eq;

verus! {

/// The transcoding engine's two binaries, located by the caller.
pub struct FFmpegExecutor {
    pub ffmpeg_path: String,
    pub ffprobe_path: String,
}

/// The probe invocation: quiet, structured output, format and stream
/// sections, for one file.
pub open spec fn spec_probe_args(file_path: Seq<char>) -> Seq<Seq<char>> {
    seq![
        "-v"@,
        "quiet"@,
        "-print_format"@,
        "json"@,
        "-show_format"@,
        "-show_streams"@,
        file_path,
    ]
}

/// The single-frame extraction: seek to the timestamp, decode one frame at
/// high quality, write it as an image.
pub open spec fn spec_thumbnail_args(
    file_path: Seq<char>,
    timestamp_ms: nat,
    output_path: Seq<char>,
) -> Seq<Seq<char>> {
    seq![
        "-ss"@,
        spec_secs(timestamp_ms),
        "-i"@,
        file_path,
        "-vframes"@,
        "1"@,
        "-q:v"@,
        "2"@,
        "-f"@,
        "image2"@,
        output_path,
    ]
}

/// The capture device selector "<video>:<audio>"; without an audio device
/// the audio side is "none".
pub open spec fn spec_device_input(video: Seq<char>, audio: Option<Seq<char>>) -> Seq<char> {
    video + ":"@ + (match audio {
        Some(a) => a,
        None => "none"@,
    })
}

/// The screen-capture invocation: the platform capture input (screen
/// device, optional cursor and click overlays), the low-latency encoder
/// policy, the target frame rate, a size only when not recording at source
/// resolution, overwriting the output.
pub open spec fn spec_screen_recording_args(
    output_path: Seq<char>,
    resolution: Seq<char>,
    fps: nat,
    capture_cursor: bool,
    capture_clicks: bool,
    audio: Option<Seq<char>>,
) -> Seq<Seq<char>> {
    seq!["-f"@, "avfoundation"@] + (if capture_cursor {
        seq!["-capture_cursor"@, "1"@]
    } else {
        Seq::empty()
    }) + (if capture_clicks {
        seq!["-capture_mouse_clicks"@, "1"@]
    } else {
        Seq::empty()
    }) + seq!["-i"@, spec_device_input("3"@, audio)] + seq![
        "-c:v"@,
        "libx264"@,
        "-preset"@,
        "ultrafast"@,
        "-crf"@,
        "23"@,
        "-r"@,
        spec_dec(fps),
    ] + (if resolution != "source"@ {
        seq!["-s"@, resolution]
    } else {
        Seq::empty()
    }) + seq!["-y"@, output_path]
}

/// The camera-capture invocation: as for the screen, but selecting the
/// camera by its device index and without cursor or click overlays.
pub open spec fn spec_webcam_recording_args(
    output_path: Seq<char>,
    camera_index: nat,
    resolution: Seq<char>,
    fps: nat,
    audio: Option<Seq<char>>,
) -> Seq<Seq<char>> {
    seq!["-f"@, "avfoundation"@, "-i"@, spec_device_input(spec_dec(camera_index), audio)] + seq![
        "-c:v"@,
        "libx264"@,
        "-preset"@,
        "ultrafast"@,
        "-crf"@,
        "23"@,
        "-r"@,
        spec_dec(fps),
    ] + (if resolution != "source"@ {
        seq!["-s"@, resolution]
    } else {
        Seq::empty()
    }) + seq!["-y"@, output_path]
}

/// The device-listing invocation; the engine prints the device table on
/// its error stream and exits non-zero, which the caller tolerates.
pub open spec fn spec_list_devices_args() -> Seq<Seq<char>> {
    seq!["-f"@, "avfoundation"@, "-list_devices"@, "true"@, "-i"@, ""@]
}

impl FFmpegExecutor {
    /// An executor over the two binaries the caller located.
    pub fn from_paths(ffmpeg_path: String, ffprobe_path: String) -> (e: Self)
        ensures
            e.ffmpeg_path@ == ffmpeg_path@,
            e.ffprobe_path@ == ffprobe_path@,
    {
        FFmpegExecutor { ffmpeg_path, ffprobe_path }
    }

    /// The argument list for probing one file's metadata.
    pub fn probe_args(&self, file_path: &str) -> (args: Vec<String>)
        ensures
            args.deep_view() == spec_probe_args(file_path@),
    {
        let mut args: Vec<String> = Vec::new();
        args.push(String::from_str("-v"));
        args.push(String::from_str("quiet"));
        args.push(String::from_str("-print_format"));
        args.push(String::from_str("json"));
        args.push(String::from_str("-show_format"));
        args.push(String::from_str("-show_streams"));
        args.push(file_path.to_owned());
        proof {
            assert(args.deep_view() =~= spec_probe_args(file_path@));
        }
        args
    }

    /// The argument list for extracting one frame at `timestamp_ms`.
    pub fn thumbnail_args(&self, file_path: &str, timestamp_ms: u64, output_path: &str) -> (args:
        Vec<String>)
        ensures
            args.deep_view() == spec_thumbnail_args(file_path@, timestamp_ms as nat, output_path@),
    {
        let mut args: Vec<String> = Vec::new();
        args.push(String::from_str("-ss"));
        args.push(ms_to_secs(timestamp_ms));
        args.push(String::from_str("-i"));
        args.push(file_path.to_owned());
        args.push(String::from_str("-vframes"));
        args.push(String::from_str("1"));
        args.push(String::from_str("-q:v"));
        args.push(String::from_str("2"));
        args.push(String::from_str("-f"));
        args.push(String::from_str("image2"));
        args.push(output_path.to_owned());
        proof {
            assert(args.deep_view() =~= spec_thumbnail_args(
                file_path@,
                timestamp_ms as nat,
                output_path@,
            ));
        }
        args
    }

    /// The argument list for starting a screen recording.
    pub fn screen_recording_args(
        &self,
        output_path: &str,
        resolution: &str,
        fps: u32,
        capture_cursor: bool,
        capture_clicks: bool,
        audio_device: Option<&str>,
    ) -> (args: Vec<String>)
        ensures
            args.deep_view() == spec_screen_recording_args(
                output_path@,
                resolution@,
                fps as nat,
                capture_cursor,
                capture_clicks,
                match audio_device {
                    Some(a) => Some(a@),
                    None => None,
                },
            ),
    {
        let mut args: Vec<String> = Vec::new();
        args.push(String::from_str("-f"));
        args.push(String::from_str("avfoundation"));
        if capture_cursor {
            args.push(String::from_str("-capture_cursor"));
            args.push(String::from_str("1"));
        }
        if capture_clicks {
            args.push(String::from_str("-capture_mouse_clicks"));
            args.push(String::from_str("1"));
        }
        args.push(String::from_str("-i"));
        args.push(device_input("3", audio_device));
        args.push(String::from_str("-c:v"));
        args.push(String::from_str("libx264"));
        args.push(String::from_str("-preset"));
        args.push(String::from_str("ultrafast"));
        args.push(String::from_str("-crf"));
        args.push(String::from_str("23"));
        args.push(String::from_str("-r"));
        args.push(u64_to_dec(fps as u64));
        if !str_eq(resolution, "source") {
            args.push(String::from_str("-s"));
            args.push(resolution.to_owned());
        }
        args.push(String::from_str("-y"));
        args.push(output_path.to_owned());
        proof {
            assert(args.deep_view() =~= spec_screen_recording_args(
                output_path@,
                resolution@,
                fps as nat,
                capture_cursor,
                capture_clicks,
                match audio_device {
                    Some(a) => Some(a@),
                    None => None,
                },
            ));
        }
        args
    }

    /// The argument list for starting a camera recording.
    pub fn webcam_recording_args(
        &self,
        output_path: &str,
        camera_index: u32,
        resolution: &str,
        fps: u32,
        audio_device: Option<&str>,
    ) -> (args: Vec<String>)
        ensures
            args.deep_view() == spec_webcam_recording_args(
                output_path@,
                camera_index as nat,
                resolution@,
                fps as nat,
                match audio_device {
                    Some(a) => Some(a@),
                    None => None,
                },
            ),
    {
        let mut args: Vec<String> = Vec::new();
        args.push(String::from_str("-f"));
        args.push(String::from_str("avfoundation"));
        args.push(String::from_str("-i"));
        let video = u64_to_dec(camera_index as u64);
        args.push(device_input(video.as_str(), audio_device));
        args.push(String::from_str("-c:v"));
        args.push(String::from_str("libx264"));
        args.push(String::from_str("-preset"));
        args.push(String::from_str("ultrafast"));
        args.push(String::from_str("-crf"));
        args.push(String::from_str("23"));
        args.push(String::from_str("-r"));
        args.push(u64_to_dec(fps as u64));
        if !str_eq(resolution, "source") {
            args.push(String::from_str("-s"));
            args.push(resolution.to_owned());
        }
        args.push(String::from_str("-y"));
        args.push(output_path.to_owned());
        proof {
            assert(args.deep_view() =~= spec_webcam_recording_args(
                output_path@,
                camera_index as nat,
                resolution@,
                fps as nat,
                match audio_device {
                    Some(a) => Some(a@),
                    None => None,
                },
            ));
        }
        args
    }

    /// The argument list for listing capture devices.
    pub fn list_devices_args(&self) -> (args: Vec<String>)
        ensures
            args.deep_view() == spec_list_devices_args(),
    {
        let mut args: Vec<String> = Vec::new();
        args.push(String::from_str("-f"));
        args.push(String::from_str("avfoundation"));
        args.push(String::from_str("-list_devices"));
        args.push(String::from_str("true"));
        args.push(String::from_str("-i"));
        args.push(String::from_str(""));
        proof {
            assert(args.deep_view() =~= spec_list_devices_args());
        }
        args
    }
}

/// The base64 alphabet of RFC 4648, in value order.
pub open spec fn b64_alphabet() -> Seq<char> {
    seq![
        'A', 'B', 'C', 'D', 'E', 'F', 'G', 'H', 'I', 'J', 'K', 'L', 'M',
        'N', 'O', 'P', 'Q', 'R', 'S', 'T', 'U', 'V', 'W', 'X', 'Y', 'Z',
        'a', 'b', 'c', 'd', 'e', 'f', 'g', 'h', 'i', 'j', 'k', 'l', 'm',
        'n', 'o', 'p', 'q', 'r', 's', 't', 'u', 'v', 'w', 'x', 'y', 'z',
        '0', '1', '2', '3', '4', '5', '6', '7', '8', '9', '+', '/',
    ]
}

/// The alphabet character for a six-bit value.
pub open spec fn b64_char(v: nat) -> char {
    b64_alphabet()[v as int]
}

/// Standard padded base64: input taken in three-byte groups, each rendered
/// as four alphabet characters; a final group of one or two bytes is
/// rendered with '=' padding to four characters.
pub open spec fn spec_base64(bytes: Seq<u8>) -> Seq<char>
    decreases bytes.len(),
{
    if bytes.len() == 0 {
        Seq::empty()
    } else if bytes.len() == 1 {
        let b0 = bytes[0] as nat;
        seq![b64_char(b0 / 4), b64_char((b0 % 4) * 16), '=', '=']
    } else if bytes.len() == 2 {
        let b0 = bytes[0] as nat;
        let b1 = bytes[1] as nat;
        seq![b64_char(b0 / 4), b64_char((b0 % 4) * 16 + b1 / 16), b64_char((b1 % 16) * 4), '=']
    } else {
        let b0 = bytes[0] as nat;
        let b1 = bytes[1] as nat;
        let b2 = bytes[2] as nat;
        seq![
            b64_char(b0 / 4),
            b64_char((b0 % 4) * 16 + b1 / 16),
            b64_char((b1 % 16) * 4 + b2 / 64),
            b64_char(b2 % 64),
        ] + spec_base64(bytes.skip(3))
    }
}

/// Relies on base64's `Engine::encode` with the `STANDARD` engine: the
/// RFC 4648 standard alphabet with '=' padding, input taken in three-byte
/// groups. The length bound keeps the encoded size representable, which
/// the crate otherwise treats as a panic.
#[verifier::external_body]
fn base64_encode(bytes: &Vec<u8>) -> (r: String)
    requires
        bytes@.len() <= usize::MAX / 4,
    ensures
        r@ == spec_base64(bytes@),
{
    base64::Engine::encode(&base64::engine::general_purpose::STANDARD, bytes)
}

/// The base64 payload handed to the UI for a thumbnail image read back
/// from disk.
pub fn thumbnail_base64(image_bytes: &Vec<u8>) -> (r: String)
    requires
        image_bytes@.len() <= usize::MAX / 4,
    ensures
        r@ == spec_base64(image_bytes@),
{
    base64_encode(image_bytes)
}

/// Renders the "<video>:<audio>" device selector.
fn device_input(video: &str, audio_device: Option<&str>) -> (s: String)
    ensures
        s@ == spec_device_input(
            video@,
            match audio_device {
                Some(a) => Some(a@),
                None => None,
            },
        ),
{
    let mut s = video.to_owned();
    s.append(":");
    match audio_device {
        Some(a) => s.append(a),
        None => s.append("none"),
    }
    proof {
        assert(s@ =~= spec_device_input(
            video@,
            match audio_device {
                Some(a) => Some(a@),
                None => None,
            },
        ));
    }
    s
}

} // verus!
