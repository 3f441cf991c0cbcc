//! Media-metadata assembly from the probe's report. The caller runs the
//! probe and hands over the plain values of its structured output — the
//! streams with their fields and the format section, whose numbers arrive
//! as decimal strings. Everything numeric is parsed and assembled here:
//! durations in milliseconds, frame rates in thousandths of a frame per
//! second.

use vstd::prelude::*;
use vstd::string::StrSliceExecFns;
use vstd::string::StringExecFns;
use crate::textutil::{
    all_digits,
    digit_val,
    find_char,
    is_digit,
    is_digit_exec,
    lemma_find_char_none,
    lemma_find_char_some,
    parse_u64_digits,
    spec_contains,
    spec_dec_val,
    spec_find_char,
    str_contains,
    str_eq,
};

verus! {

/// A video file's metadata as the backend reports it.
#[derive(Clone, Debug, PartialEq)]
pub struct MediaMetadata {
    pub duration_ms: u64,
    pub width: u32,
    pub height: u32,
    /// Frames per second, in thousandths.
    pub fps_milli: u64,
    pub codec: String,
    pub bitrate: u64,
    pub file_size: u64,
}

/// One stream of the probe's report, reduced to the fields read here.
pub struct ProbeStream {
    pub codec_type: String,
    pub codec_name: Option<String>,
    pub width: Option<u64>,
    pub height: Option<u64>,
    pub r_frame_rate: Option<String>,
}

/// The format section of the probe's report; its numbers arrive as
/// decimal strings.
pub struct ProbeFormat {
    pub duration: Option<String>,
    pub bit_rate: Option<String>,
    pub size: Option<String>,
}

/// Why the probe's report could not be read.
#[derive(Clone, Copy, Debug, PartialEq, Eq, Structural)]
pub enum MetadataError {
    NoVideoStream,
    BadDuration,
    BadWidth,
    BadHeight,
    MissingFrameRate,
    InvalidFpsNumerator,
    InvalidFpsDenominator,
    ZeroFpsDenominator,
    InvalidFpsFormat,
}

impl MetadataError {
    /// The user-facing message for this error.
    pub fn message(&self) -> (m: String)
        ensures
            m@ == spec_metadata_error_message(*self),
    {
        match self {
            MetadataError::NoVideoStream => String::from_str("No video stream found"),
            MetadataError::BadDuration => String::from_str("Failed to parse duration"),
            MetadataError::BadWidth => String::from_str("Failed to parse width"),
            MetadataError::BadHeight => String::from_str("Failed to parse height"),
            MetadataError::MissingFrameRate => String::from_str("Failed to get frame rate"),
            MetadataError::InvalidFpsNumerator => String::from_str("Invalid FPS numerator"),
            MetadataError::InvalidFpsDenominator => String::from_str("Invalid FPS denominator"),
            MetadataError::ZeroFpsDenominator => String::from_str(
                "FPS denominator cannot be zero",
            ),
            MetadataError::InvalidFpsFormat => String::from_str("Invalid FPS format"),
        }
    }
}

/// The message for each metadata error.
pub open spec fn spec_metadata_error_message(e: MetadataError) -> Seq<char> {
    match e {
        MetadataError::NoVideoStream => "No video stream found"@,
        MetadataError::BadDuration => "Failed to parse duration"@,
        MetadataError::BadWidth => "Failed to parse width"@,
        MetadataError::BadHeight => "Failed to parse height"@,
        MetadataError::MissingFrameRate => "Failed to get frame rate"@,
        MetadataError::InvalidFpsNumerator => "Invalid FPS numerator"@,
        MetadataError::InvalidFpsDenominator => "Invalid FPS denominator"@,
        MetadataError::ZeroFpsDenominator => "FPS denominator cannot be zero"@,
        MetadataError::InvalidFpsFormat => "Invalid FPS format"@,
    }
}

/// A fraction's first (up to) three digits as milliseconds: shorter
/// fractions scale up, digits beyond the third are cut.
pub open spec fn spec_frac_ms(frac: Seq<char>) -> nat {
    if frac.len() == 0 {
        0
    } else if frac.len() == 1 {
        spec_dec_val(frac) * 100
    } else if frac.len() == 2 {
        spec_dec_val(frac) * 10
    } else {
        spec_dec_val(frac.take(3))
    }
}

/// A non-negative decimal number — digits, optionally a dot and more
/// digits — as a millisecond count: the integer part in units of one
/// thousand plus the fraction's milliseconds. `None` when the text is not
/// of that shape or the value does not fit.
pub open spec fn spec_parse_ms(s: Seq<char>) -> Option<nat> {
    match spec_find_char(s, '.') {
        None => {
            if s.len() > 0 && all_digits(s) && spec_dec_val(s) * 1000 <= u64::MAX {
                Some(spec_dec_val(s) * 1000)
            } else {
                None
            }
        },
        Some(d) => {
            let ip = s.take(d);
            let fp = s.skip(d + 1);
            if ip.len() > 0 && all_digits(ip) && all_digits(fp) && spec_dec_val(ip) * 1000
                + spec_frac_ms(fp) <= u64::MAX {
                Some(spec_dec_val(ip) * 1000 + spec_frac_ms(fp))
            } else {
                None
            }
        },
    }
}

/// Whether every character of `s` is a decimal digit.
fn all_digits_exec(s: &str) -> (r: bool)
    ensures
        r == all_digits(s@),
{
    let len = s.unicode_len();
    let mut i: usize = 0;
    while i < len
        invariant
            0 <= i <= len,
            len == s@.len(),
            forall|k: int| 0 <= k < i ==> is_digit(s@[k]),
        decreases len - i,
    {
        if !is_digit_exec(s.get_char(i)) {
            return false;
        }
        i = i + 1;
    }
    true
}

/// Ten to the `n`.
pub open spec fn pow10(n: nat) -> nat
    decreases n,
{
    if n == 0 {
        1
    } else {
        10 * pow10((n - 1) as nat)
    }
}

/// A digit string's value is below ten to its length.
proof fn lemma_dec_val_lt_pow10(s: Seq<char>)
    requires
        all_digits(s),
    ensures
        spec_dec_val(s) < pow10(s.len()),
    decreases s.len(),
{
    if s.len() > 0 {
        let head = s.take(s.len() - 1);
        assert(all_digits(head)) by {
            assert(forall|k: int| 0 <= k < head.len() ==> head[k] == s[k]);
        }
        lemma_dec_val_lt_pow10(head);
        assert(digit_val(s.last()) < 10);
        assert(spec_dec_val(head) * 10 <= (pow10(head.len()) - 1) * 10) by (nonlinear_arith)
            requires
                spec_dec_val(head) <= pow10(head.len()) - 1,
        {}
    }
}

/// The fraction part's milliseconds; see [`spec_frac_ms`].
fn frac_ms(fp: &str) -> (r: u64)
    requires
        all_digits(fp@),
    ensures
        r == spec_frac_ms(fp@),
        r < 1000,
{
    let len = fp.unicode_len();
    if len == 0 {
        return 0;
    }
    let cut: usize = if len < 3 {
        len
    } else {
        3
    };
    let head = fp.substring_char(0, cut);
    proof {
        assert(all_digits(head@)) by {
            assert(forall|k: int| 0 <= k < head@.len() ==> head@[k] == fp@[k]);
        }
        lemma_dec_val_lt_pow10(head@);
        assert(pow10(0) == 1);
        assert(pow10(1) == 10);
        assert(pow10(2) == 100);
        assert(pow10(3) == 1000);
        if len >= 3 {
            assert(head@ =~= fp@.take(3));
        } else {
            assert(head@ =~= fp@);
        }
    }
    let v = match parse_u64_digits(head) {
        Some(v) => v,
        None => {
            proof {
                assert(false);
            }
            0
        },
    };
    if len == 1 {
        v * 100
    } else if len == 2 {
        v * 10
    } else {
        v
    }
}

/// Parses a decimal number into milliseconds; see [`spec_parse_ms`].
pub fn parse_decimal_ms(s: &str) -> (r: Option<u64>)
    ensures
        match r {
            Some(v) => spec_parse_ms(s@) == Some(v as nat),
            None => spec_parse_ms(s@) is None,
        },
{
    let len = s.unicode_len();
    match find_char(s, '.') {
        None => {
            proof {
                lemma_find_char_none(s@, '.', 0);
            }
            match parse_u64_digits(s) {
                Some(v) => {
                    if v <= u64::MAX / 1000 {
                        proof {
                            assert(v * 1000 <= u64::MAX) by (nonlinear_arith)
                                requires
                                    v <= u64::MAX / 1000,
                            {}
                        }
                        Some(v * 1000)
                    } else {
                        proof {
                            assert(v * 1000 > u64::MAX) by (nonlinear_arith)
                                requires
                                    v > u64::MAX / 1000,
                            {}
                        }
                        None
                    }
                },
                None => {
                    proof {
                        if s@.len() > 0 && all_digits(s@) {
                            assert(spec_dec_val(s@) > u64::MAX);
                            assert(spec_dec_val(s@) * 1000 >= spec_dec_val(s@)) by (nonlinear_arith)
                            {}
                        }
                    }
                    None
                },
            }
        },
        Some(d) => {
            proof {
                lemma_find_char_some(s@, '.', d as int, 0);
            }
            let ip = s.substring_char(0, d);
            let fp = s.substring_char(d + 1, len);
            proof {
                assert(ip@ =~= s@.take(d as int));
                assert(fp@ =~= s@.skip(d as int + 1));
            }
            let iv = match parse_u64_digits(ip) {
                Some(iv) => iv,
                None => {
                    proof {
                        if ip@.len() > 0 && all_digits(ip@) {
                            assert(spec_dec_val(ip@) > u64::MAX);
                            assert(spec_dec_val(ip@) * 1000 >= spec_dec_val(ip@))
                                by (nonlinear_arith) {}
                        }
                    }
                    return None;
                },
            };
            if !all_digits_exec(fp) {
                return None;
            }
            let f = frac_ms(fp);
            if iv <= (u64::MAX - f) / 1000 {
                proof {
                    assert(iv * 1000 + f <= u64::MAX) by (nonlinear_arith)
                        requires
                            iv <= (u64::MAX - f) / 1000,
                            f < 1000,
                    {}
                }
                Some(iv * 1000 + f)
            } else {
                proof {
                    assert(iv * 1000 + f > u64::MAX) by (nonlinear_arith)
                        requires
                            iv > (u64::MAX - f) / 1000,
                            f < 1000,
                    {}
                }
                None
            }
        },
    }
}

/// A frame-rate string as thousandths of a frame per second: either a
/// ratio of two whole numbers — written with exactly one '/', the
/// denominator not zero, the scaled numerator representable — or a plain
/// decimal number.
pub open spec fn spec_parse_fps_milli(s: Seq<char>) -> Result<nat, MetadataError> {
    match spec_find_char(s, '/') {
        Some(d) => {
            let np = s.take(d);
            let dp = s.skip(d + 1);
            if spec_contains(dp, "/"@) {
                Err(MetadataError::InvalidFpsFormat)
            } else if !(np.len() > 0 && all_digits(np) && spec_dec_val(np) * 1000 <= u64::MAX) {
                Err(MetadataError::InvalidFpsNumerator)
            } else if !(dp.len() > 0 && all_digits(dp) && spec_dec_val(dp) <= u64::MAX) {
                Err(MetadataError::InvalidFpsDenominator)
            } else if spec_dec_val(dp) == 0 {
                Err(MetadataError::ZeroFpsDenominator)
            } else {
                Ok((spec_dec_val(np) * 1000) / spec_dec_val(dp))
            }
        },
        None => match spec_parse_ms(s) {
            Some(v) => Ok(v),
            None => Err(MetadataError::InvalidFpsFormat),
        },
    }
}

/// Parses a frame-rate string; see [`spec_parse_fps_milli`].
pub fn parse_fps_milli(s: &str) -> (r: Result<u64, MetadataError>)
    ensures
        match r {
            Ok(v) => spec_parse_fps_milli(s@) == Ok::<nat, MetadataError>(v as nat),
            Err(e) => spec_parse_fps_milli(s@) == Err::<nat, MetadataError>(e),
        },
{
    let len = s.unicode_len();
    match find_char(s, '/') {
        Some(d) => {
            proof {
                lemma_find_char_some(s@, '/', d as int, 0);
            }
            let np = s.substring_char(0, d);
            let dp = s.substring_char(d + 1, len);
            proof {
                assert(np@ =~= s@.take(d as int));
                assert(dp@ =~= s@.skip(d as int + 1));
                reveal_strlit("/");
            }
            if str_contains(dp, "/") {
                return Err(MetadataError::InvalidFpsFormat);
            }
            let num = match parse_u64_digits(np) {
                Some(v) => {
                    if v <= u64::MAX / 1000 {
                        proof {
                            assert(v * 1000 <= u64::MAX) by (nonlinear_arith)
                                requires
                                    v <= u64::MAX / 1000,
                            {}
                        }
                        v
                    } else {
                        proof {
                            assert(v * 1000 > u64::MAX) by (nonlinear_arith)
                                requires
                                    v > u64::MAX / 1000,
                            {}
                        }
                        return Err(MetadataError::InvalidFpsNumerator);
                    }
                },
                None => {
                    proof {
                        if np@.len() > 0 && all_digits(np@) {
                            assert(spec_dec_val(np@) > u64::MAX);
                            assert(spec_dec_val(np@) * 1000 >= spec_dec_val(np@))
                                by (nonlinear_arith) {}
                        }
                    }
                    return Err(MetadataError::InvalidFpsNumerator);
                },
            };
            let den = match parse_u64_digits(dp) {
                Some(v) => v,
                None => {
                    return Err(MetadataError::InvalidFpsDenominator);
                },
            };
            if den == 0 {
                return Err(MetadataError::ZeroFpsDenominator);
            }
            Ok((num * 1000) / den)
        },
        None => {
            proof {
                lemma_find_char_none(s@, '/', 0);
            }
            match parse_decimal_ms(s) {
                Some(v) => Ok(v),
                None => Err(MetadataError::InvalidFpsFormat),
            }
        },
    }
}

/// The index of the first stream whose type is "video", scanning from `i`.
pub open spec fn spec_first_video_from(streams: Seq<ProbeStream>, i: int) -> Option<int>
    decreases streams.len() - i,
    when 0 <= i <= streams.len()
{
    if i == streams.len() {
        None
    } else if streams[i].codec_type@ == "video"@ {
        Some(i)
    } else {
        spec_first_video_from(streams, i + 1)
    }
}

/// The index of the first video stream, if any.
pub open spec fn spec_first_video(streams: Seq<ProbeStream>) -> Option<int> {
    spec_first_video_from(streams, 0)
}

/// The spec-level value of an assembled metadata record.
pub struct MetaSpec {
    pub duration_ms: nat,
    pub width: nat,
    pub height: nat,
    pub fps_milli: nat,
    pub codec: Seq<char>,
    pub bitrate: nat,
    pub file_size: nat,
}

/// A format-section counter field read leniently: a representable all-digit
/// string is its value, anything else (or its absence) is zero.
pub open spec fn spec_counter_field(f: Option<String>) -> nat {
    match f {
        Some(b) => if b@.len() > 0 && all_digits(b@) && spec_dec_val(b@) <= u64::MAX {
            spec_dec_val(b@)
        } else {
            0
        },
        None => 0,
    }
}

/// Metadata assembly: the first video stream supplies size, frame rate and
/// codec (defaulting to "unknown"), the format section supplies the
/// duration — which must parse — and the lenient bitrate and file size.
pub open spec fn spec_parse_metadata(streams: Seq<ProbeStream>, format: ProbeFormat) -> Result<
    MetaSpec,
    MetadataError,
> {
    match spec_first_video(streams) {
        None => Err(MetadataError::NoVideoStream),
        Some(vi) => {
            let vs = streams[vi];
            let dur = match format.duration {
                Some(d) => spec_parse_ms(d@),
                None => None,
            };
            match dur {
                None => Err(MetadataError::BadDuration),
                Some(duration_ms) => match vs.width {
                    None => Err(MetadataError::BadWidth),
                    Some(w) => {
                        if w > u32::MAX {
                            Err(MetadataError::BadWidth)
                        } else {
                            match vs.height {
                                None => Err(MetadataError::BadHeight),
                                Some(h) => {
                                    if h > u32::MAX {
                                        Err(MetadataError::BadHeight)
                                    } else {
                                        match vs.r_frame_rate {
                                            None => Err(MetadataError::MissingFrameRate),
                                            Some(fs) => match spec_parse_fps_milli(fs@) {
                                                Err(e) => Err(e),
                                                Ok(fps_milli) => Ok(
                                                    MetaSpec {
                                                        duration_ms,
                                                        width: w as nat,
                                                        height: h as nat,
                                                        fps_milli,
                                                        codec: match vs.codec_name {
                                                            Some(c) => c@,
                                                            None => "unknown"@,
                                                        },
                                                        bitrate: spec_counter_field(
                                                            format.bit_rate,
                                                        ),
                                                        file_size: spec_counter_field(format.size),
                                                    },
                                                ),
                                            },
                                        }
                                    }
                                },
                            }
                        }
                    },
                },
            }
        },
    }
}

/// The index of the first video stream; see [`spec_first_video`].
fn first_video_index(streams: &Vec<ProbeStream>) -> (r: Option<usize>)
    ensures
        match r {
            Some(vi) => vi < streams@.len() && spec_first_video(streams@) == Some(vi as int),
            None => spec_first_video(streams@) is None,
        },
{
    let n = streams.len();
    let mut i: usize = 0;
    while i < n
        invariant
            0 <= i <= n,
            n == streams@.len(),
            spec_first_video(streams@) == spec_first_video_from(streams@, i as int),
        decreases n - i,
    {
        if str_eq(streams[i].codec_type.as_str(), "video") {
            return Some(i);
        }
        proof {
            assert(spec_first_video_from(streams@, i as int) == spec_first_video_from(
                streams@,
                i as int + 1,
            ));
        }
        i = i + 1;
    }
    None
}

/// Reads one lenient counter field.
fn counter_field(f: &Option<String>) -> (v: u64)
    ensures
        v == spec_counter_field(*f),
{
    match f {
        Some(b) => match parse_u64_digits(b.as_str()) {
            Some(v) => v,
            None => 0,
        },
        None => 0,
    }
}

/// Assembles a metadata record from the probe's report; see
/// [`spec_parse_metadata`].
pub fn parse_metadata(streams: &Vec<ProbeStream>, format: &ProbeFormat) -> (r: Result<
    MediaMetadata,
    MetadataError,
>)
    ensures
        match r {
            Ok(m) => spec_parse_metadata(streams@, *format) matches Ok(ms) && m.duration_ms
                == ms.duration_ms && m.width == ms.width && m.height == ms.height && m.fps_milli
                == ms.fps_milli && m.codec@ == ms.codec && m.bitrate == ms.bitrate && m.file_size
                == ms.file_size,
            Err(e) => spec_parse_metadata(streams@, *format) == Err::<MetaSpec, MetadataError>(e),
        },
{
    let vi = match first_video_index(streams) {
        Some(vi) => vi,
        None => {
            return Err(MetadataError::NoVideoStream);
        },
    };
    let vs = &streams[vi];
    let duration_ms = match &format.duration {
        Some(d) => match parse_decimal_ms(d.as_str()) {
            Some(v) => v,
            None => {
                return Err(MetadataError::BadDuration);
            },
        },
        None => {
            return Err(MetadataError::BadDuration);
        },
    };
    let width: u32 = match &vs.width {
        Some(w) => if *w <= u32::MAX as u64 {
            *w as u32
        } else {
            return Err(MetadataError::BadWidth);
        },
        None => {
            return Err(MetadataError::BadWidth);
        },
    };
    let height: u32 = match &vs.height {
        Some(h) => if *h <= u32::MAX as u64 {
            *h as u32
        } else {
            return Err(MetadataError::BadHeight);
        },
        None => {
            return Err(MetadataError::BadHeight);
        },
    };
    let fps_milli = match &vs.r_frame_rate {
        Some(fs) => match parse_fps_milli(fs.as_str()) {
            Ok(v) => v,
            Err(e) => {
                return Err(e);
            },
        },
        None => {
            return Err(MetadataError::MissingFrameRate);
        },
    };
    let codec = match &vs.codec_name {
        Some(c) => c.clone(),
        None => String::from_str("unknown"),
    };
    let bitrate = counter_field(&format.bit_rate);
    let file_size = counter_field(&format.size);
    Ok(MediaMetadata { duration_ms, width, height, fps_milli, codec, bitrate, file_size })
}

} // verus!
