//! The capture-device list parser. The engine, asked to list devices,
//! prints a diagnostic block on its error stream: a video-devices section
//! header, one line per device with its index in brackets, then an
//! audio-devices section header. The parser collects the cameras — the
//! indexed video devices that are not screen-capture pseudo-devices —
//! ignoring everything outside the video section.

use vstd::prelude::*;
use vstd::string::StrSliceExecFns;
use vstd::string::StringExecFns;
use crate::textutil::{
    all_digits,
    find_char,
    lemma_find_char_none,
    lemma_find_char_some,
    lemma_rfind_from_none,
    lemma_rfind_from_some,
    parse_u32_digits,
    rfind_sub,
    spec_contains,
    spec_dec_val,
    spec_find_char,
    spec_rfind,
    spec_trim,
    str_contains,
    trim_chars,
};

verus! {

/// One camera: its capture-device index and its human-readable name.
#[derive(Clone, Debug)]
pub struct CameraInfo {
    pub index: u32,
    pub name: String,
}

/// The position of the first newline in `s`, or `s.len()` when there is
/// none.
pub open spec fn first_nl(s: Seq<char>) -> nat
    decreases s.len(),
{
    if s.len() == 0 {
        0
    } else if s[0] == '\n' {
        0
    } else {
        1 + first_nl(s.skip(1))
    }
}

proof fn lemma_first_nl_le(s: Seq<char>)
    ensures
        first_nl(s) <= s.len(),
    decreases s.len(),
{
    if s.len() > 0 && s[0] != '\n' {
        lemma_first_nl_le(s.skip(1));
    }
}

proof fn lemma_first_nl_at(s: Seq<char>, j: int)
    requires
        0 <= j <= s.len(),
        forall|k: int| 0 <= k < j ==> s[k] != '\n',
        j == s.len() || s[j] == '\n',
    ensures
        first_nl(s) == j,
    decreases j,
{
    if j == 0 {
    } else {
        lemma_first_nl_at(s.skip(1), j - 1);
    }
}

/// `s` split on newlines: one piece more than there are newlines, in
/// order, none containing a newline.
pub open spec fn spec_split_lines(s: Seq<char>) -> Seq<Seq<char>>
    decreases s.len(),
{
    let i = first_nl(s);
    if i >= s.len() {
        seq![s]
    } else {
        seq![s.take(i as int)] + spec_split_lines(s.skip(i as int + 1))
    }
}

/// Splits on newlines; see [`spec_split_lines`].
pub fn split_lines(s: &str) -> (lines: Vec<String>)
    ensures
        lines.deep_view() == spec_split_lines(s@),
{
    let len = s.unicode_len();
    let mut lines: Vec<String> = Vec::new();
    let mut start: usize = 0;
    let mut i: usize = 0;
    proof {
        assert(lines.deep_view() =~= Seq::<Seq<char>>::empty());
        assert(s@.skip(0) =~= s@);
        assert(lines.deep_view() + spec_split_lines(s@) =~= spec_split_lines(s@));
    }
    while i < len
        invariant
            0 <= start <= i <= len,
            len == s@.len(),
            forall|k: int| start <= k < i ==> s@[k] != '\n',
            spec_split_lines(s@) == lines.deep_view() + spec_split_lines(s@.skip(start as int)),
        decreases len - i,
    {
        if s.get_char(i) == '\n' {
            let ghost lines0 = lines.deep_view();
            let piece = s.substring_char(start, i);
            lines.push(piece.to_owned());
            proof {
                let rest = s@.skip(start as int);
                lemma_first_nl_at(rest, i - start);
                assert(rest.take(i - start) =~= s@.subrange(start as int, i as int));
                assert(rest.skip(i - start + 1) =~= s@.skip(i + 1));
                assert(spec_split_lines(rest) == seq![s@.subrange(start as int, i as int)]
                    + spec_split_lines(s@.skip(i + 1)));
                assert(lines.deep_view() =~= lines0 + seq![s@.subrange(start as int, i as int)]);
                assert(lines0 + (seq![s@.subrange(start as int, i as int)] + spec_split_lines(
                    s@.skip(i + 1),
                )) =~= (lines0 + seq![s@.subrange(start as int, i as int)]) + spec_split_lines(
                    s@.skip(i + 1),
                ));
            }
            start = i + 1;
        }
        i = i + 1;
    }
    let ghost lines0 = lines.deep_view();
    let tail = s.substring_char(start, len);
    lines.push(tail.to_owned());
    proof {
        let rest = s@.skip(start as int);
        lemma_first_nl_at(rest, len - start);
        assert(spec_split_lines(rest) == seq![rest]);
        assert(rest =~= s@.subrange(start as int, len as int));
        assert(lines.deep_view() =~= lines0 + seq![rest]);
    }
    lines
}

/// One device line, parsed: after trimming, the line's last "] [" opens
/// the bracketed device index — all digits, fitting a device number — and
/// what follows the closing bracket, trimmed, is the non-empty device
/// name. Anything else is not a device line.
pub open spec fn spec_parse_device_line(line: Seq<char>) -> Option<(u32, Seq<char>)> {
    let t = spec_trim(line);
    match spec_rfind(t, "] ["@) {
        None => None,
        Some(p) => {
            let part = t.skip(p + 3);
            match spec_find_char(part, ']') {
                None => None,
                Some(e) => {
                    let digits = part.take(e);
                    if digits.len() > 0 && all_digits(digits) && spec_dec_val(digits) <= u32::MAX {
                        let name = spec_trim(part.skip(e + 1));
                        if name.len() > 0 {
                            Some((spec_dec_val(digits) as u32, name))
                        } else {
                            None
                        }
                    } else {
                        None
                    }
                },
            }
        },
    }
}

/// Parses one device line; see [`spec_parse_device_line`].
fn parse_device_line(line: &str) -> (r: Option<CameraInfo>)
    ensures
        match r {
            Some(c) => spec_parse_device_line(line@) == Some((c.index, c.name@)),
            None => spec_parse_device_line(line@) is None,
        },
{
    proof {
        reveal_strlit("] [");
    }
    let trimmed = trim_chars(line);
    let t = trimmed.as_str();
    let p = match rfind_sub(t, "] [") {
        Some(p) => {
            proof {
                lemma_rfind_from_some(t@, "] ["@, p as int, t@.len() - "] ["@.len());
            }
            p
        },
        None => {
            proof {
                if "] ["@.len() <= t@.len() {
                    lemma_rfind_from_none(t@, "] ["@, t@.len() - "] ["@.len());
                }
            }
            return None;
        },
    };
    let tlen = t.unicode_len();
    let part = t.substring_char(p + 3, tlen);
    let e = match find_char(part, ']') {
        Some(e) => {
            proof {
                lemma_find_char_some(part@, ']', e as int, 0);
            }
            e
        },
        None => {
            proof {
                lemma_find_char_none(part@, ']', 0);
            }
            return None;
        },
    };
    let digits = part.substring_char(0, e);
    proof {
        assert(digits@ =~= part@.take(e as int));
    }
    let index = match parse_u32_digits(digits) {
        Some(v) => v,
        None => {
            return None;
        },
    };
    let plen = part.unicode_len();
    let name_raw = part.substring_char(e + 1, plen);
    proof {
        assert(name_raw@ =~= part@.skip(e + 1));
    }
    let name = trim_chars(name_raw);
    if name.as_str().unicode_len() == 0 {
        return None;
    }
    Some(CameraInfo { index, name })
}

/// The cameras named by `lines` from position `i` on, given whether the
/// video-devices section is open: the video header opens it, the audio
/// header ends the scan, screen-capture pseudo-devices are skipped, and
/// inside the section every line that parses as a device is a camera.
pub open spec fn spec_cameras_from(lines: Seq<Seq<char>>, i: int, in_video: bool) -> Seq<
    (u32, Seq<char>),
>
    decreases lines.len() - i,
    when 0 <= i <= lines.len()
{
    if i == lines.len() {
        Seq::empty()
    } else {
        let line = lines[i];
        if spec_contains(line, "AVFoundation video devices"@) {
            spec_cameras_from(lines, i + 1, true)
        } else if spec_contains(line, "AVFoundation audio devices"@) {
            Seq::empty()
        } else if !in_video {
            spec_cameras_from(lines, i + 1, false)
        } else if spec_contains(line, "Capture screen"@) {
            spec_cameras_from(lines, i + 1, true)
        } else {
            (match spec_parse_device_line(line) {
                Some(c) => seq![c],
                None => Seq::empty(),
            }) + spec_cameras_from(lines, i + 1, true)
        }
    }
}

/// The cameras named by the engine's device-listing diagnostic text.
pub open spec fn spec_cameras(stderr: Seq<char>) -> Seq<(u32, Seq<char>)> {
    spec_cameras_from(spec_split_lines(stderr), 0, false)
}

/// Parses the engine's device-listing diagnostic text into the camera
/// list; see [`spec_cameras`].
pub fn parse_camera_list(stderr: &str) -> (cams: Vec<CameraInfo>)
    ensures
        cams@.len() == spec_cameras(stderr@).len(),
        forall|i: int|
            0 <= i < cams@.len() ==> (#[trigger] cams@[i]).index == spec_cameras(stderr@)[i].0
                && cams@[i].name@ == spec_cameras(stderr@)[i].1,
{
    let lines = split_lines(stderr);
    let ghost l = lines.deep_view();
    let mut cams: Vec<CameraInfo> = Vec::new();
    let ghost mut done: Seq<(u32, Seq<char>)> = Seq::empty();
    let mut in_video = false;
    let mut stopped = false;
    let mut i: usize = 0;
    while i < lines.len() && !stopped
        invariant
            0 <= i <= lines@.len(),
            l == lines.deep_view(),
            spec_cameras(stderr@) == done + (if stopped {
                Seq::<(u32, Seq<char>)>::empty()
            } else {
                spec_cameras_from(l, i as int, in_video)
            }),
            cams@.len() == done.len(),
            forall|k: int|
                0 <= k < cams@.len() ==> (#[trigger] cams@[k]).index == done[k].0 && cams@[k].name@
                    == done[k].1,
        decreases lines@.len() - i,
    {
        let line = &lines[i];
        proof {
            assert(l[i as int] == line@);
        }
        if str_contains(line.as_str(), "AVFoundation video devices") {
            in_video = true;
        } else if str_contains(line.as_str(), "AVFoundation audio devices") {
            stopped = true;
        } else if !in_video {
        } else if str_contains(line.as_str(), "Capture screen") {
        } else {
            match parse_device_line(line.as_str()) {
                Some(cam) => {
                    proof {
                        let c = (cam.index, cam.name@);
                        assert(done + (seq![c] + spec_cameras_from(l, i + 1, true)) =~= (done
                            + seq![c]) + spec_cameras_from(l, i + 1, true));
                    }
                    cams.push(cam);
                    proof {
                        done = done + seq![(cams@.last().index, cams@.last().name@)];
                    }
                },
                None => {},
            }
        }
        i = i + 1;
    }
    proof {
        if !stopped {
            assert(spec_cameras_from(l, i as int, in_video) =~= Seq::<(u32, Seq<char>)>::empty());
        }
        assert(spec_cameras(stderr@) =~= done);
    }
    cams
}

} // verus!
