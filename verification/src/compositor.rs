//! The timeline compositor: turns an ordered list of clip descriptors plus
//! target resolution, frame rate and total composition length into a
//! deterministic filter-graph program for the transcoding engine, with
//! synthetic black-frame gap segments filling every uncovered interval.

use vstd::prelude::*;
use vstd::string::StringExecFns;
use crate::numfmt::{spec_dec, spec_secs, u64_to_dec, ms_to_secs};
use crate::textutil::str_eq;

verus! {

/// One clip on the timeline. All times are milliseconds: `start_ms` is the
/// clip's offset on the timeline, `duration_ms` how long it plays,
/// `trim_start_ms`/`trim_end_ms` the window cut from the source file.
pub struct ClipInfo {
    pub file_path: String,
    pub start_ms: u64,
    pub duration_ms: u64,
    pub trim_start_ms: u64,
    pub trim_end_ms: u64,
}

/// The caller-supplied invariant on a clip: it plays for a positive time,
/// its trim window is non-empty, and its end time is representable.
pub open spec fn clip_wf(c: ClipInfo) -> bool {
    &&& c.duration_ms > 0
    &&& c.trim_start_ms < c.trim_end_ms
    &&& c.start_ms + c.duration_ms <= u64::MAX
}

/// Clips are in timeline order and do not overlap: each clip starts no
/// earlier than the previous one ends.
pub open spec fn timeline_ordered(clips: Seq<ClipInfo>) -> bool {
    forall|i: int|
        0 <= i < clips.len() - 1 ==> clips[i].start_ms + clips[i].duration_ms <= clips[
            i + 1
        ].start_ms
}

/// Why a composition could not be built.
#[derive(Clone, Copy, Debug, PartialEq, Eq, Structural)]
pub enum ExportError {
    /// The clip list was empty: an empty timeline has no valid output.
    EmptyTimeline,
    /// The resolution profile name was not recognized.
    InvalidResolution,
    /// A clip starts before the previous one ends.
    OverlappingClips,
}

/// A named resolution profile.
#[derive(Clone, Copy, Debug, PartialEq, Eq, Structural)]
pub enum Resolution {
    Hd720,
    Hd1080,
    Source,
}

/// One segment of the composition plan, in emission order. A `Gap` is a
/// synthetic black-frame filler; a `Clip` selects, trims and rescales one
/// input. `index` tags the segment's label: gap segments take the index of
/// the clip they precede (or the clip count, for a trailing gap), so labels
/// never collide.
#[derive(Clone, Copy, Debug, PartialEq, Eq, Structural)]
pub enum Segment {
    Gap { index: u64, duration_ms: u64 },
    Clip { index: u64, trim_start_ms: u64, duration_ms: u64 },
}

/// The profile for a resolution name: "720p", "1080p" or "source".
pub open spec fn spec_resolution(name: Seq<char>) -> Option<Resolution> {
    if name == "720p"@ {
        Some(Resolution::Hd720)
    } else if name == "1080p"@ {
        Some(Resolution::Hd1080)
    } else if name == "source"@ {
        Some(Resolution::Source)
    } else {
        None
    }
}

/// The scale filter argument for a profile; "source" keeps the input size.
pub open spec fn spec_scale(r: Resolution) -> Seq<char> {
    match r {
        Resolution::Hd720 => "1280:720"@,
        Resolution::Hd1080 => "1920:1080"@,
        Resolution::Source => "-1:-1"@,
    }
}

/// Parses a resolution profile name.
pub fn parse_resolution(name: &str) -> (r: Option<Resolution>)
    ensures
        r == spec_resolution(name@),
{
    if str_eq(name, "720p") {
        Some(Resolution::Hd720)
    } else if str_eq(name, "1080p") {
        Some(Resolution::Hd1080)
    } else if str_eq(name, "source") {
        Some(Resolution::Source)
    } else {
        None
    }
}

/// The scale filter argument for a profile.
pub fn scale_of(r: Resolution) -> (s: &'static str)
    ensures
        s@ == spec_scale(r),
{
    match r {
        Resolution::Hd720 => "1280:720",
        Resolution::Hd1080 => "1920:1080",
        Resolution::Source => "-1:-1",
    }
}

/// The remaining plan from clip `i` on, with the timeline cursor at `t`:
/// a gap segment wherever the next clip starts after the cursor, the clip
/// itself, and after the last clip one final gap if the cursor is still
/// short of the composition length.
pub open spec fn spec_plan_from(clips: Seq<ClipInfo>, comp_ms: nat, i: int, t: nat) -> Seq<
    Segment,
>
    decreases clips.len() - i,
    when 0 <= i <= clips.len()
{
    if i == clips.len() {
        if t < comp_ms {
            seq![Segment::Gap { index: i as u64, duration_ms: (comp_ms - t) as u64 }]
        } else {
            Seq::empty()
        }
    } else {
        let c = clips[i];
        let gap: Seq<Segment> = if c.start_ms > t {
            seq![Segment::Gap { index: i as u64, duration_ms: (c.start_ms - t) as u64 }]
        } else {
            Seq::empty()
        };
        gap + seq![
            Segment::Clip {
                index: i as u64,
                trim_start_ms: c.trim_start_ms,
                duration_ms: c.duration_ms,
            },
        ] + spec_plan_from(clips, comp_ms, i + 1, (c.start_ms + c.duration_ms) as nat)
    }
}

/// The full composition plan for a clip list and composition length.
pub open spec fn spec_plan(clips: Seq<ClipInfo>, comp_ms: nat) -> Seq<Segment> {
    spec_plan_from(clips, comp_ms, 0, 0)
}

/// The number of strictly positive gaps from clip `i` on (including a
/// possible trailing gap).
pub open spec fn spec_gap_count_from(clips: Seq<ClipInfo>, comp_ms: nat, i: int, t: nat) -> nat
    decreases clips.len() - i,
    when 0 <= i <= clips.len()
{
    if i == clips.len() {
        if t < comp_ms {
            1
        } else {
            0
        }
    } else {
        let c = clips[i];
        (if c.start_ms > t {
            1nat
        } else {
            0nat
        }) + spec_gap_count_from(clips, comp_ms, i + 1, (c.start_ms + c.duration_ms) as nat)
    }
}

/// The number of strictly positive gaps in the whole plan.
pub open spec fn spec_gap_count(clips: Seq<ClipInfo>, comp_ms: nat) -> nat {
    spec_gap_count_from(clips, comp_ms, 0, 0)
}

/// Builds the composition plan: the ordered gap and clip segments.
///
/// Fails on an empty clip list, and on a clip that starts before the
/// previous one ends (the clip list is taken as supplied, never sorted).
pub fn build_plan(clips: &Vec<ClipInfo>, composition_ms: u64) -> (r: Result<
    Vec<Segment>,
    ExportError,
>)
    requires
        forall|i: int| 0 <= i < clips@.len() ==> clip_wf(#[trigger] clips@[i]),
    ensures
        match r {
            Ok(plan) => clips@.len() > 0 && timeline_ordered(clips@) && plan@ == spec_plan(
                clips@,
                composition_ms as nat,
            ),
            Err(e) => match e {
                ExportError::EmptyTimeline => clips@.len() == 0,
                ExportError::OverlappingClips => clips@.len() > 0 && !timeline_ordered(clips@),
                ExportError::InvalidResolution => false,
            },
        },
{
    if clips.len() == 0 {
        return Err(ExportError::EmptyTimeline);
    }
    let ghost comp: nat = composition_ms as nat;
    let mut segs: Vec<Segment> = Vec::new();
    let mut t: u64 = 0;
    let mut i: usize = 0;
    while i < clips.len()
        invariant
            0 <= i <= clips@.len(),
            clips@.len() > 0,
            forall|k: int| 0 <= k < clips@.len() ==> clip_wf(#[trigger] clips@[k]),
            i == 0 ==> t == 0,
            i > 0 ==> t == clips@[i - 1].start_ms + clips@[i - 1].duration_ms,
            forall|k: int|
                0 <= k < i - 1 ==> clips@[k].start_ms + clips@[k].duration_ms <= clips@[
                    k + 1
                ].start_ms,
            comp == composition_ms as nat,
            spec_plan(clips@, comp) == segs@ + spec_plan_from(clips@, comp, i as int, t as nat),
        decreases clips@.len() - i,
    {
        let start = clips[i].start_ms;
        let duration = clips[i].duration_ms;
        let trim_start = clips[i].trim_start_ms;
        if start < t {
            proof {
                assert(i > 0);
                assert(clips@[i - 1].start_ms + clips@[i - 1].duration_ms > clips@[
                    i as int
                ].start_ms);
                assert(!timeline_ordered(clips@));
            }
            return Err(ExportError::OverlappingClips);
        }
        let ghost segs0 = segs@;
        if start > t {
            segs.push(Segment::Gap { index: i as u64, duration_ms: start - t });
        }
        segs.push(
            Segment::Clip { index: i as u64, trim_start_ms: trim_start, duration_ms: duration },
        );
        proof {
            let c = clips@[i as int];
            let gap: Seq<Segment> = if c.start_ms > t as nat {
                seq![
                    Segment::Gap {
                        index: i as u64,
                        duration_ms: (c.start_ms - t as nat) as u64,
                    },
                ]
            } else {
                Seq::empty()
            };
            let clipseg = seq![
                Segment::Clip {
                    index: i as u64,
                    trim_start_ms: c.trim_start_ms,
                    duration_ms: c.duration_ms,
                },
            ];
            assert(spec_plan_from(clips@, comp, i as int, t as nat) == gap + clipseg
                + spec_plan_from(clips@, comp, i + 1, (c.start_ms + c.duration_ms) as nat));
            assert(segs@ =~= segs0 + gap + clipseg);
            assert(segs0 + (gap + clipseg + spec_plan_from(
                clips@,
                comp,
                i + 1,
                (c.start_ms + c.duration_ms) as nat,
            )) =~= (segs0 + gap + clipseg) + spec_plan_from(
                clips@,
                comp,
                i + 1,
                (c.start_ms + c.duration_ms) as nat,
            ));
        }
        t = start + duration;
        i = i + 1;
    }
    if t < composition_ms {
        segs.push(
            Segment::Gap { index: clips.len() as u64, duration_ms: composition_ms - t },
        );
    }
    proof {
        assert(timeline_ordered(clips@));
        assert(spec_plan_from(clips@, comp, clips@.len() as int, t as nat) =~= if (t as nat)
            < comp {
            seq![
                Segment::Gap {
                    index: clips@.len() as u64,
                    duration_ms: (comp - t as nat) as u64,
                },
            ]
        } else {
            Seq::empty()
        });
        assert(segs@ =~= spec_plan(clips@, comp));
    }
    Ok(segs)
}

/// The filter text for one gap segment: a black source of the gap's length
/// at the target frame rate, rescaled to the target size, under its label.
pub open spec fn spec_gap_filter(index: nat, duration_ms: nat, fps: nat, scale: Seq<char>) -> Seq<
    char,
> {
    "color=c=black:s=1920x1080:d="@ + spec_secs(duration_ms) + ":r="@ + spec_dec(fps) + ",scale="@
        + scale + "[gap"@ + spec_dec(index) + "]"@
}

/// The filter text for one clip segment: select input `index`, trim to the
/// clip's window, reset timestamps, rescale, under its label.
pub open spec fn spec_clip_filter(
    index: nat,
    trim_start_ms: nat,
    duration_ms: nat,
    scale: Seq<char>,
) -> Seq<char> {
    "["@ + spec_dec(index) + ":v]trim=start="@ + spec_secs(trim_start_ms) + ":duration="@
        + spec_secs(duration_ms) + ",setpts=PTS-STARTPTS,scale="@ + scale + "[clip"@ + spec_dec(
        index,
    ) + "]"@
}

/// The filter text for one segment.
pub open spec fn spec_segment_filter(seg: Segment, fps: nat, scale: Seq<char>) -> Seq<char> {
    match seg {
        Segment::Gap { index, duration_ms } => spec_gap_filter(
            index as nat,
            duration_ms as nat,
            fps,
            scale,
        ),
        Segment::Clip { index, trim_start_ms, duration_ms } => spec_clip_filter(
            index as nat,
            trim_start_ms as nat,
            duration_ms as nat,
            scale,
        ),
    }
}

/// The label under which a segment's output stream is emitted.
pub open spec fn spec_label(seg: Segment) -> Seq<char> {
    match seg {
        Segment::Gap { index, .. } => "[gap"@ + spec_dec(index as nat) + "]"@,
        Segment::Clip { index, .. } => "[clip"@ + spec_dec(index as nat) + "]"@,
    }
}

/// The segment filters in emission order, each terminated by ";".
pub open spec fn spec_filters(plan: Seq<Segment>, fps: nat, scale: Seq<char>) -> Seq<char>
    decreases plan.len(),
{
    if plan.len() == 0 {
        Seq::empty()
    } else {
        spec_filters(plan.drop_last(), fps, scale) + spec_segment_filter(plan.last(), fps, scale)
            + ";"@
    }
}

/// All segment labels, in emission order.
pub open spec fn spec_labels(plan: Seq<Segment>) -> Seq<char>
    decreases plan.len(),
{
    if plan.len() == 0 {
        Seq::empty()
    } else {
        spec_labels(plan.drop_last()) + spec_label(plan.last())
    }
}

/// The concatenation directive: every label in emission order, then a
/// single video-only concatenation of exactly that many inputs into the
/// labeled output stream.
pub open spec fn spec_concat_filter(plan: Seq<Segment>) -> Seq<char> {
    spec_labels(plan) + "concat=n="@ + spec_dec(plan.len()) + ":v=1:a=0[outv]"@
}

/// The whole filter-graph program for a plan.
pub open spec fn spec_filter_complex(plan: Seq<Segment>, fps: nat, scale: Seq<char>) -> Seq<char> {
    spec_filters(plan, fps, scale) + spec_concat_filter(plan)
}

/// Renders the filter text of one segment.
fn render_segment(seg: &Segment, fps: u32, scale: &str) -> (s: String)
    ensures
        s@ == spec_segment_filter(*seg, fps as nat, scale@),
{
    match seg {
        Segment::Gap { index, duration_ms } => {
            let mut s = String::from_str("color=c=black:s=1920x1080:d=");
            let d = ms_to_secs(*duration_ms);
            s.append(d.as_str());
            s.append(":r=");
            let f = u64_to_dec(fps as u64);
            s.append(f.as_str());
            s.append(",scale=");
            s.append(scale);
            s.append("[gap");
            let ix = u64_to_dec(*index);
            s.append(ix.as_str());
            s.append("]");
            proof {
                assert(s@ =~= spec_segment_filter(*seg, fps as nat, scale@));
            }
            s
        },
        Segment::Clip { index, trim_start_ms, duration_ms } => {
            let mut s = String::from_str("[");
            let ix = u64_to_dec(*index);
            s.append(ix.as_str());
            s.append(":v]trim=start=");
            let ts = ms_to_secs(*trim_start_ms);
            s.append(ts.as_str());
            s.append(":duration=");
            let d = ms_to_secs(*duration_ms);
            s.append(d.as_str());
            s.append(",setpts=PTS-STARTPTS,scale=");
            s.append(scale);
            s.append("[clip");
            s.append(ix.as_str());
            s.append("]");
            proof {
                assert(s@ =~= spec_segment_filter(*seg, fps as nat, scale@));
            }
            s
        },
    }
}

/// Renders the label of one segment.
fn render_label(seg: &Segment) -> (s: String)
    ensures
        s@ == spec_label(*seg),
{
    match seg {
        Segment::Gap { index, .. } => {
            let mut s = String::from_str("[gap");
            let ix = u64_to_dec(*index);
            s.append(ix.as_str());
            s.append("]");
            proof {
                assert(s@ =~= spec_label(*seg));
            }
            s
        },
        Segment::Clip { index, .. } => {
            let mut s = String::from_str("[clip");
            let ix = u64_to_dec(*index);
            s.append(ix.as_str());
            s.append("]");
            proof {
                assert(s@ =~= spec_label(*seg));
            }
            s
        },
    }
}

/// Renders the whole filter-graph program for a plan: every segment filter
/// in emission order, then the concatenation directive.
pub fn render_filter_complex(plan: &Vec<Segment>, fps: u32, scale: &str) -> (s: String)
    ensures
        s@ == spec_filter_complex(plan@, fps as nat, scale@),
{
    let mut out = String::new();
    let n = plan.len();
    let mut k: usize = 0;
    while k < n
        invariant
            0 <= k <= n,
            n == plan@.len(),
            out@ == spec_filters(plan@.take(k as int), fps as nat, scale@),
        decreases n - k,
    {
        let f = render_segment(&plan[k], fps, scale);
        out.append(f.as_str());
        out.append(";");
        proof {
            assert(plan@.take(k + 1).drop_last() =~= plan@.take(k as int));
            assert(plan@.take(k + 1).last() == plan@[k as int]);
            assert(out@ =~= spec_filters(plan@.take(k + 1), fps as nat, scale@));
        }
        k = k + 1;
    }
    proof {
        assert(plan@.take(n as int) =~= plan@);
    }
    let mut k: usize = 0;
    while k < n
        invariant
            0 <= k <= n,
            n == plan@.len(),
            out@ == spec_filters(plan@, fps as nat, scale@) + spec_labels(plan@.take(k as int)),
        decreases n - k,
    {
        let l = render_label(&plan[k]);
        out.append(l.as_str());
        proof {
            assert(plan@.take(k + 1).drop_last() =~= plan@.take(k as int));
            assert(plan@.take(k + 1).last() == plan@[k as int]);
            assert(out@ =~= spec_filters(plan@, fps as nat, scale@) + spec_labels(
                plan@.take(k + 1),
            ));
        }
        k = k + 1;
    }
    out.append("concat=n=");
    let cnt = u64_to_dec(n as u64);
    out.append(cnt.as_str());
    out.append(":v=1:a=0[outv]");
    proof {
        assert(plan@.take(n as int) =~= plan@);
        assert(out@ =~= spec_filter_complex(plan@, fps as nat, scale@));
    }
    out
}

/// The filter-graph program for a clip list, or the error that stops it:
/// an empty timeline, then an unknown resolution name, then an overlap are
/// reported in that order, and no filter text is built on any of them.
pub fn build_filter_complex(
    clips: &Vec<ClipInfo>,
    resolution: &str,
    fps: u32,
    composition_ms: u64,
) -> (r: Result<String, ExportError>)
    requires
        forall|i: int| 0 <= i < clips@.len() ==> clip_wf(#[trigger] clips@[i]),
    ensures
        match r {
            Ok(text) => {
                &&& clips@.len() > 0
                &&& spec_resolution(resolution@) is Some
                &&& timeline_ordered(clips@)
                &&& text@ == spec_filter_complex(
                    spec_plan(clips@, composition_ms as nat),
                    fps as nat,
                    spec_scale(spec_resolution(resolution@)->Some_0),
                )
            },
            Err(e) => match e {
                ExportError::EmptyTimeline => clips@.len() == 0,
                ExportError::InvalidResolution => clips@.len() > 0 && spec_resolution(resolution@)
                    is None,
                ExportError::OverlappingClips => clips@.len() > 0 && spec_resolution(resolution@)
                    is Some && !timeline_ordered(clips@),
            },
        },
{
    if clips.len() == 0 {
        return Err(ExportError::EmptyTimeline);
    }
    let res = match parse_resolution(resolution) {
        Some(res) => res,
        None => {
            return Err(ExportError::InvalidResolution);
        },
    };
    let plan = match build_plan(clips, composition_ms) {
        Ok(plan) => plan,
        Err(e) => {
            return Err(e);
        },
    };
    Ok(render_filter_complex(&plan, fps, scale_of(res)))
}

proof fn lemma_count_from(clips: Seq<ClipInfo>, comp_ms: nat, i: int, t: nat)
    requires
        0 <= i <= clips.len(),
    ensures
        spec_plan_from(clips, comp_ms, i, t).len() == (clips.len() - i) + spec_gap_count_from(
            clips,
            comp_ms,
            i,
            t,
        ),
    decreases clips.len() - i,
{
    if i < clips.len() {
        let c = clips[i];
        lemma_count_from(clips, comp_ms, i + 1, (c.start_ms + c.duration_ms) as nat);
    }
}

/// Law: for every clip list in timeline order with no overlaps, the plan
/// holds exactly one segment per clip plus one per strictly positive gap
/// (a possible trailing gap included), and the concatenation directive
/// lists the labels of exactly that many segments, in emission order.
pub proof fn lemma_segment_count(clips: Seq<ClipInfo>, comp_ms: nat)
    requires
        timeline_ordered(clips),
    ensures
        spec_plan(clips, comp_ms).len() == clips.len() + spec_gap_count(clips, comp_ms),
        spec_concat_filter(spec_plan(clips, comp_ms)) == spec_labels(spec_plan(clips, comp_ms))
            + "concat=n="@ + spec_dec(clips.len() + spec_gap_count(clips, comp_ms))
            + ":v=1:a=0[outv]"@,
{
    lemma_count_from(clips, comp_ms, 0, 0);
}

/// Whether `seg` is a trailing gap for a composition of `n` clips: only
/// the gap emitted after the last clip carries the label index `n`.
pub open spec fn is_trailing_gap(seg: Segment, n: u64) -> bool {
    match seg {
        Segment::Gap { index, .. } => index == n,
        Segment::Clip { .. } => false,
    }
}

/// The timeline cursor after the clips from `i` on have been laid out,
/// starting from cursor `t`.
pub open spec fn spec_end_cursor(clips: Seq<ClipInfo>, i: int, t: nat) -> nat
    decreases clips.len() - i,
    when 0 <= i <= clips.len()
{
    if i == clips.len() {
        t
    } else {
        let c = clips[i];
        spec_end_cursor(clips, i + 1, (c.start_ms + c.duration_ms) as nat)
    }
}

proof fn lemma_end_cursor_value(clips: Seq<ClipInfo>, i: int, t: nat)
    requires
        0 <= i < clips.len(),
        forall|k: int| 0 <= k < clips.len() ==> clip_wf(#[trigger] clips[k]),
    ensures
        spec_end_cursor(clips, i, t) == clips.last().start_ms + clips.last().duration_ms,
    decreases clips.len() - i,
{
    let c = clips[i];
    if i + 1 < clips.len() {
        lemma_end_cursor_value(clips, i + 1, (c.start_ms + c.duration_ms) as nat);
    } else {
        assert(clip_wf(clips[i]));
        assert(clips[i] == clips.last());
        assert(spec_end_cursor(clips, i + 1, (c.start_ms + c.duration_ms) as nat) == (c.start_ms
            + c.duration_ms) as nat);
    }
}

proof fn lemma_no_trailing_from(clips: Seq<ClipInfo>, comp_ms: nat, i: int, t: nat)
    requires
        0 <= i <= clips.len(),
        clips.len() <= u64::MAX,
        comp_ms <= spec_end_cursor(clips, i, t),
    ensures
        forall|k: int|
            0 <= k < spec_plan_from(clips, comp_ms, i, t).len() ==> !is_trailing_gap(
                #[trigger] spec_plan_from(clips, comp_ms, i, t)[k],
                clips.len() as u64,
            ),
    decreases clips.len() - i,
{
    let n64 = clips.len() as u64;
    let plan = spec_plan_from(clips, comp_ms, i, t);
    if i == clips.len() {
        assert(t >= comp_ms);
        assert(plan =~= Seq::<Segment>::empty());
    } else {
        let c = clips[i];
        lemma_no_trailing_from(clips, comp_ms, i + 1, (c.start_ms + c.duration_ms) as nat);
        let rest = spec_plan_from(clips, comp_ms, i + 1, (c.start_ms + c.duration_ms) as nat);
        let gap: Seq<Segment> = if c.start_ms > t {
            seq![Segment::Gap { index: i as u64, duration_ms: (c.start_ms - t) as u64 }]
        } else {
            Seq::empty()
        };
        let clipseg = seq![
            Segment::Clip {
                index: i as u64,
                trim_start_ms: c.trim_start_ms,
                duration_ms: c.duration_ms,
            },
        ];
        assert(plan == gap + clipseg + rest);
        assert(i as u64 != n64);
        assert forall|k: int| 0 <= k < plan.len() implies !is_trailing_gap(plan[k], n64) by {
            if k < gap.len() {
                assert(plan[k] == gap[k]);
            } else if k == gap.len() {
                assert(plan[k] == clipseg[0]);
            } else {
                assert(plan[k] == rest[k - gap.len() - 1]);
            }
        }
    }
}

/// Law: when the composition length equals the last clip's end time, the
/// plan holds no trailing gap segment (the one gap label index that could
/// follow every clip never appears).
pub proof fn lemma_no_trailing_gap(clips: Seq<ClipInfo>, comp_ms: nat)
    requires
        clips.len() > 0,
        clips.len() <= u64::MAX,
        forall|k: int| 0 <= k < clips.len() ==> clip_wf(#[trigger] clips[k]),
        comp_ms == clips.last().start_ms + clips.last().duration_ms,
    ensures
        forall|k: int|
            0 <= k < spec_plan(clips, comp_ms).len() ==> !is_trailing_gap(
                #[trigger] spec_plan(clips, comp_ms)[k],
                clips.len() as u64,
            ),
{
    lemma_end_cursor_value(clips, 0, 0);
    lemma_no_trailing_from(clips, comp_ms, 0, 0);
}

/// The decimal numeral has at least one digit.
proof fn lemma_dec_len_pos(n: nat)
    ensures
        spec_dec(n).len() >= 1,
{
    if n < 10 {
        assert(spec_dec(n) == seq![crate::numfmt::digit_char(n)]);
    } else {
        assert(spec_dec(n) == spec_dec(n / 10) + seq![crate::numfmt::digit_char(n % 10)]);
    }
}

/// Distinct numbers have distinct decimal numerals.
proof fn lemma_dec_injective(a: nat, b: nat)
    requires
        spec_dec(a) == spec_dec(b),
    ensures
        a == b,
    decreases a,
{
    if a < 10 && b < 10 {
        assert(spec_dec(a)[0] == crate::numfmt::digit_char(a));
        assert(spec_dec(b)[0] == crate::numfmt::digit_char(b));
    } else if a < 10 && b >= 10 {
        lemma_dec_len_pos(b / 10);
        assert(spec_dec(a).len() == 1);
        assert(spec_dec(b).len() == spec_dec(b / 10).len() + 1);
    } else if a >= 10 && b < 10 {
        lemma_dec_len_pos(a / 10);
        assert(spec_dec(b).len() == 1);
        assert(spec_dec(a).len() == spec_dec(a / 10).len() + 1);
    } else {
        assert(spec_dec(a) == spec_dec(a / 10) + seq![crate::numfmt::digit_char(a % 10)]);
        assert(spec_dec(b) == spec_dec(b / 10) + seq![crate::numfmt::digit_char(b % 10)]);
        assert(spec_dec(a).last() == crate::numfmt::digit_char(a % 10));
        assert(spec_dec(b).last() == crate::numfmt::digit_char(b % 10));
        assert(a % 10 == b % 10);
        assert(spec_dec(a / 10) =~= spec_dec(a).drop_last());
        assert(spec_dec(b / 10) =~= spec_dec(b).drop_last());
        lemma_dec_injective(a / 10, b / 10);
    }
}

/// The label index of a segment.
pub open spec fn seg_index(seg: Segment) -> u64 {
    match seg {
        Segment::Gap { index, .. } => index,
        Segment::Clip { index, .. } => index,
    }
}

/// Whether a segment is a gap.
pub open spec fn seg_is_gap(seg: Segment) -> bool {
    match seg {
        Segment::Gap { .. } => true,
        Segment::Clip { .. } => false,
    }
}

/// Equal labels come only from segments of the same kind with the same
/// index.
proof fn lemma_label_injective(s1: Segment, s2: Segment)
    requires
        spec_label(s1) == spec_label(s2),
    ensures
        seg_is_gap(s1) == seg_is_gap(s2),
        seg_index(s1) == seg_index(s2),
{
    reveal_strlit("[gap");
    reveal_strlit("[clip");
    reveal_strlit("]");
    let l1 = spec_label(s1);
    let l2 = spec_label(s2);
    if seg_is_gap(s1) != seg_is_gap(s2) {
        if seg_is_gap(s1) {
            assert(l1[1] == 'g');
            assert(l2[1] == 'c');
        } else {
            assert(l1[1] == 'c');
            assert(l2[1] == 'g');
        }
        assert(false);
    }
    let d1 = spec_dec(seg_index(s1) as nat);
    let d2 = spec_dec(seg_index(s2) as nat);
    let p: int = if seg_is_gap(s1) {
        4
    } else {
        5
    };
    assert(l1.len() == p + d1.len() + 1);
    assert(l2.len() == p + d2.len() + 1);
    assert(d1.len() == d2.len());
    let pre: Seq<char> = if seg_is_gap(s1) {
        "[gap"@
    } else {
        "[clip"@
    };
    assert(l1 == pre + d1 + "]"@);
    assert(l2 == pre + d2 + "]"@);
    assert forall|j: int| 0 <= j < d1.len() implies d1[j] == d2[j] by {
        assert((pre + d1).len() == p + d1.len());
        assert(l1[p + j] == (pre + d1)[p + j]);
        assert((pre + d1)[p + j] == d1[j]);
        assert(l2[p + j] == (pre + d2)[p + j]);
        assert((pre + d2)[p + j] == d2[j]);
    }
    assert(d1 =~= d2);
    lemma_dec_injective(seg_index(s1) as nat, seg_index(s2) as nat);
}

proof fn lemma_plan_from_labels_distinct(clips: Seq<ClipInfo>, comp_ms: nat, i: int, t: nat)
    requires
        0 <= i <= clips.len(),
        clips.len() <= u64::MAX,
    ensures
        forall|k: int|
            0 <= k < spec_plan_from(clips, comp_ms, i, t).len() ==> seg_index(
                #[trigger] spec_plan_from(clips, comp_ms, i, t)[k],
            ) >= i,
        forall|k1: int, k2: int|
            0 <= k1 < k2 < spec_plan_from(clips, comp_ms, i, t).len() ==> spec_label(
                #[trigger] spec_plan_from(clips, comp_ms, i, t)[k1],
            ) != spec_label(#[trigger] spec_plan_from(clips, comp_ms, i, t)[k2]),
    decreases clips.len() - i,
{
    let plan = spec_plan_from(clips, comp_ms, i, t);
    if i == clips.len() {
        // At most the trailing gap, whose index is the clip count.
    } else {
        let c = clips[i];
        let t2 = (c.start_ms + c.duration_ms) as nat;
        lemma_plan_from_labels_distinct(clips, comp_ms, i + 1, t2);
        let rest = spec_plan_from(clips, comp_ms, i + 1, t2);
        let gap: Seq<Segment> = if c.start_ms > t {
            seq![Segment::Gap { index: i as u64, duration_ms: (c.start_ms - t) as u64 }]
        } else {
            Seq::empty()
        };
        let clipseg = seq![
            Segment::Clip {
                index: i as u64,
                trim_start_ms: c.trim_start_ms,
                duration_ms: c.duration_ms,
            },
        ];
        assert(plan == gap + clipseg + rest);
        let g = gap.len();
        assert forall|k: int| 0 <= k < plan.len() implies seg_index(plan[k]) >= i by {
            if k < g {
                assert(plan[k] == gap[0]);
            } else if k == g {
                assert(plan[k] == clipseg[0]);
            } else {
                assert(plan[k] == rest[k - g - 1]);
                assert(seg_index(rest[k - g - 1]) >= i + 1);
            }
        }
        assert forall|k1: int, k2: int|
            0 <= k1 < k2 < plan.len() implies spec_label(plan[k1]) != spec_label(plan[k2]) by {
            if k2 < g + 1 {
                // The gap before the clip and the clip itself share the
                // index but differ in kind.
                assert(plan[k1] == gap[0]);
                assert(plan[k2] == clipseg[0]);
                if spec_label(plan[k1]) == spec_label(plan[k2]) {
                    lemma_label_injective(plan[k1], plan[k2]);
                }
            } else if k1 <= g {
                // One side is this clip's gap or the clip, the other lies
                // beyond it and carries a strictly larger index.
                if k1 < g {
                    assert(plan[k1] == gap[0]);
                } else {
                    assert(plan[k1] == clipseg[0]);
                }
                assert(plan[k2] == rest[k2 - g - 1]);
                assert(seg_index(rest[k2 - g - 1]) >= i + 1);
                if spec_label(plan[k1]) == spec_label(plan[k2]) {
                    lemma_label_injective(plan[k1], plan[k2]);
                }
            } else {
                assert(plan[k1] == rest[k1 - g - 1]);
                assert(plan[k2] == rest[k2 - g - 1]);
            }
        }
    }
}

/// Law: labels never collide — every two segments of a plan carry
/// distinct labels, so the concatenation directive's inputs are
/// unambiguous.
pub proof fn lemma_labels_unique(clips: Seq<ClipInfo>, comp_ms: nat)
    requires
        clips.len() <= u64::MAX,
    ensures
        forall|k1: int, k2: int|
            0 <= k1 < k2 < spec_plan(clips, comp_ms).len() ==> spec_label(
                #[trigger] spec_plan(clips, comp_ms)[k1],
            ) != spec_label(#[trigger] spec_plan(clips, comp_ms)[k2]),
{
    lemma_plan_from_labels_distinct(clips, comp_ms, 0, 0);
}

/// The "-i <path>" input arguments, one pair per clip, in clip order.
pub open spec fn spec_input_args(clips: Seq<ClipInfo>) -> Seq<Seq<char>>
    decreases clips.len(),
{
    if clips.len() == 0 {
        Seq::empty()
    } else {
        spec_input_args(clips.drop_last()) + seq!["-i"@, clips.last().file_path@]
    }
}

/// The full engine invocation for an export: overwrite the output, list
/// every input, apply the filter program, map its output stream, and
/// encode at the fixed rate-quality policy.
pub open spec fn spec_export_args(
    clips: Seq<ClipInfo>,
    filter: Seq<char>,
    fps: nat,
    output: Seq<char>,
) -> Seq<Seq<char>> {
    seq!["-y"@] + spec_input_args(clips) + seq![
        "-filter_complex"@,
        filter,
        "-map"@,
        "[outv]"@,
        "-r"@,
        spec_dec(fps),
        "-c:v"@,
        "libx264"@,
        "-preset"@,
        "medium"@,
        "-crf"@,
        "23"@,
        output,
    ]
}

/// Builds the argument list for one export invocation of the transcoding
/// engine, or the error that stops the export before any is built.
pub fn export_video_args(
    clips: &Vec<ClipInfo>,
    output_path: &str,
    resolution: &str,
    fps: u32,
    composition_ms: u64,
) -> (r: Result<Vec<String>, ExportError>)
    requires
        forall|i: int| 0 <= i < clips@.len() ==> clip_wf(#[trigger] clips@[i]),
    ensures
        match r {
            Ok(args) => {
                &&& clips@.len() > 0
                &&& spec_resolution(resolution@) is Some
                &&& timeline_ordered(clips@)
                &&& args.deep_view() == spec_export_args(
                    clips@,
                    spec_filter_complex(
                        spec_plan(clips@, composition_ms as nat),
                        fps as nat,
                        spec_scale(spec_resolution(resolution@)->Some_0),
                    ),
                    fps as nat,
                    output_path@,
                )
            },
            Err(e) => match e {
                ExportError::EmptyTimeline => clips@.len() == 0,
                ExportError::InvalidResolution => clips@.len() > 0 && spec_resolution(resolution@)
                    is None,
                ExportError::OverlappingClips => clips@.len() > 0 && spec_resolution(resolution@)
                    is Some && !timeline_ordered(clips@),
            },
        },
{
    let filter = match build_filter_complex(clips, resolution, fps, composition_ms) {
        Ok(filter) => filter,
        Err(e) => {
            return Err(e);
        },
    };
    let mut args: Vec<String> = Vec::new();
    args.push(String::from_str("-y"));
    proof {
        assert(args.deep_view() =~= seq!["-y"@]);
    }
    let mut i: usize = 0;
    while i < clips.len()
        invariant
            0 <= i <= clips@.len(),
            args.deep_view() == seq!["-y"@] + spec_input_args(clips@.take(i as int)),
        decreases clips@.len() - i,
    {
        let ghost a0 = args.deep_view();
        args.push(String::from_str("-i"));
        args.push(clips[i].file_path.clone());
        proof {
            assert(args.deep_view() =~= a0 + seq!["-i"@, clips@[i as int].file_path@]);
            assert(clips@.take(i + 1).drop_last() =~= clips@.take(i as int));
            assert(clips@.take(i + 1).last() == clips@[i as int]);
            assert(spec_input_args(clips@.take(i + 1)) == spec_input_args(clips@.take(i as int))
                + seq!["-i"@, clips@[i as int].file_path@]);
            assert((seq!["-y"@] + spec_input_args(clips@.take(i as int))) + seq![
                "-i"@,
                clips@[i as int].file_path@,
            ] =~= seq!["-y"@] + spec_input_args(clips@.take(i + 1)));
        }
        i = i + 1;
    }
    let ghost args_after_inputs = args.deep_view();
    args.push(String::from_str("-filter_complex"));
    args.push(filter);
    args.push(String::from_str("-map"));
    args.push(String::from_str("[outv]"));
    args.push(String::from_str("-r"));
    args.push(u64_to_dec(fps as u64));
    args.push(String::from_str("-c:v"));
    args.push(String::from_str("libx264"));
    args.push(String::from_str("-preset"));
    args.push(String::from_str("medium"));
    args.push(String::from_str("-crf"));
    args.push(String::from_str("23"));
    args.push(output_path.to_owned());
    proof {
        assert(clips@.take(clips@.len() as int) =~= clips@);
        assert(args.deep_view() =~= spec_export_args(
            clips@,
            spec_filter_complex(
                spec_plan(clips@, composition_ms as nat),
                fps as nat,
                spec_scale(spec_resolution(resolution@)->Some_0),
            ),
            fps as nat,
            output_path@,
        ));
    }
    Ok(args)
}

} // verus!
