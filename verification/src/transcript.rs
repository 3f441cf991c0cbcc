//! The transcript model and everything derived from it: the mapping from
//! the speech service's response, the subtitle and plain-text renderings
//! with their exact cue-timestamp formats, the transcription pipeline's
//! progress stages, and the fields of the upload form. Times are
//! milliseconds throughout.

use vstd::prelude::*;
use vstd::string::StrSliceExecFns;
use vstd::string::StringExecFns;
use crate::numfmt::{
    spec_clock,
    spec_dec,
    spec_secs_trimmed,
    ms_to_clock,
    ms_to_secs_trimmed,
    u64_to_dec,
};
use crate::textutil::{spec_trim, str_eq, trim_chars};

verus! {

/// One transcript segment: a stretch of speech with its timing.
#[derive(Clone, Debug)]
pub struct TranscriptSegment {
    pub id: String,
    pub text: String,
    pub start_ms: u64,
    pub end_ms: u64,
    /// In thousandths; the speech service reports none per segment.
    pub confidence: Option<u32>,
}

/// One recognized word with its timing.
#[derive(Clone, Debug)]
pub struct TranscriptWord {
    pub word: String,
    pub start_ms: u64,
    pub end_ms: u64,
    /// In thousandths; the speech service reports none per word.
    pub confidence: Option<u32>,
}

/// A full transcription of one clip.
#[derive(Clone, Debug)]
pub struct Transcript {
    pub id: String,
    pub clip_id: String,
    pub language: String,
    pub segments: Vec<TranscriptSegment>,
    pub words: Vec<TranscriptWord>,
    pub full_text: String,
    pub duration_ms: u64,
    pub created_at: String,
}

/// A progress notification of the transcription pipeline.
#[derive(Clone, Debug)]
pub struct TranscriptionProgress {
    pub clip_id: String,
    pub stage: String,
    pub percent: u32,
    pub message: String,
}

/// The transcription request's parameters; the sampling temperature is in
/// thousandths.
#[derive(Clone, Debug)]
pub struct TranscriptionConfig {
    pub language: Option<String>,
    pub model: String,
    pub response_format: String,
    pub temperature_milli: u32,
}

/// One segment of the speech service's response, reduced to what the
/// mapping reads.
#[derive(Clone, Debug)]
pub struct WhisperSegment {
    pub text: String,
    pub start_ms: u64,
    pub end_ms: u64,
}

/// One word of the speech service's response.
#[derive(Clone, Debug)]
pub struct WhisperWord {
    pub word: String,
    pub start_ms: u64,
    pub end_ms: u64,
}

/// The speech service's response, reduced to what the mapping reads.
#[derive(Clone, Debug)]
pub struct WhisperResponse {
    pub language: String,
    pub duration_ms: u64,
    pub text: String,
    pub segments: Vec<WhisperSegment>,
    pub words: Option<Vec<WhisperWord>>,
}

/// Relies on uuid's `Uuid::new_v4` and its `Display` form: a fresh random
/// version-4 UUID rendered in the 36-character hyphenated form. The value
/// is random; only its length is assumed.
#[verifier::external_body]
fn fresh_uuid() -> (r: String)
    ensures
        r@.len() == 36,
{
    uuid::Uuid::new_v4().to_string()
}

/// Relies on chrono's `Utc::now` and `DateTime::to_rfc3339`: the current
/// wall-clock time rendered in RFC 3339 form. Nothing is assumed of the
/// value, which depends on the clock.
#[verifier::external_body]
fn now_rfc3339() -> String {
    chrono::Utc::now().to_rfc3339()
}

/// Maps the speech service's response to a transcript: every segment keeps
/// its timing and its text trimmed of surrounding whitespace, every word
/// is kept as reported, no per-segment or per-word confidence is invented,
/// and the transcript carries fresh identifiers and its creation time.
pub fn whisper_to_transcript(whisper: WhisperResponse, clip_id: String) -> (t: Transcript)
    ensures
        t.clip_id == clip_id,
        t.language == whisper.language,
        t.full_text == whisper.text,
        t.duration_ms == whisper.duration_ms,
        t.id@.len() == 36,
        t.segments@.len() == whisper.segments@.len(),
        forall|i: int|
            0 <= i < t.segments@.len() ==> {
                let s = #[trigger] t.segments@[i];
                &&& s.text@ == spec_trim(whisper.segments@[i].text@)
                &&& s.start_ms == whisper.segments@[i].start_ms
                &&& s.end_ms == whisper.segments@[i].end_ms
                &&& s.confidence is None
                &&& s.id@.len() == 36
            },
        t.words@.len() == (match whisper.words {
            Some(ws) => ws@.len(),
            None => 0,
        }),
        forall|i: int|
            0 <= i < t.words@.len() ==> {
                let w = #[trigger] t.words@[i];
                &&& whisper.words matches Some(ws)
                &&& w.word == ws[i].word
                &&& w.start_ms == ws[i].start_ms
                &&& w.end_ms == ws[i].end_ms
                &&& w.confidence is None
            },
{
    let mut segments: Vec<TranscriptSegment> = Vec::new();
    let n = whisper.segments.len();
    let mut i: usize = 0;
    while i < n
        invariant
            0 <= i <= n,
            n == whisper.segments@.len(),
            segments@.len() == i,
            forall|k: int|
                0 <= k < i ==> {
                    let s = #[trigger] segments@[k];
                    &&& s.text@ == spec_trim(whisper.segments@[k].text@)
                    &&& s.start_ms == whisper.segments@[k].start_ms
                    &&& s.end_ms == whisper.segments@[k].end_ms
                    &&& s.confidence is None
                    &&& s.id@.len() == 36
                },
        decreases n - i,
    {
        let src = &whisper.segments[i];
        let seg = TranscriptSegment {
            id: fresh_uuid(),
            text: trim_chars(src.text.as_str()),
            start_ms: src.start_ms,
            end_ms: src.end_ms,
            confidence: None,
        };
        segments.push(seg);
        i = i + 1;
    }
    let mut words: Vec<TranscriptWord> = Vec::new();
    match &whisper.words {
        Some(ws) => {
            let m = ws.len();
            let mut j: usize = 0;
            while j < m
                invariant
                    0 <= j <= m,
                    m == ws@.len(),
                    whisper.words matches Some(wsg) && wsg@ == ws@,
                    words@.len() == j,
                    forall|k: int|
                        0 <= k < j ==> {
                            let w = #[trigger] words@[k];
                            &&& w.word == ws@[k].word
                            &&& w.start_ms == ws@[k].start_ms
                            &&& w.end_ms == ws@[k].end_ms
                            &&& w.confidence is None
                        },
                decreases m - j,
            {
                let src = &ws[j];
                words.push(
                    TranscriptWord {
                        word: src.word.clone(),
                        start_ms: src.start_ms,
                        end_ms: src.end_ms,
                        confidence: None,
                    },
                );
                j = j + 1;
            }
        },
        None => {},
    }
    Transcript {
        id: fresh_uuid(),
        clip_id,
        language: whisper.language,
        segments,
        words,
        full_text: whisper.text,
        duration_ms: whisper.duration_ms,
        created_at: now_rfc3339(),
    }
}

/// Renders a cue timestamp in the numbered-cue format: a comma between
/// seconds and milliseconds.
pub fn format_srt_time(ms: u64) -> (s: String)
    ensures
        s@ == spec_clock(ms as nat, ','),
{
    proof {
        reveal_strlit(",");
    }
    ms_to_clock(ms, ",")
}

/// Renders a cue timestamp in the web-cue format: a dot between seconds
/// and milliseconds.
pub fn format_vtt_time(ms: u64) -> (s: String)
    ensures
        s@ == spec_clock(ms as nat, '.'),
{
    proof {
        reveal_strlit(".");
    }
    ms_to_clock(ms, ".")
}

/// One numbered cue: its one-based number, its comma-form time range, its
/// text, and a blank separator line.
pub open spec fn spec_srt_cue(number: nat, seg: TranscriptSegment) -> Seq<char> {
    spec_dec(number) + "\n"@ + spec_clock(seg.start_ms as nat, ',') + " --> "@ + spec_clock(
        seg.end_ms as nat,
        ',',
    ) + "\n"@ + seg.text@ + "\n\n"@
}

/// The numbered-cue rendering of the segments, cues numbered from one.
pub open spec fn spec_srt(segs: Seq<TranscriptSegment>) -> Seq<char>
    decreases segs.len(),
{
    if segs.len() == 0 {
        Seq::empty()
    } else {
        spec_srt(segs.drop_last()) + spec_srt_cue(segs.len(), segs.last())
    }
}

/// One web cue: its dot-form time range, its text, and a blank separator
/// line.
pub open spec fn spec_vtt_cue(seg: TranscriptSegment) -> Seq<char> {
    spec_clock(seg.start_ms as nat, '.') + " --> "@ + spec_clock(seg.end_ms as nat, '.') + "\n"@
        + seg.text@ + "\n\n"@
}

/// The web-cue body of the segments.
pub open spec fn spec_vtt_body(segs: Seq<TranscriptSegment>) -> Seq<char>
    decreases segs.len(),
{
    if segs.len() == 0 {
        Seq::empty()
    } else {
        spec_vtt_body(segs.drop_last()) + spec_vtt_cue(segs.last())
    }
}

/// The full web-cue rendering: the fixed header line, then the cues.
pub open spec fn spec_vtt(segs: Seq<TranscriptSegment>) -> Seq<char> {
    "WEBVTT\n\n"@ + spec_vtt_body(segs)
}

/// The plain-text export: the transcript's full text, nothing else.
pub fn render_txt(t: &Transcript) -> (r: String)
    ensures
        r@ == t.full_text@,
{
    t.full_text.clone()
}

/// Renders one numbered cue; see [`spec_srt_cue`].
fn render_srt_cue(number: u64, seg: &TranscriptSegment) -> (r: String)
    requires
        number >= 1,
    ensures
        r@ == spec_srt_cue(number as nat, *seg),
{
    let mut out = u64_to_dec(number);
    out.append("\n");
    let start = format_srt_time(seg.start_ms);
    out.append(start.as_str());
    out.append(" --> ");
    let end = format_srt_time(seg.end_ms);
    out.append(end.as_str());
    out.append("\n");
    out.append(seg.text.as_str());
    out.append("\n\n");
    proof {
        assert(out@ =~= spec_srt_cue(number as nat, *seg));
    }
    out
}

/// The numbered-cue export; see [`spec_srt`].
pub fn render_srt(t: &Transcript) -> (r: String)
    ensures
        r@ == spec_srt(t.segments@),
{
    let mut out = String::new();
    let n = t.segments.len();
    let mut i: usize = 0;
    while i < n
        invariant
            0 <= i <= n,
            n == t.segments@.len(),
            out@ == spec_srt(t.segments@.take(i as int)),
        decreases n - i,
    {
        let ghost out0 = out@;
        let cue = render_srt_cue(i as u64 + 1, &t.segments[i]);
        out.append(cue.as_str());
        proof {
            assert(t.segments@.take(i + 1).drop_last() =~= t.segments@.take(i as int));
            assert(t.segments@.take(i + 1).last() == t.segments@[i as int]);
            assert(spec_srt(t.segments@.take(i + 1)) == spec_srt(t.segments@.take(i as int))
                + spec_srt_cue(i as nat + 1, t.segments@[i as int]));
        }
        i = i + 1;
    }
    proof {
        assert(t.segments@.take(n as int) =~= t.segments@);
    }
    out
}

/// Renders one web cue; see [`spec_vtt_cue`].
fn render_vtt_cue(seg: &TranscriptSegment) -> (r: String)
    ensures
        r@ == spec_vtt_cue(*seg),
{
    let mut out = format_vtt_time(seg.start_ms);
    out.append(" --> ");
    let end = format_vtt_time(seg.end_ms);
    out.append(end.as_str());
    out.append("\n");
    out.append(seg.text.as_str());
    out.append("\n\n");
    proof {
        assert(out@ =~= spec_vtt_cue(*seg));
    }
    out
}

/// The web-cue export; see [`spec_vtt`].
pub fn render_vtt(t: &Transcript) -> (r: String)
    ensures
        r@ == spec_vtt(t.segments@),
{
    let mut out = String::from_str("WEBVTT\n\n");
    let n = t.segments.len();
    let mut i: usize = 0;
    proof {
        assert(spec_vtt_body(t.segments@.take(0)) =~= Seq::<char>::empty());
        assert(out@ =~= "WEBVTT\n\n"@ + spec_vtt_body(t.segments@.take(0)));
    }
    while i < n
        invariant
            0 <= i <= n,
            n == t.segments@.len(),
            out@ == "WEBVTT\n\n"@ + spec_vtt_body(t.segments@.take(i as int)),
        decreases n - i,
    {
        let cue = render_vtt_cue(&t.segments[i]);
        out.append(cue.as_str());
        proof {
            assert(t.segments@.take(i + 1).drop_last() =~= t.segments@.take(i as int));
            assert(t.segments@.take(i + 1).last() == t.segments@[i as int]);
            assert(spec_vtt_body(t.segments@.take(i + 1)) == spec_vtt_body(
                t.segments@.take(i as int),
            ) + spec_vtt_cue(t.segments@[i as int]));
            assert(out@ =~= "WEBVTT\n\n"@ + spec_vtt_body(t.segments@.take(i + 1)));
        }
        i = i + 1;
    }
    proof {
        assert(t.segments@.take(n as int) =~= t.segments@);
    }
    out
}

/// The transcription pipeline's stages, in order.
#[derive(Clone, Copy, Debug, PartialEq, Eq, Structural)]
pub enum TranscriptionStage {
    Extracting,
    Transcribing,
    Processing,
    Complete,
}

/// The lifecycle-event name of a stage.
pub open spec fn spec_stage_name(st: TranscriptionStage) -> Seq<char> {
    match st {
        TranscriptionStage::Extracting => "extracting"@,
        TranscriptionStage::Transcribing => "transcribing"@,
        TranscriptionStage::Processing => "processing"@,
        TranscriptionStage::Complete => "complete"@,
    }
}

/// The percentage reported at a stage.
pub open spec fn spec_stage_percent(st: TranscriptionStage) -> nat {
    match st {
        TranscriptionStage::Extracting => 0,
        TranscriptionStage::Transcribing => 30,
        TranscriptionStage::Processing => 90,
        TranscriptionStage::Complete => 100,
    }
}

/// The human-readable message reported at a stage.
pub open spec fn spec_stage_message(st: TranscriptionStage) -> Seq<char> {
    match st {
        TranscriptionStage::Extracting => "Extracting audio from video..."@,
        TranscriptionStage::Transcribing => "Sending to OpenAI for transcription..."@,
        TranscriptionStage::Processing => "Processing transcription..."@,
        TranscriptionStage::Complete => "Transcription complete!"@,
    }
}

/// The stage after `st`; the pipeline ends at `Complete`.
pub open spec fn spec_next_stage(st: TranscriptionStage) -> TranscriptionStage {
    match st {
        TranscriptionStage::Extracting => TranscriptionStage::Transcribing,
        TranscriptionStage::Transcribing => TranscriptionStage::Processing,
        TranscriptionStage::Processing => TranscriptionStage::Complete,
        TranscriptionStage::Complete => TranscriptionStage::Complete,
    }
}

/// The stage the pipeline advances to after `st`.
pub fn next_stage(st: TranscriptionStage) -> (n: TranscriptionStage)
    ensures
        n == spec_next_stage(st),
{
    match st {
        TranscriptionStage::Extracting => TranscriptionStage::Transcribing,
        TranscriptionStage::Transcribing => TranscriptionStage::Processing,
        TranscriptionStage::Processing => TranscriptionStage::Complete,
        TranscriptionStage::Complete => TranscriptionStage::Complete,
    }
}

/// The progress notification emitted when the pipeline reaches a stage.
pub fn progress_for(clip_id: String, st: TranscriptionStage) -> (p: TranscriptionProgress)
    ensures
        p.clip_id == clip_id,
        p.stage@ == spec_stage_name(st),
        p.percent == spec_stage_percent(st),
        p.message@ == spec_stage_message(st),
{
    let (stage, percent, message): (&'static str, u32, &'static str) = match st {
        TranscriptionStage::Extracting => ("extracting", 0, "Extracting audio from video..."),
        TranscriptionStage::Transcribing => (
            "transcribing",
            30,
            "Sending to OpenAI for transcription...",
        ),
        TranscriptionStage::Processing => ("processing", 90, "Processing transcription..."),
        TranscriptionStage::Complete => ("complete", 100, "Transcription complete!"),
    };
    TranscriptionProgress {
        clip_id,
        stage: stage.to_owned(),
        percent,
        message: message.to_owned(),
    }
}

/// A transcript export format.
#[derive(Clone, Copy, Debug, PartialEq, Eq, Structural)]
pub enum TranscriptFormat {
    Txt,
    Srt,
    Vtt,
    Json,
}

/// The format for an export-format name; only the four known names parse.
pub open spec fn spec_transcript_format(name: Seq<char>) -> Option<TranscriptFormat> {
    if name == "txt"@ {
        Some(TranscriptFormat::Txt)
    } else if name == "srt"@ {
        Some(TranscriptFormat::Srt)
    } else if name == "vtt"@ {
        Some(TranscriptFormat::Vtt)
    } else if name == "json"@ {
        Some(TranscriptFormat::Json)
    } else {
        None
    }
}

/// Parses an export-format name.
pub fn parse_transcript_format(name: &str) -> (r: Option<TranscriptFormat>)
    ensures
        r == spec_transcript_format(name@),
{
    if str_eq(name, "txt") {
        Some(TranscriptFormat::Txt)
    } else if str_eq(name, "srt") {
        Some(TranscriptFormat::Srt)
    } else if str_eq(name, "vtt") {
        Some(TranscriptFormat::Vtt)
    } else if str_eq(name, "json") {
        Some(TranscriptFormat::Json)
    } else {
        None
    }
}

/// Renders a transcript in the given text format: the plain text, the
/// numbered cues, or the web cues. The structured full-fidelity dump is
/// not a text rendering and yields `None`; the caller serializes it.
pub fn render_export(t: &Transcript, format: TranscriptFormat) -> (r: Option<String>)
    ensures
        match format {
            TranscriptFormat::Txt => r matches Some(s) && s@ == t.full_text@,
            TranscriptFormat::Srt => r matches Some(s) && s@ == spec_srt(t.segments@),
            TranscriptFormat::Vtt => r matches Some(s) && s@ == spec_vtt(t.segments@),
            TranscriptFormat::Json => r is None,
        },
{
    match format {
        TranscriptFormat::Txt => Some(render_txt(t)),
        TranscriptFormat::Srt => Some(render_srt(t)),
        TranscriptFormat::Vtt => Some(render_vtt(t)),
        TranscriptFormat::Json => None,
    }
}

/// The text fields of the transcription upload form, in order: the model,
/// the response format, the temperature written as a plain number, and the
/// language only when one is configured.
pub open spec fn spec_form_fields(c: TranscriptionConfig) -> Seq<(Seq<char>, Seq<char>)> {
    seq![
        ("model"@, c.model@),
        ("response_format"@, c.response_format@),
        ("temperature"@, spec_secs_trimmed(c.temperature_milli as nat)),
    ] + (match c.language {
        Some(l) => seq![("language"@, l@)],
        None => Seq::empty(),
    })
}

/// Builds the upload form's text fields; see [`spec_form_fields`].
pub fn form_fields(c: &TranscriptionConfig) -> (r: Vec<(String, String)>)
    ensures
        r@.len() == spec_form_fields(*c).len(),
        forall|i: int|
            0 <= i < r@.len() ==> (#[trigger] r@[i]).0@ == spec_form_fields(*c)[i].0 && r@[i].1@
                == spec_form_fields(*c)[i].1,
{
    let mut r: Vec<(String, String)> = Vec::new();
    r.push((String::from_str("model"), c.model.clone()));
    r.push((String::from_str("response_format"), c.response_format.clone()));
    r.push((String::from_str("temperature"), ms_to_secs_trimmed(c.temperature_milli as u64)));
    match &c.language {
        Some(l) => {
            r.push((String::from_str("language"), l.clone()));
        },
        None => {},
    }
    r
}

} // verus!
