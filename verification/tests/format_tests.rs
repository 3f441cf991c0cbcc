use clipforge::numfmt::{ms_to_clock, ms_to_secs, ms_to_secs_trimmed, u64_to_dec, u64_to_pad2};
use clipforge::textutil::{
    find_char, parse_u32_digits, parse_u64_digits, rfind_sub, str_contains, str_eq, trim_chars,
};
use clipforge::transcript::{
    form_fields, format_srt_time, format_vtt_time, next_stage, parse_transcript_format,
    progress_for, render_export, render_srt, render_txt, render_vtt, whisper_to_transcript,
    Transcript, TranscriptFormat, TranscriptSegment, TranscriptionConfig, TranscriptionStage,
    WhisperResponse, WhisperSegment, WhisperWord,
};

#[test]
fn decimal_rendering() {
    assert_eq!(u64_to_dec(0), "0");
    assert_eq!(u64_to_dec(7), "7");
    assert_eq!(u64_to_dec(30), "30");
    assert_eq!(u64_to_dec(1001), "1001");
    assert_eq!(u64_to_dec(u64::MAX), "18446744073709551615");
    assert_eq!(u64_to_pad2(5), "05");
    assert_eq!(u64_to_pad2(59), "59");
    assert_eq!(u64_to_pad2(100), "100");
}

#[test]
fn seconds_rendering() {
    assert_eq!(ms_to_secs(0), "0.000");
    assert_eq!(ms_to_secs(2500), "2.500");
    assert_eq!(ms_to_secs(12345), "12.345");
    assert_eq!(ms_to_secs_trimmed(0), "0");
    assert_eq!(ms_to_secs_trimmed(2000), "2");
    assert_eq!(ms_to_secs_trimmed(2500), "2.5");
    assert_eq!(ms_to_secs_trimmed(2050), "2.05");
    assert_eq!(ms_to_secs_trimmed(2056), "2.056");
}

#[test]
fn clock_rendering() {
    assert_eq!(ms_to_clock(0, ","), "00:00:00,000");
    assert_eq!(ms_to_clock(3661001, "."), "01:01:01.001");
    // Hours grow past two digits instead of wrapping.
    assert_eq!(ms_to_clock(360000000, ","), "100:00:00,000");
}

#[test]
fn cue_timestamps_for_both_formats() {
    assert_eq!(format_srt_time(125500), "00:02:05,500");
    assert_eq!(format_vtt_time(125500), "00:02:05.500");
}

#[test]
fn text_utilities() {
    assert!(str_eq("abc", "abc"));
    assert!(!str_eq("abc", "abd"));
    assert!(!str_eq("abc", "ab"));
    assert!(str_contains("hello world", "lo wo"));
    assert!(str_contains("hello", ""));
    assert!(!str_contains("hello", "world"));
    assert_eq!(rfind_sub("a] [b] [c", "] ["), Some(5));
    assert_eq!(rfind_sub("abc", "] ["), None);
    assert_eq!(find_char("abcb", 'b'), Some(1));
    assert_eq!(find_char("abc", 'z'), None);
    assert_eq!(trim_chars("  hi \t\r\n"), "hi");
    assert_eq!(trim_chars(""), "");
    assert_eq!(trim_chars(" \n "), "");
}

#[test]
fn digit_parsing() {
    assert_eq!(parse_u64_digits("0"), Some(0));
    assert_eq!(parse_u64_digits("18446744073709551615"), Some(u64::MAX));
    assert_eq!(parse_u64_digits("18446744073709551616"), None);
    assert_eq!(parse_u64_digits(""), None);
    assert_eq!(parse_u64_digits("12a"), None);
    assert_eq!(parse_u32_digits("4294967295"), Some(u32::MAX));
    assert_eq!(parse_u32_digits("4294967296"), None);
}

fn sample_transcript() -> Transcript {
    Transcript {
        id: "id".to_string(),
        clip_id: "clip".to_string(),
        language: "en".to_string(),
        segments: vec![
            TranscriptSegment {
                id: "s1".to_string(),
                text: "Hello".to_string(),
                start_ms: 0,
                end_ms: 2500,
                confidence: None,
            },
            TranscriptSegment {
                id: "s2".to_string(),
                text: "World".to_string(),
                start_ms: 125500,
                end_ms: 126000,
                confidence: None,
            },
        ],
        words: Vec::new(),
        full_text: "Hello World".to_string(),
        duration_ms: 126000,
        created_at: "now".to_string(),
    }
}

#[test]
fn plain_text_export_is_the_full_text() {
    assert_eq!(render_txt(&sample_transcript()), "Hello World");
}

#[test]
fn numbered_cue_export() {
    assert_eq!(
        render_srt(&sample_transcript()),
        "1\n00:00:00,000 --> 00:00:02,500\nHello\n\n\
         2\n00:02:05,500 --> 00:02:06,000\nWorld\n\n"
    );
}

#[test]
fn web_cue_export() {
    assert_eq!(
        render_vtt(&sample_transcript()),
        "WEBVTT\n\n\
         00:00:00.000 --> 00:00:02.500\nHello\n\n\
         00:02:05.500 --> 00:02:06.000\nWorld\n\n"
    );
}

#[test]
fn empty_transcript_renders_empty_bodies() {
    let mut t = sample_transcript();
    t.segments = Vec::new();
    assert_eq!(render_srt(&t), "");
    assert_eq!(render_vtt(&t), "WEBVTT\n\n");
}

#[test]
fn whisper_mapping_trims_and_tags() {
    let whisper = WhisperResponse {
        language: "en".to_string(),
        duration_ms: 4200,
        text: "hello world".to_string(),
        segments: vec![
            WhisperSegment { text: "  hello ".to_string(), start_ms: 0, end_ms: 2000 },
            WhisperSegment { text: "world".to_string(), start_ms: 2000, end_ms: 4000 },
        ],
        words: Some(vec![WhisperWord {
            word: "hello".to_string(),
            start_ms: 0,
            end_ms: 1000,
        }]),
    };
    let t = whisper_to_transcript(whisper, "clip1".to_string());
    assert_eq!(t.clip_id, "clip1");
    assert_eq!(t.language, "en");
    assert_eq!(t.full_text, "hello world");
    assert_eq!(t.duration_ms, 4200);
    assert_eq!(t.id.len(), 36);
    assert_eq!(t.segments.len(), 2);
    assert_eq!(t.segments[0].text, "hello");
    assert_eq!(t.segments[0].start_ms, 0);
    assert_eq!(t.segments[0].end_ms, 2000);
    assert_eq!(t.segments[0].confidence, None);
    assert_eq!(t.segments[0].id.len(), 36);
    assert_eq!(t.segments[1].text, "world");
    assert_eq!(t.words.len(), 1);
    assert_eq!(t.words[0].word, "hello");
    assert_eq!(t.words[0].confidence, None);
}

#[test]
fn whisper_mapping_without_words() {
    let whisper = WhisperResponse {
        language: "de".to_string(),
        duration_ms: 0,
        text: String::new(),
        segments: Vec::new(),
        words: None,
    };
    let t = whisper_to_transcript(whisper, "c".to_string());
    assert_eq!(t.segments.len(), 0);
    assert_eq!(t.words.len(), 0);
}

#[test]
fn export_format_names() {
    assert_eq!(parse_transcript_format("txt"), Some(TranscriptFormat::Txt));
    assert_eq!(parse_transcript_format("srt"), Some(TranscriptFormat::Srt));
    assert_eq!(parse_transcript_format("vtt"), Some(TranscriptFormat::Vtt));
    assert_eq!(parse_transcript_format("json"), Some(TranscriptFormat::Json));
    assert_eq!(parse_transcript_format("pdf"), None);
    assert_eq!(parse_transcript_format(""), None);
}

#[test]
fn export_rendering_by_format() {
    let t = sample_transcript();
    assert_eq!(
        render_export(&t, TranscriptFormat::Txt),
        Some("Hello World".to_string())
    );
    assert_eq!(
        render_export(&t, TranscriptFormat::Srt),
        Some(render_srt(&t))
    );
    assert_eq!(
        render_export(&t, TranscriptFormat::Vtt),
        Some(render_vtt(&t))
    );
    assert_eq!(render_export(&t, TranscriptFormat::Json), None);
}

#[test]
fn pipeline_stages_advance_in_order() {
    assert_eq!(
        next_stage(TranscriptionStage::Extracting),
        TranscriptionStage::Transcribing
    );
    assert_eq!(
        next_stage(TranscriptionStage::Transcribing),
        TranscriptionStage::Processing
    );
    assert_eq!(
        next_stage(TranscriptionStage::Processing),
        TranscriptionStage::Complete
    );
    assert_eq!(
        next_stage(TranscriptionStage::Complete),
        TranscriptionStage::Complete
    );
}

#[test]
fn progress_notifications_carry_the_stage() {
    let p = progress_for("c1".to_string(), TranscriptionStage::Extracting);
    assert_eq!(p.clip_id, "c1");
    assert_eq!(p.stage, "extracting");
    assert_eq!(p.percent, 0);
    assert_eq!(p.message, "Extracting audio from video...");
    let p = progress_for("c1".to_string(), TranscriptionStage::Transcribing);
    assert_eq!(p.stage, "transcribing");
    assert_eq!(p.percent, 30);
    assert_eq!(p.message, "Sending to OpenAI for transcription...");
    let p = progress_for("c1".to_string(), TranscriptionStage::Processing);
    assert_eq!(p.stage, "processing");
    assert_eq!(p.percent, 90);
    let p = progress_for("c1".to_string(), TranscriptionStage::Complete);
    assert_eq!(p.stage, "complete");
    assert_eq!(p.percent, 100);
    assert_eq!(p.message, "Transcription complete!");
}

#[test]
fn upload_form_fields_in_order() {
    let c = TranscriptionConfig {
        language: Some("en".to_string()),
        model: "whisper-1".to_string(),
        response_format: "verbose_json".to_string(),
        temperature_milli: 200,
    };
    let f = form_fields(&c);
    assert_eq!(
        f,
        vec![
            ("model".to_string(), "whisper-1".to_string()),
            ("response_format".to_string(), "verbose_json".to_string()),
            ("temperature".to_string(), "0.2".to_string()),
            ("language".to_string(), "en".to_string()),
        ]
    );
    let c = TranscriptionConfig {
        language: None,
        model: "whisper-1".to_string(),
        response_format: "verbose_json".to_string(),
        temperature_milli: 0,
    };
    let f = form_fields(&c);
    assert_eq!(f.len(), 3);
    assert_eq!(f[2], ("temperature".to_string(), "0".to_string()));
}
