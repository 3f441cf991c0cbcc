use clipforge::compositor::{
    build_filter_complex, build_plan, export_video_args, parse_resolution, render_filter_complex,
    scale_of, ClipInfo, ExportError, Resolution, Segment,
};

fn clip(path: &str, start_ms: u64, duration_ms: u64, trim_start_ms: u64) -> ClipInfo {
    ClipInfo {
        file_path: path.to_string(),
        start_ms,
        duration_ms,
        trim_start_ms,
        trim_end_ms: trim_start_ms + duration_ms,
    }
}

#[test]
fn resolution_profiles() {
    assert_eq!(parse_resolution("720p"), Some(Resolution::Hd720));
    assert_eq!(parse_resolution("1080p"), Some(Resolution::Hd1080));
    assert_eq!(parse_resolution("source"), Some(Resolution::Source));
    assert_eq!(parse_resolution("480p"), None);
    assert_eq!(parse_resolution(""), None);
    assert_eq!(scale_of(Resolution::Hd720), "1280:720");
    assert_eq!(scale_of(Resolution::Hd1080), "1920:1080");
    assert_eq!(scale_of(Resolution::Source), "-1:-1");
}

#[test]
fn empty_clip_list_is_a_configuration_error() {
    let clips: Vec<ClipInfo> = Vec::new();
    assert_eq!(build_plan(&clips, 5000), Err(ExportError::EmptyTimeline));
    assert_eq!(
        build_filter_complex(&clips, "720p", 30, 5000),
        Err(ExportError::EmptyTimeline)
    );
    assert_eq!(
        export_video_args(&clips, "out.mp4", "720p", 30, 5000),
        Err(ExportError::EmptyTimeline)
    );
}

#[test]
fn unknown_resolution_fails_before_any_filter_text() {
    let clips = vec![clip("a.mp4", 0, 3000, 0)];
    assert_eq!(
        build_filter_complex(&clips, "4k", 30, 3000),
        Err(ExportError::InvalidResolution)
    );
    assert_eq!(
        export_video_args(&clips, "out.mp4", "4k", 30, 3000),
        Err(ExportError::InvalidResolution)
    );
}

#[test]
fn overlapping_clips_are_rejected() {
    let clips = vec![clip("a.mp4", 0, 3000, 0), clip("b.mp4", 2000, 1000, 0)];
    assert_eq!(build_plan(&clips, 5000), Err(ExportError::OverlappingClips));
    assert_eq!(
        build_filter_complex(&clips, "720p", 30, 5000),
        Err(ExportError::OverlappingClips)
    );
}

#[test]
fn plan_emits_gaps_clips_and_trailing_gap() {
    let clips = vec![clip("a.mp4", 2000, 3000, 1000)];
    let plan = build_plan(&clips, 10000).unwrap();
    assert_eq!(
        plan,
        vec![
            Segment::Gap { index: 0, duration_ms: 2000 },
            Segment::Clip { index: 0, trim_start_ms: 1000, duration_ms: 3000 },
            Segment::Gap { index: 1, duration_ms: 5000 },
        ]
    );
}

#[test]
fn segment_count_is_clips_plus_positive_gaps() {
    // Two clips, one inner gap, one trailing gap: four segments.
    let clips = vec![clip("a.mp4", 0, 2000, 0), clip("b.mp4", 3000, 2000, 500)];
    let plan = build_plan(&clips, 6000).unwrap();
    assert_eq!(plan.len(), 4);
    let n_gaps = plan
        .iter()
        .filter(|s| matches!(s, Segment::Gap { .. }))
        .count();
    assert_eq!(n_gaps, 2);
    // Adjacent clips, exact composition length: no gaps at all.
    let clips = vec![clip("a.mp4", 0, 2000, 0), clip("b.mp4", 2000, 2000, 0)];
    let plan = build_plan(&clips, 4000).unwrap();
    assert_eq!(plan.len(), 2);
    assert!(plan.iter().all(|s| matches!(s, Segment::Clip { .. })));
}

#[test]
fn exact_composition_length_emits_no_trailing_gap() {
    let clips = vec![clip("a.mp4", 1000, 3000, 0)];
    let plan = build_plan(&clips, 4000).unwrap();
    assert_eq!(
        plan,
        vec![
            Segment::Gap { index: 0, duration_ms: 1000 },
            Segment::Clip { index: 0, trim_start_ms: 0, duration_ms: 3000 },
        ]
    );
    // One millisecond more and the trailing gap appears.
    let plan = build_plan(&clips, 4001).unwrap();
    assert_eq!(plan.len(), 3);
    assert_eq!(plan[2], Segment::Gap { index: 1, duration_ms: 1 });
}

#[test]
fn filter_text_for_one_clip_with_gaps() {
    let clips = vec![clip("a.mp4", 2000, 3000, 1000)];
    let text = build_filter_complex(&clips, "720p", 30, 10000).unwrap();
    assert_eq!(
        text,
        "color=c=black:s=1920x1080:d=2.000:r=30,scale=1280:720[gap0];\
         [0:v]trim=start=1.000:duration=3.000,setpts=PTS-STARTPTS,scale=1280:720[clip0];\
         color=c=black:s=1920x1080:d=5.000:r=30,scale=1280:720[gap1];\
         [gap0][clip0][gap1]concat=n=3:v=1:a=0[outv]"
    );
}

#[test]
fn filter_text_lists_labels_in_emission_order() {
    let clips = vec![clip("a.mp4", 0, 2000, 0), clip("b.mp4", 3000, 1000, 250)];
    let text = build_filter_complex(&clips, "source", 24, 4000).unwrap();
    assert_eq!(
        text,
        "[0:v]trim=start=0.000:duration=2.000,setpts=PTS-STARTPTS,scale=-1:-1[clip0];\
         color=c=black:s=1920x1080:d=1.000:r=24,scale=-1:-1[gap1];\
         [1:v]trim=start=0.250:duration=1.000,setpts=PTS-STARTPTS,scale=-1:-1[clip1];\
         [clip0][gap1][clip1]concat=n=3:v=1:a=0[outv]"
    );
}

#[test]
fn render_matches_plan() {
    let clips = vec![clip("a.mp4", 0, 1500, 0)];
    let plan = build_plan(&clips, 1500).unwrap();
    let text = render_filter_complex(&plan, 60, "1920:1080");
    assert_eq!(
        text,
        "[0:v]trim=start=0.000:duration=1.500,setpts=PTS-STARTPTS,scale=1920:1080[clip0];\
         [clip0]concat=n=1:v=1:a=0[outv]"
    );
}

#[test]
fn export_args_hold_inputs_filter_and_policy() {
    let clips = vec![clip("a.mp4", 0, 2000, 0), clip("b.mp4", 2000, 1000, 0)];
    let args = export_video_args(&clips, "final.mp4", "1080p", 30, 3000).unwrap();
    let filter = build_filter_complex(&clips, "1080p", 30, 3000).unwrap();
    let expected: Vec<String> = vec![
        "-y", "-i", "a.mp4", "-i", "b.mp4", "-filter_complex", &filter, "-map", "[outv]", "-r",
        "30", "-c:v", "libx264", "-preset", "medium", "-crf", "23", "final.mp4",
    ]
    .into_iter()
    .map(|s| s.to_string())
    .collect();
    assert_eq!(args, expected);
}
