use clipforge::recording::{
    get_state, grace_period_ms, startup_failure_message, stop_diagnostic, stop_outcome, FileCheck,
    ProcessEvent, RecordingError, RecordingType,
};

#[test]
fn fresh_state_is_idle() {
    let s = get_state();
    assert!(!s.is_recording);
    assert_eq!(s.start_time, None);
    assert_eq!(s.output_path, None);
    assert_eq!(s.recording_type, RecordingType::Screen);
}

#[test]
fn start_twice_rejects_second_and_keeps_first() {
    let mut s = get_state();
    assert_eq!(
        s.start(RecordingType::Screen, "first.mp4".to_string(), 1000),
        Ok(())
    );
    assert_eq!(
        s.start(
            RecordingType::Webcam { camera_index: 2 },
            "second.mp4".to_string(),
            2000
        ),
        Err(RecordingError::AlreadyRecording)
    );
    assert_eq!(s.output_path, Some("first.mp4".to_string()));
    assert_eq!(s.recording_type, RecordingType::Screen);
    assert_eq!(s.start_time, Some(1000));
}

#[test]
fn stop_while_idle_is_rejected_and_state_unchanged() {
    let s = get_state();
    assert_eq!(s.stop_request(), Err(RecordingError::NotRecording));
    assert!(!s.is_recording);
    assert_eq!(s.start_time, None);
    assert_eq!(s.output_path, None);
}

#[test]
fn full_cycle_reports_idle_and_zero_elapsed() {
    let mut s = get_state();
    s.start(RecordingType::Screen, "out.mp4".to_string(), 1000)
        .unwrap();
    let st = s.status(3500);
    assert!(st.active);
    assert_eq!(st.elapsed_ms, 2500);
    let path = s.stop_request().unwrap();
    assert_eq!(path, "out.mp4");
    let r = s.complete_stop(
        path,
        ProcessEvent::SignaledAndReaped { stderr: String::new() },
        FileCheck::Present { size: 4096 },
    );
    assert_eq!(r, Ok("out.mp4".to_string()));
    let st = s.status(9999);
    assert!(!st.active);
    assert_eq!(st.elapsed_ms, 0);
    assert_eq!(st.output_path, Some("out.mp4".to_string()));
}

#[test]
fn permission_denied_is_classified() {
    let d = stop_diagnostic(&ProcessEvent::SignaledAndReaped {
        stderr: "av: Permission denied while opening device".to_string(),
    });
    assert_eq!(
        d,
        Some("Camera permission denied. Please grant camera access in System Settings.".to_string())
    );
    let d = stop_diagnostic(&ProcessEvent::SignaledAndReaped {
        stderr: "No permission to capture".to_string(),
    });
    assert_eq!(
        d,
        Some("Camera permission denied. Please grant camera access in System Settings.".to_string())
    );
}

#[test]
fn missing_device_is_classified() {
    let d = stop_diagnostic(&ProcessEvent::SignaledAndReaped {
        stderr: "Device not found".to_string(),
    });
    assert_eq!(d, Some("Camera not found or not accessible.".to_string()));
    let d = stop_diagnostic(&ProcessEvent::SignaledAndReaped {
        stderr: "No such device: 7".to_string(),
    });
    assert_eq!(d, Some("Camera not found or not accessible.".to_string()));
}

#[test]
fn other_error_text_passes_through_raw() {
    let d = stop_diagnostic(&ProcessEvent::SignaledAndReaped {
        stderr: "something else went wrong".to_string(),
    });
    assert_eq!(d, Some("something else went wrong".to_string()));
    let d = stop_diagnostic(&ProcessEvent::SignaledAndReaped { stderr: String::new() });
    assert_eq!(d, None);
}

#[test]
fn early_exit_surfaces_its_error_text() {
    let d = stop_diagnostic(&ProcessEvent::AlreadyExited {
        success: false,
        stderr: "boom".to_string(),
    });
    assert_eq!(d, Some("FFmpeg process exited with error: boom".to_string()));
    let d = stop_diagnostic(&ProcessEvent::AlreadyExited {
        success: true,
        stderr: "boom".to_string(),
    });
    assert_eq!(d, None);
    let d = stop_diagnostic(&ProcessEvent::AlreadyExited {
        success: false,
        stderr: String::new(),
    });
    assert_eq!(d, None);
}

#[test]
fn vanished_process_is_its_own_diagnostic() {
    let d = stop_diagnostic(&ProcessEvent::NoProcess);
    assert_eq!(d, Some("Recording process not found".to_string()));
}

#[test]
fn missing_output_file_fails_the_stop() {
    let r = stop_outcome("out.mp4".to_string(), None, FileCheck::Missing);
    assert_eq!(r, Err("Recording file not found at: out.mp4".to_string()));
    let r = stop_outcome(
        "out.mp4".to_string(),
        Some("diag".to_string()),
        FileCheck::Missing,
    );
    assert_eq!(r, Err("diag".to_string()));
}

#[test]
fn empty_output_file_fails_the_stop() {
    let r = stop_outcome("out.mp4".to_string(), None, FileCheck::Present { size: 0 });
    assert_eq!(
        r,
        Err("Recording produced an empty file. Camera may not have been accessed.".to_string())
    );
    let r = stop_outcome(
        "out.mp4".to_string(),
        Some("diag".to_string()),
        FileCheck::Present { size: 0 },
    );
    assert_eq!(r, Err("diag".to_string()));
}

#[test]
fn nonempty_file_succeeds_even_beside_a_diagnostic() {
    let r = stop_outcome(
        "out.mp4".to_string(),
        Some("only a warning".to_string()),
        FileCheck::Present { size: 1 },
    );
    assert_eq!(r, Ok("out.mp4".to_string()));
}

#[test]
fn cycle_with_failure_still_clears_the_state() {
    let mut s = get_state();
    s.start(RecordingType::Webcam { camera_index: 0 }, "cam.mp4".to_string(), 50)
        .unwrap();
    let path = s.stop_request().unwrap();
    let r = s.complete_stop(
        path,
        ProcessEvent::NoProcess,
        FileCheck::Present { size: 0 },
    );
    assert_eq!(r, Err("Recording process not found".to_string()));
    assert!(!s.is_recording);
    assert_eq!(s.start_time, None);
    assert_eq!(s.stop_request(), Err(RecordingError::NotRecording));
}

#[test]
fn camera_shutdown_gets_the_longer_grace() {
    assert_eq!(grace_period_ms(RecordingType::Screen), 500);
    assert_eq!(grace_period_ms(RecordingType::Webcam { camera_index: 0 }), 1000);
}

#[test]
fn startup_failure_prefers_error_text() {
    assert_eq!(
        startup_failure_message("device busy", "ExitStatus(1)"),
        "FFmpeg exited immediately: device busy"
    );
    assert_eq!(
        startup_failure_message("", "ExitStatus(1)"),
        "FFmpeg exited immediately with status: ExitStatus(1)"
    );
}
