//! The capture-session state machine: idle to recording and back, with at
//! most one active recording. The decisions of the stop protocol — how the
//! process's error text is classified and when the produced file counts as
//! a valid recording — are pure functions here; spawning, signalling and
//! reaping the engine process stay with the caller.
//!
//! Timestamps are milliseconds on a monotonic clock supplied by the caller.

use vstd::prelude::*;
use vstd::string::StrSliceExecFns;
use vstd::string::StringExecFns;
use crate::textutil::{spec_contains, str_contains};

verus! {

/// Which capture path produced a session.
#[derive(Clone, Copy, Debug, PartialEq, Eq, Structural)]
pub enum RecordingType {
    Screen,
    Webcam { camera_index: u32 },
}

/// A precondition violation of the state machine.
#[derive(Clone, Copy, Debug, PartialEq, Eq, Structural)]
pub enum RecordingError {
    /// `start` was called while a recording is active.
    AlreadyRecording,
    /// `stop` was called while idle.
    NotRecording,
}

/// The capture-session state. `start_time` and `output_path` are set on a
/// successful start; `start_time` is cleared by the completed stop,
/// `output_path` and `recording_type` keep their last values.
#[derive(Clone, Debug)]
pub struct RecordingState {
    pub is_recording: bool,
    pub start_time: Option<u64>,
    pub output_path: Option<String>,
    pub recording_type: RecordingType,
}

/// A read-only snapshot of the session.
#[derive(Clone, Debug)]
pub struct RecordingStatus {
    pub active: bool,
    pub elapsed_ms: u64,
    pub output_path: Option<String>,
    pub recording_type: RecordingType,
}

/// What the caller observed of the engine process while stopping.
#[derive(Clone, Debug)]
pub enum ProcessEvent {
    /// The process had already exited on its own; `success` is its exit
    /// status, `stderr` its drained error stream.
    AlreadyExited { success: bool, stderr: String },
    /// The process was still running: it was sent the quit signal, given
    /// the grace period, force-terminated if needed, and reaped; `stderr`
    /// is its drained error stream.
    SignaledAndReaped { stderr: String },
    /// No process handle was found for the active session.
    NoProcess,
}

/// What the caller observed of the declared output file after the stop.
#[derive(Clone, Copy, Debug, PartialEq, Eq, Structural)]
pub enum FileCheck {
    Missing,
    Present { size: u64 },
}

/// The state of a session that was never started.
pub open spec fn spec_initial_state() -> RecordingState {
    RecordingState {
        is_recording: false,
        start_time: None,
        output_path: None,
        recording_type: RecordingType::Screen,
    }
}

impl RecordingState {
    /// The session invariant: a start time exists exactly while recording,
    /// and an active session always knows its output path.
    pub open spec fn wf(self) -> bool {
        &&& self.is_recording <==> self.start_time is Some
        &&& self.is_recording ==> self.output_path is Some
    }
}

impl Default for RecordingState {
    /// A fresh idle session.
    fn default() -> (s: Self)
        ensures
            s == spec_initial_state(),
    {
        RecordingState {
            is_recording: false,
            start_time: None,
            output_path: None,
            recording_type: RecordingType::Screen,
        }
    }
}

/// The session state as first created: idle, with nothing recorded yet.
pub fn get_state() -> (s: RecordingState)
    ensures
        s == spec_initial_state(),
        s.wf(),
{
    RecordingState::default()
}

/// The start transition: rejected without any change while a recording is
/// active, otherwise the session becomes active with the given kind, path
/// and start instant.
pub open spec fn spec_start(
    s: RecordingState,
    recording_type: RecordingType,
    output_path: String,
    now_ms: u64,
) -> (Result<(), RecordingError>, RecordingState) {
    if s.is_recording {
        (Err(RecordingError::AlreadyRecording), s)
    } else {
        (
            Ok(()),
            RecordingState {
                is_recording: true,
                start_time: Some(now_ms),
                output_path: Some(output_path),
                recording_type,
            },
        )
    }
}

/// The stop precondition: while idle the call is rejected; while recording
/// it yields the session's output path (the state is not touched until the
/// process has been dealt with, see [`RecordingState::complete_stop`]).
pub open spec fn spec_stop_request(s: RecordingState) -> Result<String, RecordingError> {
    if !s.is_recording {
        Err(RecordingError::NotRecording)
    } else {
        Ok(s.output_path->Some_0)
    }
}

/// A completed stop clears the session back to idle unconditionally; the
/// last output path and kind remain readable.
pub open spec fn spec_clear(s: RecordingState) -> RecordingState {
    RecordingState { is_recording: false, start_time: None, ..s }
}

/// The user-facing diagnostic derived from what the process left behind:
/// an already-failed process surfaces its error text; a stopped process's
/// error text is classified by known phrases, the permission and
/// missing-device categories first, any other non-empty text passed
/// through raw; a vanished process handle is itself the diagnostic.
pub open spec fn spec_diagnostic(ev: ProcessEvent) -> Option<Seq<char>> {
    match ev {
        ProcessEvent::AlreadyExited { success, stderr } => {
            if !success && stderr@.len() > 0 {
                Some("FFmpeg process exited with error: "@ + stderr@)
            } else {
                None
            }
        },
        ProcessEvent::SignaledAndReaped { stderr } => {
            if spec_contains(stderr@, "Permission denied"@) || spec_contains(
                stderr@,
                "No permission"@,
            ) {
                Some("Camera permission denied. Please grant camera access in System Settings."@)
            } else if spec_contains(stderr@, "Device not found"@) || spec_contains(
                stderr@,
                "No such device"@,
            ) {
                Some("Camera not found or not accessible."@)
            } else if stderr@.len() > 0 {
                Some(stderr@)
            } else {
                None
            }
        },
        ProcessEvent::NoProcess => Some("Recording process not found"@),
    }
}

/// The stop outcome: a missing output file is a hard failure, an empty one
/// too, each reported with the diagnostic when one exists, else with its
/// fallback message; a non-empty file is a success even beside a
/// diagnostic, which is then only a warning. `None` means success.
pub open spec fn spec_stop_error_text(
    output_path: Seq<char>,
    diagnostic: Option<Seq<char>>,
    file: FileCheck,
) -> Option<Seq<char>> {
    match file {
        FileCheck::Missing => match diagnostic {
            Some(d) => Some(d),
            None => Some("Recording file not found at: "@ + output_path),
        },
        FileCheck::Present { size } => {
            if size == 0 {
                match diagnostic {
                    Some(d) => Some(d),
                    None => Some(
                        "Recording produced an empty file. Camera may not have been accessed."@,
                    ),
                }
            } else {
                None
            }
        },
    }
}

/// The snapshot [`RecordingState::status`] returns: elapsed time is the
/// wall-clock distance from the start instant while active, else zero.
pub open spec fn spec_status(s: RecordingState, now_ms: u64) -> RecordingStatus {
    RecordingStatus {
        active: s.is_recording,
        elapsed_ms: match s.start_time {
            Some(t) => if t <= now_ms {
                (now_ms - t) as u64
            } else {
                0
            },
            None => 0,
        },
        output_path: s.output_path,
        recording_type: s.recording_type,
    }
}

impl RecordingState {
    /// Starts a recording: rejected with `AlreadyRecording` and no state
    /// change while one is active, otherwise the session becomes active
    /// with the given kind, output path and start instant.
    pub fn start(
        &mut self,
        recording_type: RecordingType,
        output_path: String,
        now_ms: u64,
    ) -> (r: Result<(), RecordingError>)
        requires
            old(self).wf(),
        ensures
            r == spec_start(*old(self), recording_type, output_path, now_ms).0,
            *final(self) == spec_start(*old(self), recording_type, output_path, now_ms).1,
            final(self).wf(),
    {
        if self.is_recording {
            return Err(RecordingError::AlreadyRecording);
        }
        self.is_recording = true;
        self.start_time = Some(now_ms);
        self.output_path = Some(output_path);
        self.recording_type = recording_type;
        Ok(())
    }

    /// Checks the stop precondition: `NotRecording` while idle (nothing
    /// changes; this takes the state immutably), else the session's output
    /// path for the caller to validate once the process is dealt with.
    pub fn stop_request(&self) -> (r: Result<String, RecordingError>)
        requires
            self.wf(),
        ensures
            r == spec_stop_request(*self),
    {
        if !self.is_recording {
            return Err(RecordingError::NotRecording);
        }
        match &self.output_path {
            Some(p) => Ok(p.clone()),
            None => {
                proof {
                    assert(false);
                }
                Err(RecordingError::NotRecording)
            },
        }
    }

    /// Completes a stop: clears the session back to idle unconditionally,
    /// then judges the recording from what the caller observed of the
    /// process and of the declared output file. Returns the output path on
    /// success, the diagnostic or its fallback message on failure.
    pub fn complete_stop(&mut self, output_path: String, event: ProcessEvent, file: FileCheck) -> (r:
        Result<String, String>)
        ensures
            *final(self) == spec_clear(*old(self)),
            final(self).wf(),
            match r {
                Ok(p) => p@ == output_path@ && spec_stop_error_text(
                    output_path@,
                    spec_diagnostic(event),
                    file,
                ) is None,
                Err(m) => spec_stop_error_text(output_path@, spec_diagnostic(event), file) == Some(
                    m@,
                ),
            },
    {
        self.is_recording = false;
        self.start_time = None;
        let diagnostic = stop_diagnostic(&event);
        stop_outcome(output_path, diagnostic, file)
    }

    /// A read-only snapshot: never blocks, never fails. Elapsed time is
    /// `now_ms` minus the start instant while active, else zero.
    pub fn status(&self, now_ms: u64) -> (st: RecordingStatus)
        ensures
            st == spec_status(*self, now_ms),
    {
        let elapsed_ms: u64 = match &self.start_time {
            Some(t) => if *t <= now_ms {
                now_ms - *t
            } else {
                0
            },
            None => 0,
        };
        RecordingStatus {
            active: self.is_recording,
            elapsed_ms,
            output_path: self.output_path.clone(),
            recording_type: self.recording_type,
        }
    }
}

/// Classifies what the process left behind into a user-facing diagnostic;
/// see [`spec_diagnostic`].
pub fn stop_diagnostic(event: &ProcessEvent) -> (r: Option<String>)
    ensures
        match r {
            Some(m) => spec_diagnostic(*event) == Some(m@),
            None => spec_diagnostic(*event) is None,
        },
{
    match event {
        ProcessEvent::AlreadyExited { success, stderr } => {
            if !*success && stderr.as_str().unicode_len() > 0 {
                let mut m = String::from_str("FFmpeg process exited with error: ");
                m.append(stderr.as_str());
                Some(m)
            } else {
                None
            }
        },
        ProcessEvent::SignaledAndReaped { stderr } => {
            let s = stderr.as_str();
            if str_contains(s, "Permission denied") || str_contains(s, "No permission") {
                Some(
                    String::from_str(
                        "Camera permission denied. Please grant camera access in System Settings.",
                    ),
                )
            } else if str_contains(s, "Device not found") || str_contains(s, "No such device") {
                Some(String::from_str("Camera not found or not accessible."))
            } else if s.unicode_len() > 0 {
                Some(stderr.clone())
            } else {
                None
            }
        },
        ProcessEvent::NoProcess => Some(String::from_str("Recording process not found")),
    }
}

/// Judges the output file; see [`spec_stop_error_text`].
pub fn stop_outcome(output_path: String, diagnostic: Option<String>, file: FileCheck) -> (r: Result<
    String,
    String,
>)
    ensures
        match r {
            Ok(p) => p@ == output_path@ && spec_stop_error_text(
                output_path@,
                match diagnostic {
                    Some(d) => Some(d@),
                    None => None,
                },
                file,
            ) is None,
            Err(m) => spec_stop_error_text(
                output_path@,
                match diagnostic {
                    Some(d) => Some(d@),
                    None => None,
                },
                file,
            ) == Some(m@),
        },
{
    match file {
        FileCheck::Missing => match diagnostic {
            Some(d) => Err(d),
            None => {
                let mut m = String::from_str("Recording file not found at: ");
                m.append(output_path.as_str());
                Err(m)
            },
        },
        FileCheck::Present { size } => {
            if size == 0 {
                match diagnostic {
                    Some(d) => Err(d),
                    None => Err(
                        String::from_str(
                            "Recording produced an empty file. Camera may not have been accessed.",
                        ),
                    ),
                }
            } else {
                Ok(output_path)
            }
        },
    }
}

/// The grace period granted after the quit signal before force
/// termination is considered: camera encoders flush more slowly than the
/// screen encoder.
pub open spec fn spec_grace_ms(rt: RecordingType) -> nat {
    match rt {
        RecordingType::Screen => 500,
        RecordingType::Webcam { .. } => 1000,
    }
}

/// The grace period for a session kind; see [`spec_grace_ms`].
pub fn grace_period_ms(rt: RecordingType) -> (g: u64)
    ensures
        g == spec_grace_ms(rt),
{
    match rt {
        RecordingType::Screen => 500,
        RecordingType::Webcam { .. } => 1000,
    }
}

/// The startup-failure message when a freshly spawned capture process has
/// already exited at the liveness probe: its error text when it produced
/// any, else a report of the raw exit status.
pub open spec fn spec_startup_failure(stderr: Seq<char>, status_text: Seq<char>) -> Seq<char> {
    if stderr.len() > 0 {
        "FFmpeg exited immediately: "@ + stderr
    } else {
        "FFmpeg exited immediately with status: "@ + status_text
    }
}

/// Renders the startup-failure message; see [`spec_startup_failure`].
pub fn startup_failure_message(stderr: &str, status_text: &str) -> (m: String)
    ensures
        m@ == spec_startup_failure(stderr@, status_text@),
{
    if stderr.unicode_len() > 0 {
        let mut m = String::from_str("FFmpeg exited immediately: ");
        m.append(stderr);
        m
    } else {
        let mut m = String::from_str("FFmpeg exited immediately with status: ");
        m.append(status_text);
        m
    }
}

/// Law: a second `start` before any `stop` is rejected with
/// `AlreadyRecording`, and the session's output path and kind remain those
/// of the first call.
pub proof fn lemma_start_twice(
    s: RecordingState,
    rt1: RecordingType,
    p1: String,
    n1: u64,
    rt2: RecordingType,
    p2: String,
    n2: u64,
)
    requires
        !s.is_recording,
    ensures
        spec_start(s, rt1, p1, n1).0 == Ok::<(), RecordingError>(()),
        spec_start(spec_start(s, rt1, p1, n1).1, rt2, p2, n2).0 == Err::<(), RecordingError>(
            RecordingError::AlreadyRecording,
        ),
        spec_start(spec_start(s, rt1, p1, n1).1, rt2, p2, n2).1 == spec_start(s, rt1, p1, n1).1,
        spec_start(s, rt1, p1, n1).1.output_path == Some(p1),
        spec_start(s, rt1, p1, n1).1.recording_type == rt1,
{
}

/// Law: a stop request while idle is rejected with `NotRecording`; the
/// request reads the state and changes nothing.
pub proof fn lemma_stop_while_idle(s: RecordingState)
    requires
        !s.is_recording,
    ensures
        spec_stop_request(s) == Err::<String, RecordingError>(RecordingError::NotRecording),
{
}

/// Law: after a full start-stop cycle the status reports an inactive
/// session with zero elapsed time, whenever it is read.
pub proof fn lemma_status_after_cycle(
    s: RecordingState,
    rt: RecordingType,
    path: String,
    started_ms: u64,
    status_ms: u64,
)
    requires
        !s.is_recording,
    ensures
        spec_status(spec_clear(spec_start(s, rt, path, started_ms).1), status_ms).active == false,
        spec_status(spec_clear(spec_start(s, rt, path, started_ms).1), status_ms).elapsed_ms == 0,
{
}

} // verus!
