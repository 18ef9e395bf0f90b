//! Requests, the session lifecycle and the native boundary.

use wasi_runtime::capability::{CapabilityGrant, FilesystemAccess, ResourceLimits};
use wasi_runtime::command::{
    Actor, ApprovalReason, CommandError, CommandRequest, ExecutionMode, SessionEvent,
    SessionState, Stream,
};
use wasi_runtime::native::{NativeBackend, NativeError};
use wasi_runtime::path::HostPath;

fn words(list: &[&str]) -> Vec<String> {
    list.iter().map(|word| (*word).to_owned()).collect()
}

fn workspace(name: &str) -> HostPath {
    HostPath::new(&format!("/tmp/sandbox-{name}"))
}

#[test]
fn native_request_with_workspace_and_grant_is_valid() {
    let workspace = workspace("test-workspace");
    let grant = CapabilityGrant::workspace(workspace.clone(), FilesystemAccess::Read)
        .expect("workspace is absolute")
        .allow_native_execution();
    let request = CommandRequest::new(
        1,
        Actor::Human,
        ExecutionMode::Native,
        "cargo".to_owned(),
        words(&["test"]),
        workspace,
        grant,
    );
    assert!(request.is_ok());
}

#[test]
fn native_execution_requires_an_explicit_grant() {
    let error = CommandRequest::new(
        7,
        Actor::Agent,
        ExecutionMode::Native,
        "cargo".to_owned(),
        words(&["test"]),
        HostPath::new("/workspace/project"),
        CapabilityGrant::empty(),
    )
    .expect_err("native must be denied");

    assert!(error.message().contains("native execution"));
}

#[test]
fn output_budget_rejects_chunks_that_would_exceed_the_limit() {
    let limits = ResourceLimits::new(4, 30).expect("valid limits");
    let mut state = SessionState::new(7, limits);

    state.accept(SessionEvent::Started).expect("session starts");
    state
        .accept(SessionEvent::Output {
            stream: Stream::Stdout,
            bytes: b"abc".to_vec(),
        })
        .expect("first chunk fits");

    let error = state
        .accept(SessionEvent::Output {
            stream: Stream::Stderr,
            bytes: b"de".to_vec(),
        })
        .expect_err("second chunk exceeds the four-byte budget");
    assert!(error.message().contains("output limit"));
    assert_eq!(state.output_bytes(), 3);
    assert_eq!(state.id(), 7);
}

#[test]
fn native_backend_never_falls_back_to_ambient_execution() {
    let workspace = workspace("native-workspace");
    let grant = CapabilityGrant::workspace(workspace.clone(), FilesystemAccess::ReadWrite)
        .expect("workspace is absolute")
        .allow_native_execution();
    let request = CommandRequest::new(
        8,
        Actor::Agent,
        ExecutionMode::Native,
        "bash".to_owned(),
        words(&["-lc", "echo unsafe"]),
        workspace,
        grant,
    )
    .expect("explicit native request is valid");

    assert_eq!(
        NativeBackend::new().start(&request),
        Err(NativeError::UnsupportedOnHost)
    );
}

#[test]
fn native_backend_refuses_other_modes_and_missing_grants() {
    let workspace = workspace("native-refusals");
    let grant = CapabilityGrant::workspace(workspace.clone(), FilesystemAccess::Read)
        .expect("workspace is absolute");
    let mut request = CommandRequest::new(
        8,
        Actor::Skill,
        ExecutionMode::Wasi,
        "tool".to_owned(),
        vec![],
        workspace,
        grant,
    )
    .expect("valid request");
    assert_eq!(NativeBackend::default().start(&request), Err(NativeError::WrongMode));
    request.mode = ExecutionMode::Native;
    assert_eq!(NativeBackend::new().start(&request), Err(NativeError::NativeNotGranted));
    assert_eq!(
        NativeError::WrongMode.message(),
        "native backend received a non-native request"
    );
    assert_eq!(NativeError::NativeNotGranted.message(), "native execution was not granted");
    assert_eq!(
        NativeError::UnsupportedOnHost.message(),
        "native execution is unsupported on this host"
    );
}

#[test]
fn terminal_cannot_emit_output_before_start_or_after_exit() {
    let limits = ResourceLimits::new(1024, 30).expect("valid limits");
    let mut state = SessionState::new(7, limits);

    assert!(
        state
            .accept(SessionEvent::Output {
                stream: Stream::Stdout,
                bytes: b"early".to_vec(),
            })
            .is_err()
    );

    state.accept(SessionEvent::Started).expect("session starts");
    state
        .accept(SessionEvent::Exited { code: Some(0) })
        .expect("session exits");
    assert!(state.accept(SessionEvent::Started).is_err());
    assert!(
        state
            .accept(SessionEvent::Output {
                stream: Stream::Stdout,
                bytes: b"late".to_vec(),
            })
            .is_err()
    );
    assert_eq!(state.output_bytes(), 0);
}

#[test]
fn requests_report_their_first_fault() {
    let home = workspace("faults");
    let make = |mode: ExecutionMode, program: &str, args: &[&str], cwd: &HostPath| {
        CommandRequest::new(
            1,
            Actor::Subagent,
            mode,
            program.to_owned(),
            words(args),
            cwd.clone(),
            CapabilityGrant::workspace(workspace("faults"), FilesystemAccess::Read)
                .expect("workspace is absolute"),
        )
    };
    let outside = HostPath::new("/elsewhere");
    assert_eq!(make(ExecutionMode::Native, "", &["\0"], &outside), Err(CommandError::InvalidProgram));
    assert_eq!(make(ExecutionMode::Wasi, "a\0b", &[], &home), Err(CommandError::InvalidProgram));
    assert_eq!(
        make(ExecutionMode::Native, "tool", &["ok", "n\0t"], &outside),
        Err(CommandError::InvalidArgument)
    );
    assert_eq!(
        make(ExecutionMode::Native, "tool", &[], &outside),
        Err(CommandError::NativeNotGranted)
    );
    assert_eq!(
        make(ExecutionMode::Wasi, "tool", &[], &outside),
        Err(CommandError::WorkingDirectoryDenied(outside.clone()))
    );
    let request = make(ExecutionMode::Wasi, "tool", &["a b", "", "--x=y"], &home).expect("valid");
    assert_eq!(request.args, words(&["a b", "", "--x=y"]));
    assert_eq!(request.clone(), request);
}

#[test]
fn command_errors_say_what_is_wrong() {
    assert_eq!(CommandError::InvalidProgram.message(), "invalid program");
    assert_eq!(CommandError::InvalidArgument.message(), "invalid command argument");
    assert_eq!(
        CommandError::WorkingDirectoryDenied(HostPath::new("/a/b")).message(),
        "working directory denied: /a/b"
    );
    assert_eq!(
        CommandError::InvalidTransition("session is finished").clone().message(),
        "invalid terminal lifecycle transition: session is finished"
    );
}

#[test]
fn every_lifecycle_transition_is_decided() {
    let pending = || SessionEvent::PendingApproval { reason: ApprovalReason::NetworkAccess };
    let output = || SessionEvent::Output { stream: Stream::Stdout, bytes: vec![1] };
    let all = || {
        vec![
            SessionEvent::Started,
            pending(),
            output(),
            SessionEvent::Exited { code: None },
            SessionEvent::Cancelled,
            SessionEvent::Denied,
            SessionEvent::Unsupported,
        ]
    };
    let limits = ResourceLimits::new(8, 1).expect("limits");
    // Per prefix: the verdict on each event, `None` for accepted.
    let not_started = Some("session has not started");
    let waiting = Some("session is awaiting approval");
    let finished = Some("session is finished");
    let table: Vec<(Vec<SessionEvent>, Vec<Option<&'static str>>)> = vec![
        (vec![], vec![None, None, not_started, not_started, not_started, None, None]),
        (vec![pending()], vec![None, waiting, waiting, waiting, waiting, None, None]),
        (
            vec![SessionEvent::Started],
            vec![
                Some("session already started"),
                Some("running session cannot await approval"),
                None,
                None,
                None,
                Some("running session cannot be denied"),
                Some("running session cannot be denied"),
            ],
        ),
        (vec![SessionEvent::Denied], vec![finished; 7]),
        (vec![SessionEvent::Started, SessionEvent::Cancelled], vec![finished; 7]),
        (vec![pending(), SessionEvent::Unsupported], vec![finished; 7]),
    ];
    for (prefix, verdicts) in table {
        for (event, verdict) in all().into_iter().zip(verdicts) {
            let mut state = SessionState::new(1, limits);
            for earlier in prefix.clone() {
                state.accept(earlier).expect("prefix is accepted");
            }
            let before = state;
            match (state.accept(event), verdict) {
                (Ok(()), None) => {}
                (Err(CommandError::InvalidTransition(reason)), Some(expected)) => {
                    assert_eq!(reason, expected);
                    assert_eq!(state, before);
                }
                (other, _) => panic!("unexpected verdict {other:?}"),
            }
        }
    }
}

#[test]
fn accepted_output_never_exceeds_the_budget() {
    let mut state = SessionState::new(1, ResourceLimits::new(10, 1).expect("limits"));
    state.accept(SessionEvent::Started).expect("starts");
    let mut accepted = 0;
    for size in [4, 7, 3, 0, 4, 3, 1] {
        let event = SessionEvent::Output { stream: Stream::Stderr, bytes: vec![0; size] };
        match state.accept(event) {
            Ok(()) => accepted += size,
            Err(error) => assert_eq!(error, CommandError::OutputLimit),
        }
        assert_eq!(state.output_bytes(), accepted);
        assert!(accepted <= 10);
    }
    assert_eq!(accepted, 10);
}
