//! Risk, environment and network policy.

use std::cell::RefCell;

use wasi_runtime::capability::{CapabilityGrant, FilesystemAccess};
use wasi_runtime::command::{Actor, ApprovalReason, CommandRequest, ExecutionMode};
use wasi_runtime::path::HostPath;
use wasi_runtime::policy::{
    classify_risk, selected_environment, NetworkPolicy, Risk, SocketUse,
};

fn grant(access: FilesystemAccess) -> CapabilityGrant {
    CapabilityGrant::workspace(HostPath::new("/tmp/policy"), access).expect("absolute root")
}

fn request(mode: ExecutionMode, grant: CapabilityGrant) -> CommandRequest {
    CommandRequest {
        id: 1,
        actor: Actor::Agent,
        mode,
        program: "tool".to_owned(),
        args: vec![],
        cwd: HostPath::new("/tmp/policy"),
        grant,
    }
}

#[test]
fn read_only_requests_need_no_approval() {
    let request = request(ExecutionMode::Wasi, grant(FilesystemAccess::Read));
    assert_eq!(classify_risk(&request), Risk::AutoApprove);
}

#[test]
fn each_risky_authority_needs_approval_for_its_own_reason() {
    let read = || grant(FilesystemAccess::Read);
    let cases = vec![
        (
            request(ExecutionMode::Wasi, grant(FilesystemAccess::ReadWrite)),
            ApprovalReason::FilesystemWrite,
        ),
        (
            request(ExecutionMode::Wasi, read().allow_loopback_port(80).expect("port")),
            ApprovalReason::NetworkAccess,
        ),
        (
            request(ExecutionMode::Wasi, read().allow_loopback_bind_port(80).expect("port")),
            ApprovalReason::NetworkAccess,
        ),
        (
            request(ExecutionMode::Wasi, read().allow_environment("A".to_owned()).expect("name")),
            ApprovalReason::EnvironmentAccess,
        ),
        (
            request(ExecutionMode::Native, read().allow_native_execution()),
            ApprovalReason::NativeExecution,
        ),
    ];
    for (request, reason) in cases {
        assert_eq!(classify_risk(&request), Risk::RequiresApproval(reason));
    }
}

#[test]
fn several_reasons_report_the_first() {
    let both = grant(FilesystemAccess::ReadWrite)
        .allow_loopback_port(80)
        .expect("port")
        .allow_environment("A".to_owned())
        .expect("name");
    assert_eq!(
        classify_risk(&request(ExecutionMode::Native, both)),
        Risk::RequiresApproval(ApprovalReason::FilesystemWrite)
    );
    let network = grant(FilesystemAccess::Read)
        .allow_loopback_port(80)
        .expect("port")
        .allow_environment("A".to_owned())
        .expect("name");
    assert_eq!(
        classify_risk(&request(ExecutionMode::Native, network)),
        Risk::RequiresApproval(ApprovalReason::NetworkAccess)
    );
}

#[test]
fn only_granted_names_are_read_from_the_host() {
    let asked = RefCell::new(Vec::new());
    let provider = |name: &str| {
        asked.borrow_mut().push(name.to_owned());
        match name {
            "HOME" => Some("/home/me".to_owned()),
            "SECRET" => Some("hidden".to_owned()),
            _ => None,
        }
    };
    let grant = CapabilityGrant::empty()
        .allow_environment("PATH".to_owned())
        .expect("name")
        .allow_environment("HOME".to_owned())
        .expect("name");
    assert_eq!(
        selected_environment(&grant, &provider),
        vec![("HOME".to_owned(), "/home/me".to_owned())]
    );
    assert_eq!(*asked.borrow(), vec!["HOME", "PATH"]);
    asked.borrow_mut().clear();
    assert!(selected_environment(&CapabilityGrant::empty(), &provider).is_empty());
    assert!(asked.borrow().is_empty());
}

#[test]
fn a_guest_sees_the_answer_that_was_given() {
    // The host may change meanwhile: each name is asked for once, and what was answered counts.
    let asked = RefCell::new(Vec::new());
    let changing = |name: &str| {
        asked.borrow_mut().push(name.to_owned());
        let turn = asked.borrow().len();
        if turn % 2 == 1 { Some(format!("{turn}")) } else { None }
    };
    let mut grant = CapabilityGrant::empty();
    for name in ["C", "A", "D", "B"] {
        grant = grant.allow_environment(name.to_owned()).expect("name");
    }
    assert_eq!(
        selected_environment(&grant, &changing),
        vec![("A".to_owned(), "1".to_owned()), ("C".to_owned(), "3".to_owned())]
    );
    assert_eq!(*asked.borrow(), vec!["A", "B", "C", "D"]);
}

#[test]
fn network_is_denied_unless_listed() {
    let nothing = NetworkPolicy::from_grant(&CapabilityGrant::empty());
    assert!(!nothing.allows_tcp());
    for socket_use in [SocketUse::TcpConnect, SocketUse::TcpBind, SocketUse::Udp] {
        assert!(!nothing.permits(true, 3000, socket_use));
        assert!(!nothing.permits(false, 3000, socket_use));
    }
}

#[test]
fn only_listed_loopback_tcp_ports_are_permitted() {
    let policy = NetworkPolicy::from_grant(
        &CapabilityGrant::empty()
            .allow_loopback_port(3000)
            .expect("port")
            .allow_loopback_bind_port(3001)
            .expect("port"),
    );
    assert!(policy.allows_tcp());
    assert!(policy.permits(true, 3000, SocketUse::TcpConnect));
    assert!(!policy.permits(true, 3000, SocketUse::TcpBind));
    assert!(policy.permits(true, 3001, SocketUse::TcpBind));
    assert!(!policy.permits(true, 3001, SocketUse::TcpConnect));
    assert!(!policy.permits(false, 3000, SocketUse::TcpConnect));
    assert!(!policy.permits(true, 3000, SocketUse::Udp));
    assert!(!policy.permits(true, 0, SocketUse::TcpBind));
}
