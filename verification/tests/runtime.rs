//! Component admission, store plans and run outcomes.

use wasmtime_wasi::cli::WasiCliCtxView;
use wasmtime_wasi::p2::bindings::cli::environment::Host;
use wasmtime_wasi::p2::bindings::sockets::instance_network::Host as NetworkHost;
use wasmtime_wasi::p2::bindings::sockets::ip_name_lookup::Host as LookupHost;
use wasmtime_wasi::p2::bindings::sockets::network::{ErrorCode, IpAddressFamily};
use wasmtime_wasi::p2::bindings::sockets::tcp_create_socket::Host as TcpHost;
use wasmtime_wasi::p2::bindings::sockets::udp_create_socket::Host as UdpHost;
use wasmtime_wasi::p2::SocketError;
use wasmtime_wasi::sockets::WasiSocketsCtxView;
use wasmtime_wasi::ResourceTable;

use wasi_runtime::capability::{CapabilityGrant, FilesystemAccess, ResourceLimits};
use wasi_runtime::command::{Actor, CommandError, CommandRequest, ExecutionMode};
use wasi_runtime::path::{HostPath, PathComponent, PathName, Separator};
use wasi_runtime::policy::SocketUse;
use wasi_runtime::runtime::{
    admission, build_store, epoch_ticks, run_outcome, EngineConfig, RuntimeError, WasiOutput,
    WasiRuntime,
};

fn root(name: &str) -> HostPath {
    HostPath::new(&format!("/tmp/sandbox-{name}"))
}

fn below(base: &HostPath, rest: &str) -> HostPath {
    HostPath::new(&format!("{}/{rest}", base.to_text()))
}

fn workspace(name: &str) -> CapabilityGrant {
    CapabilityGrant::workspace(root(name), FilesystemAccess::ReadWrite)
        .expect("absolute capability path")
}

fn request(cwd: &HostPath, grant: CapabilityGrant) -> CommandRequest {
    CommandRequest::new(
        9,
        Actor::Agent,
        ExecutionMode::Wasi,
        "tool".to_owned(),
        vec!["--flag".to_owned(), "two words".to_owned()],
        cwd.clone(),
        grant,
    )
    .expect("lexically valid request")
}

fn no_variable(_: &str) -> Option<String> {
    None
}

fn itself(path: &HostPath) -> Option<HostPath> {
    Some(path.clone())
}

fn fault(text: &'static str) -> wasmtime::Error {
    wasmtime::Error::msg(text)
}

#[test]
fn runtime_loads_a_valid_component_and_rejects_garbage() {
    let runtime = WasiRuntime::new().expect("runtime configuration is valid");
    let component = wat::parse_str("(component)").expect("component WAT is valid");

    assert!(runtime.compile_component(&component).is_ok());
    assert!(runtime.compile_component(b"not a component").is_err());
}

#[test]
fn modules_and_precompiled_artifacts_are_not_admitted() {
    let runtime = WasiRuntime::new().expect("runtime configuration is valid");
    let module = wat::parse_str("(module)").expect("module WAT is valid");
    assert!(matches!(
        runtime.compile_component(&module),
        Err(RuntimeError::Component(_))
    ));
    let bytes = wat::parse_str("(component)").expect("component WAT is valid");
    let precompiled = runtime.engine().precompile_component(&bytes).expect("precompiled");
    assert!(matches!(
        runtime.compile_component(&precompiled),
        Err(RuntimeError::Component(_))
    ));
}

#[test]
fn the_engine_counts_fuel_and_can_be_interrupted() {
    let runtime = WasiRuntime::new().expect("runtime configuration is valid");
    assert!(runtime.engine().get_consume_fuel());
    assert!(runtime.engine().get_epoch_interruption());
    let config = EngineConfig::production();
    assert!(config.consume_fuel && config.epoch_interruption);
}

#[test]
fn components_are_bound_to_the_engine_that_compiled_them() {
    let runtime = WasiRuntime::new().expect("runtime configuration is valid");
    let bytes = wat::parse_str("(component)").expect("component WAT is valid");
    let component = runtime.compile_component(&bytes).expect("admitted");
    assert!(wasmtime::Engine::same(component.engine(), runtime.engine()));
    let other = WasiRuntime::new().expect("runtime configuration is valid");
    assert!(!wasmtime::Engine::same(component.engine(), other.engine()));
}

#[test]
fn failures_of_the_engine_and_the_compiler_are_told_apart() {
    assert!(matches!(
        WasiRuntime::with_engine(Err(fault("no engine"))),
        Err(RuntimeError::Engine(_))
    ));
    assert!(matches!(admission(Err(fault("bad"))), Err(RuntimeError::Component(_))));
    let texts = [
        (RuntimeError::Engine(fault("x")), "failed to create Wasmtime engine: x"),
        (RuntimeError::Component(fault("x")), "component admission failed: x"),
        (RuntimeError::Wasi(fault("x")), "WASI execution failed: x"),
        (
            RuntimeError::Command(CommandError::InvalidProgram),
            "invalid WASI request: invalid program",
        ),
        (RuntimeError::WrongMode, "WASI backend received a non-WASI request"),
        (RuntimeError::Cancelled, "session was cancelled"),
    ];
    for (error, text) in texts {
        assert_eq!(error.message(), text);
        assert_eq!(error.message_with("x".to_owned()), text);
    }
}

#[test]
fn runtime_denies_a_missing_workspace_before_guest_start() {
    let runtime = WasiRuntime::new().expect("runtime configuration is valid");
    runtime
        .compile_component(&wat::parse_str("(component)").expect("component is valid"))
        .expect("component admission succeeds");
    let missing = root("missing-workspace-that-does-not-exist");
    let request = request(&missing, workspace("missing-workspace-that-does-not-exist"));

    assert!(matches!(
        build_store(&request, &no_variable, &|_: &HostPath| None, Separator::Slash),
        Err(RuntimeError::Command(_))
    ));
}

#[test]
fn runtime_denies_a_symlinked_cwd_that_escapes_the_grant() {
    let granted = root("symlink-escape");
    let outside = root("symlink-escape-outside");
    // The cwd passes the lexical check but resolves outside the grant.
    let escaped_cwd = below(&granted, "escape");
    let request = request(&escaped_cwd, workspace("symlink-escape"));
    let canonicalize = |asked: &HostPath| {
        if *asked == escaped_cwd {
            Some(outside.clone())
        } else {
            Some(asked.clone())
        }
    };

    assert!(matches!(
        build_store(&request, &no_variable, &canonicalize, Separator::Slash),
        Err(RuntimeError::Command(CommandError::WorkingDirectoryDenied(path))) if path == escaped_cwd
    ));
}

#[test]
fn requests_are_refused_in_order() {
    let granted = root("order");
    let mut wrong = request(&granted, workspace("order").allow_native_execution());
    wrong.mode = ExecutionMode::Native;
    assert!(matches!(
        build_store(&wrong, &no_variable, &itself, Separator::Slash),
        Err(RuntimeError::WrongMode)
    ));
    wrong.program = String::new();
    assert!(matches!(
        build_store(&wrong, &no_variable, &itself, Separator::Slash),
        Err(RuntimeError::Command(CommandError::InvalidProgram))
    ));
}

#[test]
fn the_environment_is_not_read_for_a_refused_request() {
    let unread = |_: &str| -> Option<String> { panic!("the environment was read") };
    let granted = root("unread");
    let grant = || workspace("unread").allow_environment("HOME".to_owned()).expect("name");
    let mut invalid = request(&granted, grant());
    invalid.program = String::new();
    assert!(build_store(&invalid, &unread, &itself, Separator::Slash).is_err());
    let mut native = request(&granted, grant().allow_native_execution());
    native.mode = ExecutionMode::Native;
    assert!(build_store(&native, &unread, &itself, Separator::Slash).is_err());
    let missing = request(&granted, grant());
    assert!(build_store(&missing, &unread, &|_: &HostPath| None, Separator::Slash).is_err());
}

#[test]
fn a_plan_holds_the_authority_of_the_request() {
    let granted = root("plan");
    let real = HostPath::new("/real/plan");
    let limits = ResourceLimits::new(100, 7)
        .expect("limits")
        .with_fuel(42)
        .expect("fuel")
        .with_memory_bytes(65536)
        .expect("memory");
    let grant = workspace("plan")
        .with_limits(limits)
        .allow_environment("LANG".to_owned())
        .expect("name")
        .allow_environment("HOME".to_owned())
        .expect("name")
        .allow_loopback_port(8080)
        .expect("port");
    let request = request(&below(&granted, "src/deep"), grant);
    let provider = |name: &str| Some(format!("<{name}>"));
    let canonicalize = |asked: &HostPath| {
        if *asked == granted {
            Some(real.clone())
        } else {
            Some(below(&real, "src/deep"))
        }
    };
    let plan = build_store(&request, &provider, &canonicalize, Separator::Slash).expect("planned");
    assert_eq!(plan.args, vec!["--flag", "two words"]);
    assert_eq!(
        plan.environment,
        vec![
            ("HOME".to_owned(), "<HOME>".to_owned()),
            ("LANG".to_owned(), "<LANG>".to_owned()),
        ]
    );
    assert!(plan.network.permits(true, 8080, SocketUse::TcpConnect));
    assert!(!plan.network.permits(true, 8081, SocketUse::TcpConnect));
    assert_eq!(plan.preopens.len(), 1);
    assert_eq!(plan.preopens[0].host_root, real);
    assert_eq!(plan.preopens[0].guest_root, "/workspace");
    assert_eq!(plan.preopens[0].access, FilesystemAccess::ReadWrite);
    assert_eq!(plan.initial_cwd, "/workspace/src/deep");
    assert_eq!(plan.memory_bytes, 65536);
    assert_eq!((plan.instances, plan.tables, plan.memories), (16, 16, 16));
    assert_eq!(plan.fuel, 42);
    assert_eq!(plan.epoch_ticks, 70);

    // Wasmtime is told the same.
    let mut builder = plan.guest_context();
    let mut context = builder.build();
    let mut table = ResourceTable::new();
    let mut view = WasiCliCtxView { ctx: context.cli(), table: &mut table };
    assert_eq!(view.get_arguments().expect("arguments"), plan.args);
    assert_eq!(view.get_environment().expect("environment"), plan.environment);
    assert_eq!(Host::initial_cwd(&mut view).expect("cwd"), Some(plan.initial_cwd.clone()));
    let limits = format!("{:?}", plan.store_limits());
    assert!(limits.contains("memory_size: Some(65536)"), "{limits}");
    assert!(limits.contains("table_elements: None"), "{limits}");
    assert!(limits.contains("instances: 16"), "{limits}");
    assert!(limits.contains("tables: 16"), "{limits}");
    assert!(limits.contains("memories: 16"), "{limits}");
    assert!(limits.contains("trap_on_grow_failure: false"), "{limits}");
}

fn code(error: SocketError) -> ErrorCode {
    error.downcast().expect("a socket error")
}

#[test]
fn a_guest_gets_tcp_only_with_a_port_and_never_udp_or_name_lookup() {
    let plain = workspace("sockets");
    let with_port = workspace("sockets").allow_loopback_bind_port(4000).expect("port");
    for (grant, tcp) in [(plain, false), (with_port, true)] {
        let request = request(&root("sockets"), grant);
        let plan = build_store(&request, &no_variable, &itself, Separator::Slash).expect("planned");
        let mut builder = plan.guest_context();
        let mut context = builder.build();
        let mut table = ResourceTable::new();
        let mut view = WasiSocketsCtxView { ctx: context.sockets(), table: &mut table };
        let denied = match view.create_tcp_socket(IpAddressFamily::Ipv4) {
            Ok(_) => false,
            Err(error) => matches!(code(error), ErrorCode::AccessDenied),
        };
        assert_eq!(denied, !tcp);
        let udp = view.create_udp_socket(IpAddressFamily::Ipv4).expect_err("no UDP");
        assert!(matches!(code(udp), ErrorCode::AccessDenied));
        let network = view.instance_network().expect("network");
        match view.resolve_addresses(network, "localhost".to_owned()) {
            Ok(_) => panic!("no name lookup"),
            Err(error) => {
                assert!(matches!(code(error), ErrorCode::PermanentResolverFailure));
            }
        }
    }
}

#[test]
fn a_directory_without_a_text_name_starts_at_the_workspace_root() {
    let mut cwd = root("odd");
    cwd.components.push(PathComponent::Normal(PathName::Raw(vec![0xff])));
    let request = request(&cwd, workspace("odd"));
    let plan = build_store(&request, &no_variable, &itself, Separator::Slash).expect("planned");
    assert_eq!(plan.initial_cwd, "/workspace");
    assert!(!plan.network.allows_tcp());
    assert!(plan.environment.is_empty());
}

#[test]
fn an_opened_directory_is_an_answer_for_its_root() {
    let granted = root("moving");
    let request = request(&below(&granted, "src//./bin"), workspace("moving"));
    let asked = std::cell::Cell::new(0);
    // The cwd and the root are resolved for the check, and the root once more to be opened.
    let moving = |path: &HostPath| {
        asked.set(asked.get() + 1);
        if asked.get() < 3 {
            Some(path.clone())
        } else {
            Some(HostPath::new("/moved"))
        }
    };
    let plan = build_store(&request, &no_variable, &moving, Separator::Slash).expect("planned");
    assert_eq!(asked.get(), 3);
    assert_eq!(plan.preopens[0].host_root, HostPath::new("/moved"));
    assert_eq!(plan.initial_cwd, "/workspace/src//./bin");
    // A root that is gone by then is what the request is refused for.
    asked.set(0);
    let vanishing = |path: &HostPath| {
        asked.set(asked.get() + 1);
        if asked.get() < 3 { Some(path.clone()) } else { None }
    };
    assert!(matches!(
        build_store(&request, &no_variable, &vanishing, Separator::Slash),
        Err(RuntimeError::Command(CommandError::WorkingDirectoryDenied(path))) if path == granted
    ));
}

#[test]
fn wall_clock_limits_become_epoch_ticks() {
    let ticks = |seconds: u64| epoch_ticks(ResourceLimits::new(1, seconds).expect("limits"));
    assert_eq!(ticks(1), 10);
    assert_eq!(ticks(30), 300);
    assert_eq!(ticks(u64::MAX / 10), u64::MAX / 10 * 10);
    assert_eq!(ticks(u64::MAX / 10 + 1), u64::MAX);
    assert_eq!(ticks(u64::MAX), u64::MAX);
}

#[test]
fn run_results_become_outputs_or_errors() {
    let output = |exit_code: i32| WasiOutput {
        stdout: b"out".to_vec(),
        stderr: b"err".to_vec(),
        exit_code,
    };
    let outcome = |result: Result<Result<(), ()>, wasmtime::Error>, cancelled: bool| {
        run_outcome(result, b"out".to_vec(), b"err".to_vec(), cancelled)
    };
    assert!(matches!(outcome(Ok(Ok(())), false), Ok(done) if done == output(0)));
    assert!(matches!(outcome(Ok(Err(())), false), Ok(done) if done == output(1)));
    // A guest that completed is unaffected by a late cancellation.
    assert!(matches!(outcome(Ok(Ok(())), true), Ok(done) if done == output(0)));
    assert!(matches!(outcome(Err(fault("trap")), true), Err(RuntimeError::Cancelled)));
    assert!(matches!(outcome(Err(fault("trap")), false), Err(RuntimeError::Wasi(_))));
}
