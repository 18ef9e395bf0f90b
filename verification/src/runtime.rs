//! Admission of components, the plan for one guest store, and what its run amounts to.

use vstd::prelude::*;

use wasmtime::component::Component;

use crate::capability::{
    filesystem_views, FilesystemAccess, FilesystemView, GrantView, LimitsView, ResourceLimits,
};
use crate::command::{
    CommandError, CommandErrorView, CommandRequest, ExecutionMode, RequestView,
};
use crate::path::{answers_as, may_answer, path_option, HostPath, PathView, Separator};
use crate::policy::{
    known_names, law_environment_is_what_is_granted_and_known, may_select, pair_texts, reads_as,
    selected_environment, NetworkPolicy, NetworkView,
};
use crate::text::{
    clone_texts, decimal, labelled, law_decimals_differ, show_decimal, strictly_sorted, texts,
};

verus! {

/// The Wasmtime engine.
#[verifier::external_type_specification]
#[verifier::external_body]
pub struct ExEngine(wasmtime::Engine);

/// An error reported by Wasmtime.
#[verifier::external_type_specification]
#[verifier::external_body]
pub struct ExError(wasmtime::Error);

/// A compiled component.
#[verifier::external_type_specification]
#[verifier::external_body]
pub struct ExComponent(wasmtime::component::Component);

/// Errors produced while creating the runtime or admitting a component.
#[derive(Debug)]
pub enum RuntimeError {
    /// The Wasmtime engine could not be configured.
    Engine(wasmtime::Error),
    /// The component was malformed or could not be compiled safely.
    Component(wasmtime::Error),
    /// The request was not valid for the selected backend.
    Command(CommandError),
    /// WASI linker, context, or guest execution failed.
    Wasi(wasmtime::Error),
    /// A non-WASI request was passed to the WASI backend.
    WrongMode,
    /// The session was cancelled before the guest completed.
    Cancelled,
}

/// What a [`RuntimeError`] stands for.
pub enum RuntimeErrorView {
    /// The Wasmtime engine could not be configured.
    Engine(wasmtime::Error),
    /// The component was malformed or could not be compiled safely.
    Component(wasmtime::Error),
    /// The request was not valid for the selected backend.
    Command(CommandErrorView),
    /// WASI linker, context, or guest execution failed.
    Wasi(wasmtime::Error),
    /// A non-WASI request was passed to the WASI backend.
    WrongMode,
    /// The session was cancelled before the guest completed.
    Cancelled,
}

impl View for RuntimeError {
    type V = RuntimeErrorView;

    open spec fn view(&self) -> RuntimeErrorView {
        match self {
            RuntimeError::Engine(error) => RuntimeErrorView::Engine(*error),
            RuntimeError::Component(error) => RuntimeErrorView::Component(*error),
            RuntimeError::Command(error) => RuntimeErrorView::Command(error@),
            RuntimeError::Wasi(error) => RuntimeErrorView::Wasi(*error),
            RuntimeError::WrongMode => RuntimeErrorView::WrongMode,
            RuntimeError::Cancelled => RuntimeErrorView::Cancelled,
        }
    }
}

/// Show an error of Wasmtime with its [`std::fmt::Display`].
///
/// Trusted without a promise: the text comes from whatever error is held inside, and an error of
/// the operating system is shown as the host puts it.
#[verifier::external_body]
fn show_error(error: &wasmtime::Error) -> (text: String) {
    format!("{error}")
}

/// Whether Wasmtime may show an error as a text.
pub closed spec fn may_show(error: wasmtime::Error, shown: Seq<char>) -> bool {
    exists|text: String| text@ == shown && #[trigger] call_ensures(show_error, (&error,), text)
}

impl RuntimeErrorView {
    /// Whether a text is what Wasmtime may show for the error inside, if there is one.
    pub open spec fn may_show_cause(self, shown: Seq<char>) -> bool {
        match self {
            RuntimeErrorView::Engine(error) => may_show(error, shown),
            RuntimeErrorView::Component(error) => may_show(error, shown),
            RuntimeErrorView::Wasi(error) => may_show(error, shown),
            _ => true,
        }
    }

    /// The text for the error, where an error of Wasmtime inside it is shown as `shown`.
    pub open spec fn message_with(self, shown: Seq<char>) -> Seq<char> {
        match self {
            RuntimeErrorView::Engine(error) => "failed to create Wasmtime engine: "@ + shown,
            RuntimeErrorView::Component(error) => "component admission failed: "@ + shown,
            RuntimeErrorView::Command(error) => "invalid WASI request: "@ + error.message(),
            RuntimeErrorView::Wasi(error) => "WASI execution failed: "@ + shown,
            RuntimeErrorView::WrongMode => "WASI backend received a non-WASI request"@,
            RuntimeErrorView::Cancelled => "session was cancelled"@,
        }
    }
}

impl RuntimeError {
    /// The text for the error, where an error of Wasmtime inside it is shown as `shown`.
    pub fn message_with(&self, shown: String) -> (text: String)
        ensures
            text@ == self@.message_with(shown@),
    {
        match self {
            RuntimeError::Engine(_) => labelled("failed to create Wasmtime engine: ", shown),
            RuntimeError::Component(_) => labelled("component admission failed: ", shown),
            RuntimeError::Command(error) => labelled("invalid WASI request: ", error.message()),
            RuntimeError::Wasi(_) => labelled("WASI execution failed: ", shown),
            RuntimeError::WrongMode => "WASI backend received a non-WASI request".to_owned(),
            RuntimeError::Cancelled => "session was cancelled".to_owned(),
        }
    }

    /// What Wasmtime shows for the error inside, if there is one.
    pub(crate) fn cause_text(&self) -> (shown: String)
        ensures
            self@.may_show_cause(shown@),
    {
        match self {
            RuntimeError::Engine(error) | RuntimeError::Component(error) | RuntimeError::Wasi(
                error,
            ) => {
                let shown = show_error(error);
                assert(call_ensures(show_error, (error,), shown));
                shown
            },
            RuntimeError::Command(_) | RuntimeError::WrongMode | RuntimeError::Cancelled =>
                String::new(),
        }
    }

    /// The text shown for the error.
    ///
    /// How Wasmtime shows an error of its own is not fixed; the rest of the text is.
    pub fn message(&self) -> (text: String)
        ensures
            exists|shown: Seq<char>|
                text@ == #[trigger] self@.message_with(shown) && self@.may_show_cause(shown),
    {
        self.message_with(self.cause_text())
    }
}

/// Captured output and exit status from one WASI command.
#[derive(Clone, Debug, PartialEq, Eq)]
pub struct WasiOutput {
    /// Captured standard output.
    pub stdout: Vec<u8>,
    /// Captured standard error.
    pub stderr: Vec<u8>,
    /// `0` for success, `1` for a guest-reported failure.
    pub exit_code: i32,
}

/// The engine features that the sandbox depends on.
#[derive(Clone, Copy, Debug, PartialEq, Eq, Structural)]
pub struct EngineConfig {
    /// Count guest instructions against a budget.
    pub consume_fuel: bool,
    /// Let the host interrupt a running guest.
    pub epoch_interruption: bool,
}

/// The production configuration: fuel is counted and guests can be interrupted.
pub open spec fn production_config() -> EngineConfig {
    EngineConfig { consume_fuel: true, epoch_interruption: true }
}

impl EngineConfig {
    /// The production configuration: fuel is counted and guests can be interrupted.
    pub fn production() -> (config: Self)
        ensures
            config == production_config(),
    {
        EngineConfig { consume_fuel: true, epoch_interruption: true }
    }
}

pub uninterp spec fn engine_config(engine: wasmtime::Engine) -> EngineConfig;

/// Create an engine with [`wasmtime::Engine::new`].
///
/// Trusted: an engine that comes back has the features that were asked for. Whether one comes back
/// depends on the host, so that is not claimed.
#[verifier::external_body]
fn new_engine(config: &EngineConfig) -> (engine: Result<wasmtime::Engine, wasmtime::Error>)
    ensures
        engine matches Ok(made) ==> engine_config(made) == *config,
{
    wasmtime::Engine::new(
        wasmtime::Config::new()
            .consume_fuel(config.consume_fuel)
            .epoch_interruption(config.epoch_interruption),
    )
}

/// Whether asking for an engine with a configuration may be answered so.
pub closed spec fn may_create(
    config: EngineConfig,
    answer: Result<wasmtime::Engine, wasmtime::Error>,
) -> bool {
    call_ensures(new_engine, (&config,), answer)
}

pub uninterp spec fn component_source(component: Component) -> Seq<u8>;

pub uninterp spec fn component_engine(component: Component) -> wasmtime::Engine;

/// Validate and compile a component with [`wasmtime::component::Component::new`].
///
/// Trusted: a component that comes back was compiled from these bytes and is bound to this engine.
/// Whether one comes back depends on the engine, the host and its memory, so that is not claimed.
#[verifier::external_body]
fn compile(engine: &wasmtime::Engine, bytes: &[u8]) -> (compiled: Result<
    Component,
    wasmtime::Error,
>)
    ensures
        compiled matches Ok(component) ==> component_source(component) == bytes@,
        compiled matches Ok(component) ==> component_engine(component) == *engine,
{
    Component::new(engine, bytes)
}

/// Whether compiling bytes on an engine may be answered so.
pub closed spec fn may_compile(
    engine: wasmtime::Engine,
    bytes: &[u8],
    answer: Result<Component, wasmtime::Error>,
) -> bool {
    call_ensures(compile, (&engine, bytes), answer)
}

/// The embedded Wasmtime runtime configured for the safe admission path.
pub struct WasiRuntime {
    engine: wasmtime::Engine,
}

/// What admission makes of the compiler's answer.
pub fn admission(compiled: Result<Component, wasmtime::Error>) -> (admitted: Result<
    Component,
    RuntimeError,
>)
    ensures
        match compiled {
            Ok(component) => admitted == Ok::<Component, RuntimeError>(component),
            Err(error) => admitted == Err::<Component, RuntimeError>(
                RuntimeError::Component(error),
            ),
        },
{
    match compiled {
        Ok(component) => Ok(component),
        Err(error) => Err(RuntimeError::Component(error)),
    }
}

impl WasiRuntime {
    /// The engine of this runtime.
    pub closed spec fn engine_of(&self) -> wasmtime::Engine {
        self.engine
    }

    /// Return the engine this runtime compiles and runs components on.
    pub fn engine(&self) -> (engine: &wasmtime::Engine)
        ensures
            *engine == self.engine_of(),
    {
        &self.engine
    }

    /// What the runtime makes of the engine that was asked for.
    pub fn with_engine(engine: Result<wasmtime::Engine, wasmtime::Error>) -> (made: Result<
        Self,
        RuntimeError,
    >)
        ensures
            match engine {
                Ok(engine) => made matches Ok(runtime) && runtime.engine_of() == engine,
                Err(error) => made == Err::<Self, RuntimeError>(RuntimeError::Engine(error)),
            },
    {
        match engine {
            Ok(engine) => Ok(WasiRuntime { engine }),
            Err(error) => Err(RuntimeError::Engine(error)),
        }
    }

    /// Create the production engine configuration.
    pub fn new() -> (made: Result<Self, RuntimeError>)
        ensures
            match made {
                Ok(runtime) => engine_config(runtime.engine_of()) == production_config()
                    && may_create(production_config(), Ok(runtime.engine_of())),
                Err(error) => error matches RuntimeError::Engine(cause) && may_create(
                    production_config(),
                    Err(cause),
                ),
            },
    {
        let config = EngineConfig::production();
        WasiRuntime::with_engine(new_engine(&config))
    }

    /// Safely validate and compile raw component bytes.
    ///
    /// Serialized/AOT artifacts are deliberately not accepted here. This method uses
    /// Wasmtime's safe raw-component admission path and keeps the compiled handle in memory.
    pub fn compile_component(&self, bytes: &[u8]) -> (admitted: Result<Component, RuntimeError>)
        ensures
            match admitted {
                Ok(component) => component_source(component) == bytes@ && component_engine(
                    component,
                ) == self.engine_of() && may_compile(self.engine_of(), bytes, Ok(component)),
                Err(error) => error matches RuntimeError::Component(cause) && may_compile(
                    self.engine_of(),
                    bytes,
                    Err(cause),
                ),
            },
    {
        admission(compile(&self.engine, bytes))
    }
}

/// Admission is the compiler's answer and nothing else: whatever a runtime answers for some bytes,
/// compiling exactly these bytes on its own engine was answered so. A component is refused only if
/// the compiler refused it, with the error that the compiler gave.
pub proof fn law_admission_is_the_compilers_answer(
    runtime: &WasiRuntime,
    bytes: &[u8],
    admitted: Result<Component, RuntimeError>,
)
    requires
        call_ensures(WasiRuntime::compile_component, (runtime, bytes), admitted),
    ensures
        match admitted {
            Ok(component) => may_compile(runtime.engine_of(), bytes, Ok(component)),
            Err(RuntimeError::Component(cause)) => may_compile(
                runtime.engine_of(),
                bytes,
                Err(cause),
            ),
            Err(_) => false,
        },
{
}

/// A runtime is what Wasmtime answers when it is asked for an engine that counts fuel and lets
/// guests be interrupted, and nothing else.
pub proof fn law_a_runtime_is_the_engine_asked_for(made: Result<WasiRuntime, RuntimeError>)
    requires
        call_ensures(WasiRuntime::new, (), made),
    ensures
        ({
            let config = EngineConfig { consume_fuel: true, epoch_interruption: true };
            match made {
                Ok(runtime) => may_create(config, Ok(runtime.engine_of())) && engine_config(
                    runtime.engine_of(),
                ) == config,
                Err(RuntimeError::Engine(cause)) => may_create(config, Err(cause)),
                Err(_) => false,
            }
        }),
{
}

/// What may be answered is what the call itself may answer: an answer for some bytes, for a
/// configuration or for an error is one of Wasmtime, given exactly these.
proof fn law_answers_are_those_of_wasmtime(
    runtime: &WasiRuntime,
    bytes: &[u8],
    compiled: Result<Component, wasmtime::Error>,
    config: EngineConfig,
    created: Result<wasmtime::Engine, wasmtime::Error>,
    error: wasmtime::Error,
    shown: Seq<char>,
)
    ensures
        may_compile(runtime.engine_of(), bytes, compiled) <==> call_ensures(
            compile,
            (&runtime.engine, bytes),
            compiled,
        ),
        may_create(config, created) <==> call_ensures(new_engine, (&config,), created),
        may_show(error, shown) <==> exists|text: String|
            text@ == shown && #[trigger] call_ensures(show_error, (&error,), text),
{
}

/// What a finished run amounts to.
///
/// `result` is what the guest returned, or the trap that ended it. A trap of a cancelled session is
/// its cancellation.
pub fn run_outcome(
    result: Result<Result<(), ()>, wasmtime::Error>,
    stdout: Vec<u8>,
    stderr: Vec<u8>,
    cancelled: bool,
) -> (outcome: Result<WasiOutput, RuntimeError>)
    ensures
        match result {
            Ok(Ok(())) => outcome == Ok::<WasiOutput, RuntimeError>(
                (WasiOutput { stdout, stderr, exit_code: 0 }),
            ),
            Ok(Err(())) => outcome == Ok::<WasiOutput, RuntimeError>(
                (WasiOutput { stdout, stderr, exit_code: 1 }),
            ),
            Err(error) => outcome == Err::<WasiOutput, RuntimeError>(
                if cancelled {
                    RuntimeError::Cancelled
                } else {
                    RuntimeError::Wasi(error)
                },
            ),
        },
{
    match result {
        Ok(Ok(())) => Ok(WasiOutput { stdout, stderr, exit_code: 0 }),
        Ok(Err(())) => Ok(WasiOutput { stdout, stderr, exit_code: 1 }),
        Err(error) => if cancelled {
            Err(RuntimeError::Cancelled)
        } else {
            Err(RuntimeError::Wasi(error))
        },
    }
}

/// The wall-clock limit in epoch ticks of a tenth of a second.
pub open spec fn epoch_ticks_of(limits: LimitsView) -> u64 {
    if limits.timeout_seconds == 0 {
        1
    } else if limits.timeout_seconds * 10 <= u64::MAX {
        (limits.timeout_seconds * 10) as u64
    } else {
        u64::MAX
    }
}

/// The wall-clock limit in epoch ticks of a tenth of a second.
pub fn epoch_ticks(limits: ResourceLimits) -> (ticks: u64)
    ensures
        ticks == epoch_ticks_of(limits@),
        ticks > 0,
{
    match limits.timeout_seconds().checked_mul(10) {
        Some(ticks) => if ticks == 0 {
            1
        } else {
            ticks
        },
        None => u64::MAX,
    }
}

/// Where the guest sees the filesystem root granted at an index.
pub open spec fn guest_root(index: nat) -> Seq<char> {
    if index == 0 {
        "/workspace"@
    } else {
        "/grant-"@ + decimal(index)
    }
}

/// Where the guest sees the filesystem root granted at an index.
fn guest_root_at(index: usize) -> (text: String)
    ensures
        text@ == guest_root(index as nat),
{
    if index == 0 {
        "/workspace".to_owned()
    } else {
        let mut text: String = "/grant-".to_owned();
        let number = show_decimal(index as u64);
        text.append(number.as_str());
        text
    }
}

/// A host directory opened for the guest.
#[derive(Debug)]
pub struct Preopen {
    /// The resolved host directory.
    pub host_root: HostPath,
    /// Where the guest sees it.
    pub guest_root: String,
    /// What the guest may do below it.
    pub access: FilesystemAccess,
}

/// What a [`Preopen`] stands for.
#[verifier::ext_equal]
pub struct PreopenView {
    /// The resolved host directory.
    pub host_root: PathView,
    /// Where the guest sees it.
    pub guest_root: Seq<char>,
    /// What the guest may do below it.
    pub access: FilesystemAccess,
}

impl View for Preopen {
    type V = PreopenView;

    open spec fn view(&self) -> PreopenView {
        PreopenView {
            host_root: self.host_root@,
            guest_root: self.guest_root@,
            access: self.access,
        }
    }
}

/// The views of a list of opened directories.
pub open spec fn preopen_views(list: Seq<Preopen>) -> Seq<PreopenView> {
    list.map_values(|preopen: Preopen| preopen@)
}

/// How many instances, tables and memories a guest may have of each.
pub const MAX_STORE_ITEMS: usize = 16;

/// Everything that one guest store is built from.
#[derive(Debug)]
pub struct StorePlan {
    /// Arguments of the guest.
    pub args: Vec<String>,
    /// Environment of the guest.
    pub environment: Vec<(String, String)>,
    /// Sockets the guest may use.
    pub network: NetworkPolicy,
    /// Host directories opened for the guest.
    pub preopens: Vec<Preopen>,
    /// Working directory the guest starts in.
    pub initial_cwd: String,
    /// Limit on each linear memory in bytes.
    pub memory_bytes: usize,
    /// Limit on instances.
    pub instances: usize,
    /// Limit on tables.
    pub tables: usize,
    /// Limit on memories.
    pub memories: usize,
    /// Instruction budget.
    pub fuel: u64,
    /// Epoch ticks after which the guest is interrupted.
    pub epoch_ticks: u64,
}

/// The directories opened for a list of granted roots.
pub open spec fn preopens_of(
    filesystems: Seq<FilesystemView>,
    canonical: spec_fn(PathView) -> Option<PathView>,
) -> Seq<PreopenView> {
    Seq::new(
        filesystems.len(),
        |i: int|
            PreopenView {
                host_root: canonical(filesystems[i].root)->0,
                guest_root: guest_root(i as nat),
                access: filesystems[i].access,
            },
    )
}

/// The first granted root that does not resolve, if there is one.
pub open spec fn first_unresolved(
    filesystems: Seq<FilesystemView>,
    canonical: spec_fn(PathView) -> Option<PathView>,
) -> Option<PathView>
    decreases filesystems.len(),
{
    if filesystems.len() == 0 {
        None
    } else {
        match first_unresolved(filesystems.drop_last(), canonical) {
            Some(root) => Some(root),
            None => if canonical(filesystems.last().root) is None {
                Some(filesystems.last().root)
            } else {
                None
            },
        }
    }
}

/// Where the guest sees a path through the first granted root that shows it.
pub open spec fn first_guest_path(
    filesystems: Seq<FilesystemView>,
    path: PathView,
    separator: Separator,
) -> Option<Seq<char>>
    decreases filesystems.len(),
{
    if filesystems.len() == 0 {
        None
    } else {
        match first_guest_path(filesystems.drop_last(), path, separator) {
            Some(seen) => Some(seen),
            None => filesystems.last().guest_path(
                path,
                guest_root((filesystems.len() - 1) as nat),
                separator,
            ),
        }
    }
}

/// The working directory a guest starts in.
pub open spec fn guest_cwd(grant: GrantView, cwd: PathView, separator: Separator) -> Seq<char> {
    match first_guest_path(grant.filesystems, cwd, separator) {
        Some(seen) => seen,
        None => "/workspace"@,
    }
}

impl RequestView {
    /// Why the WASI backend refuses the request before any guest starts, if it does.
    pub open spec fn wasi_refusal(
        self,
        canonical: spec_fn(PathView) -> Option<PathView>,
    ) -> Option<RuntimeErrorView> {
        if self.error() is Some {
            Some(RuntimeErrorView::Command(self.error()->0))
        } else if self.mode != ExecutionMode::Wasi {
            Some(RuntimeErrorView::WrongMode)
        } else if !self.grant.allows_existing_path(self.cwd, canonical) {
            Some(RuntimeErrorView::Command(CommandErrorView::WorkingDirectoryDenied(self.cwd)))
        } else {
            match first_unresolved(self.grant.filesystems, canonical) {
                Some(root) => Some(
                    RuntimeErrorView::Command(CommandErrorView::WorkingDirectoryDenied(root)),
                ),
                None => None,
            }
        }
    }
}

impl RequestView {
    /// Whether the host environment may be read for the request: not where it is refused for what
    /// it asks, nor where its working directory resolves to one that is not allowed.
    pub open spec fn may_read_environment<F: Fn(&HostPath) -> Option<HostPath>>(
        self,
        canonicalize: F,
    ) -> bool {
        &&& self.error() is None
        &&& self.mode == ExecutionMode::Wasi
        &&& forall|canonical: spec_fn(PathView) -> Option<PathView>|
            #[trigger] answers_as(canonicalize, canonical) ==> self.grant.allows_existing_path(
                self.cwd,
                canonical,
            )
    }
}

impl StorePlan {
    /// The plan holds exactly the authority and limits of the request.
    ///
    /// The environment and the opened directories depend on the host besides.
    pub open spec fn follows(&self, request: RequestView, separator: Separator) -> bool {
        &&& texts(self.args@) == request.args
        &&& self.network@ == NetworkView::of_grant(request.grant)
        &&& self.initial_cwd@ == guest_cwd(request.grant, request.cwd, separator)
        &&& self.memory_bytes == request.grant.limits.max_memory_bytes
        &&& self.instances == MAX_STORE_ITEMS
        &&& self.tables == MAX_STORE_ITEMS
        &&& self.memories == MAX_STORE_ITEMS
        &&& self.fuel == request.grant.limits.max_fuel
        &&& self.epoch_ticks == epoch_ticks_of(request.grant.limits)
    }

    /// The environment is what the host holds under the granted names.
    pub open spec fn environment_follows<E: Fn(&str) -> Option<String>>(
        &self,
        grant: GrantView,
        provider: E,
    ) -> bool {
        &&& may_select(provider, grant.environment, pair_texts(self.environment@))
        &&& exists|names: Seq<Seq<char>>|
            #![trigger strictly_sorted(names)]
            strictly_sorted(names) && names.to_set() == grant.environment && forall|
                host: spec_fn(Seq<char>) -> Option<Seq<char>>,
            | #[trigger]
                reads_as(provider, host) ==> pair_texts(self.environment@) == known_names(
                    names,
                    host,
                )
    }
}

/// Whether directories may be opened for a list of granted roots, whatever `canonicalize` answers:
/// each is an answer for its root.
pub open spec fn may_open<F: Fn(&HostPath) -> Option<HostPath>>(
    canonicalize: F,
    filesystems: Seq<FilesystemView>,
    preopens: Seq<PreopenView>,
) -> bool {
    &&& preopens.len() == filesystems.len()
    &&& forall|i: int|
        0 <= i < preopens.len() ==> {
            &&& may_answer(
                canonicalize,
                filesystems[i].root,
                Some((#[trigger] preopens[i]).host_root),
            )
            &&& preopens[i].guest_root == guest_root(i as nat)
            &&& preopens[i].access == filesystems[i].access
        }
}

impl RequestView {
    /// Whether a valid request for this backend may be refused with an error, whatever
    /// `canonicalize` answers.
    ///
    /// It is refused for its working directory, or for a granted root with no answer.
    pub open spec fn may_refuse<F: Fn(&HostPath) -> Option<HostPath>>(
        self,
        canonicalize: F,
        error: RuntimeErrorView,
    ) -> bool {
        ||| self.grant.may_decide(self.cwd, canonicalize, false) && error
            == RuntimeErrorView::Command(CommandErrorView::WorkingDirectoryDenied(self.cwd))
        ||| self.grant.may_decide(self.cwd, canonicalize, true) && exists|i: int|
            0 <= i < self.grant.filesystems.len() && may_answer(
                canonicalize,
                (#[trigger] self.grant.filesystems[i]).root,
                None,
            ) && error == RuntimeErrorView::Command(
                CommandErrorView::WorkingDirectoryDenied(self.grant.filesystems[i].root),
            )
    }
}

/// Plan the store for one request.
///
/// Shared by the capturing and streaming paths so both get exactly the
/// same capability, environment, and network posture. `provider` reads one host
/// variable; it is asked for granted names only, and for none at all where the request
/// is invalid, not for this backend, or starts in a directory that the grant does not
/// allow. `canonicalize` resolves one host path, and `separator` is the one that the host writes.
pub fn build_store<E: Fn(&str) -> Option<String>, F: Fn(&HostPath) -> Option<HostPath>>(
    request: &CommandRequest,
    provider: &E,
    canonicalize: &F,
    separator: Separator,
) -> (planned: Result<StorePlan, RuntimeError>)
    requires
        request@.may_read_environment(*canonicalize) ==> forall|name: &str|
            request@.grant.environment.contains(name@) ==> call_requires(*provider, (name,)),
        forall|asked: &HostPath| call_requires(*canonicalize, (asked,)),
    ensures
        match planned {
            Ok(plan) => {
                &&& request@.error() is None
                &&& request@.mode == ExecutionMode::Wasi
                &&& plan.follows(request@, separator)
                &&& plan.environment_follows(request@.grant, *provider)
                &&& request@.grant.may_decide(request@.cwd, *canonicalize, true)
                &&& may_open(
                    *canonicalize,
                    request@.grant.filesystems,
                    preopen_views(plan.preopens@),
                )
            },
            Err(error) => request@.error() is None && request@.mode == ExecutionMode::Wasi
                ==> request@.may_refuse(*canonicalize, error@),
        },
        request@.error() is Some ==> (planned matches Err(error) && error@
            == RuntimeErrorView::Command(request@.error()->0)),
        request@.error() is None && request@.mode != ExecutionMode::Wasi ==> (planned matches Err(
            error,
        ) && error@ is WrongMode),
        forall|canonical: spec_fn(PathView) -> Option<PathView>|
            #[trigger] answers_as(*canonicalize, canonical) ==> match planned {
                Ok(plan) => request@.wasi_refusal(canonical) is None && preopen_views(
                    plan.preopens@,
                ) == preopens_of(request@.grant.filesystems, canonical),
                Err(error) => request@.wasi_refusal(canonical) == Some(error@),
            },
{
    match request.validate() {
        Ok(()) => {},
        Err(error) => {
            return Err(RuntimeError::Command(error));
        },
    }
    if request.mode != ExecutionMode::Wasi {
        return Err(RuntimeError::WrongMode);
    }
    if !request.grant.allows_existing_path(&request.cwd, canonicalize) {
        return Err(RuntimeError::Command(CommandError::WorkingDirectoryDenied(request.cwd.clone())));
    }
    let environment = selected_environment(&request.grant, provider);
    let network = NetworkPolicy::from_grant(&request.grant);
    let filesystems = request.grant.filesystem_grants();
    let ghost all = request@.grant.filesystems;
    let mut preopens: Vec<Preopen> = Vec::new();
    let mut cwd_guest: Option<String> = None;
    let mut i: usize = 0;
    assert(all.take(0) =~= Seq::empty());
    while i < filesystems.len()
        invariant
            i <= filesystems.len(),
            filesystem_views(filesystems@) == all,
            all == request@.grant.filesystems,
            request@.error() is None,
            request@.mode == ExecutionMode::Wasi,
            request@.grant.may_decide(request@.cwd, *canonicalize, true),
            may_open(*canonicalize, all.take(i as int), preopen_views(preopens@)),
            forall|asked: &HostPath| call_requires(*canonicalize, (asked,)),
            forall|canonical: spec_fn(PathView) -> Option<PathView>|
                #[trigger] answers_as(*canonicalize, canonical)
                    ==> request@.grant.allows_existing_path(request@.cwd, canonical)
                    && first_unresolved(all.take(i as int), canonical) is None && preopen_views(
                    preopens@,
                ) =~= preopens_of(all.take(i as int), canonical),
            match cwd_guest {
                Some(seen) => first_guest_path(
                    all.take(i as int),
                    request@.cwd,
                    separator,
                ) == Some(seen@),
                None => first_guest_path(all.take(i as int), request@.cwd, separator) is None,
            },
        decreases filesystems.len() - i,
    {
        let ghost so_far = all.take(i as int);
        let ghost longer = all.take(i + 1);
        assert(longer.drop_last() =~= so_far);
        assert(longer.last() == filesystems@[i as int]@);
        proof {
            assert forall|canonical: spec_fn(PathView) -> Option<PathView>| #[trigger]
                answers_as(*canonicalize, canonical) && canonical(
                    longer.last().root,
                ) is None implies first_unresolved(all, canonical) == Some(longer.last().root) by {
                lemma_first_unresolved_found(all, i as int, canonical);
            }
        }
        let filesystem = &filesystems[i];
        let guest = guest_root_at(i);
        let asked = filesystem.root();
        let answer = canonicalize(asked);
        assert(call_ensures(*canonicalize, (asked,), answer));
        assert(may_answer(*canonicalize, all[i as int].root, path_option(answer)));
        match answer {
            None => {
                return Err(
                    RuntimeError::Command(CommandError::WorkingDirectoryDenied(asked.clone())),
                );
            },
            Some(host_root) => {
                match &cwd_guest {
                    None => {
                        cwd_guest = filesystem.guest_path_for(
                            &request.cwd,
                            guest.as_str(),
                            separator,
                        );
                    },
                    Some(_) => {},
                }
                let ghost before = preopen_views(preopens@);
                let preopen = Preopen {
                    host_root,
                    guest_root: guest,
                    access: filesystem.access(),
                };
                let ghost added = preopen@;
                preopens.push(preopen);
                assert(preopen_views(preopens@) =~= before.push(added));
                assert(may_open(*canonicalize, longer, before.push(added)));
                proof {
                    assert forall|canonical: spec_fn(PathView) -> Option<PathView>| #[trigger]
                        answers_as(*canonicalize, canonical) implies preopen_views(preopens@)
                        =~= preopens_of(longer, canonical) by {
                        assert(preopens_of(longer, canonical) =~= preopens_of(
                            so_far,
                            canonical,
                        ).push(added));
                    }
                }
            },
        }
        i += 1;
    }
    assert(all.take(i as int) =~= all);
    let initial_cwd = match cwd_guest {
        Some(seen) => seen,
        None => "/workspace".to_owned(),
    };
    let limits = request.grant.limits();
    Ok(
        StorePlan {
            args: clone_texts(&request.args),
            environment,
            network,
            preopens,
            initial_cwd,
            memory_bytes: limits.max_memory_bytes(),
            instances: MAX_STORE_ITEMS,
            tables: MAX_STORE_ITEMS,
            memories: MAX_STORE_ITEMS,
            fuel: limits.max_fuel(),
            epoch_ticks: epoch_ticks(limits),
        },
    )
}

/// A root that does not resolve, with every earlier one resolving, is the first that does not.
proof fn lemma_first_unresolved_found(
    filesystems: Seq<FilesystemView>,
    at: int,
    canonical: spec_fn(PathView) -> Option<PathView>,
)
    requires
        0 <= at < filesystems.len(),
        first_unresolved(filesystems.take(at), canonical) is None,
        canonical(filesystems[at].root) is None,
    ensures
        first_unresolved(filesystems, canonical) == Some(filesystems[at].root),
    decreases filesystems.len(),
{
    if at == filesystems.len() - 1 {
        assert(filesystems.drop_last() =~= filesystems.take(at));
    } else {
        assert(filesystems.drop_last().take(at) =~= filesystems.take(at));
        lemma_first_unresolved_found(filesystems.drop_last(), at, canonical);
    }
}

/// Memory, instructions and wall-clock time of every guest are bounded, and so is how many
/// instances, tables and memories it has.
pub proof fn law_every_plan_bounds_its_guest(
    plan: StorePlan,
    request: RequestView,
    separator: Separator,
)
    requires
        plan.follows(request, separator),
        request.grant.valid(),
    ensures
        0 < plan.memory_bytes == request.grant.limits.max_memory_bytes,
        0 < plan.fuel == request.grant.limits.max_fuel,
        0 < plan.epoch_ticks <= 10 * request.grant.limits.timeout_seconds,
        plan.instances == MAX_STORE_ITEMS,
        plan.tables == MAX_STORE_ITEMS,
        plan.memories == MAX_STORE_ITEMS,
{
}

/// A request whose working directory leaves the grant once links are resolved never gets a store,
/// nor does one with a granted root that does not exist.
pub proof fn law_escaping_requests_are_refused(
    request: RequestView,
    canonical: spec_fn(PathView) -> Option<PathView>,
)
    ensures
        !request.grant.allows_existing_path(request.cwd, canonical) ==> request.wasi_refusal(
            canonical,
        ) is Some,
        first_unresolved(request.grant.filesystems, canonical) is Some ==> request.wasi_refusal(
            canonical,
        ) is Some,
{
}

/// The wall-clock limit is counted in ticks of a tenth of a second, as far as ticks can be counted:
/// a second more is ten ticks more, up to the largest count.
pub proof fn law_a_second_is_ten_ticks(limits: LimitsView)
    requires
        limits.timeout_seconds > 0,
    ensures
        10 * limits.timeout_seconds <= u64::MAX ==> epoch_ticks_of(limits) == 10
            * limits.timeout_seconds,
        10 * limits.timeout_seconds > u64::MAX ==> epoch_ticks_of(limits) == u64::MAX,
{
}

/// A guest sees the first granted root as its workspace and each further one under its number, so
/// no two at the same place.
pub proof fn law_guest_roots_differ(one: nat, other: nat)
    ensures
        guest_root(0) == "/workspace"@,
        one > 0 ==> guest_root(one) == "/grant-"@ + decimal(one),
        one != other ==> guest_root(one) != guest_root(other),
{
    reveal_strlit("/workspace");
    reveal_strlit("/grant-");
    if one != other {
        if one > 0 && other > 0 {
            law_decimals_differ(one, other);
            if guest_root(one) == guest_root(other) {
                assert(guest_root(one).skip(7) =~= decimal(one));
                assert(guest_root(other).skip(7) =~= decimal(other));
            }
        } else {
            assert(guest_root(0)[1] == 'w');
            let further = if one > 0 {
                one
            } else {
                other
            };
            assert(guest_root(further)[1] == 'g');
        }
    }
}

/// A granted root is reported as missing exactly if it does not resolve and every root before it
/// does.
pub proof fn law_the_first_missing_root_is_reported(
    filesystems: Seq<FilesystemView>,
    canonical: spec_fn(PathView) -> Option<PathView>,
)
    ensures
        first_unresolved(filesystems, canonical) is None <==> forall|i: int|
            0 <= i < filesystems.len() ==> canonical((#[trigger] filesystems[i]).root) is Some,
        first_unresolved(filesystems, canonical) matches Some(root) ==> exists|at: int|
            0 <= at < filesystems.len() && root == (#[trigger] filesystems[at]).root && canonical(
                root,
            ) is None && forall|i: int|
                0 <= i < at ==> canonical((#[trigger] filesystems[i]).root) is Some,
    decreases filesystems.len(),
{
    if filesystems.len() > 0 {
        let init = filesystems.drop_last();
        let last = filesystems.len() - 1;
        law_the_first_missing_root_is_reported(init, canonical);
        assert forall|i: int| 0 <= i < init.len() implies #[trigger] filesystems[i] == init[i] by {}
        if first_unresolved(init, canonical) is Some {
            let at = choose|at: int|
                0 <= at < init.len() && first_unresolved(init, canonical)->0 == (
                #[trigger] init[at]).root && canonical(first_unresolved(init, canonical)->0) is None
                    && forall|i: int|
                    0 <= i < at ==> canonical((#[trigger] init[i]).root) is Some;
            assert(filesystems[at].root == first_unresolved(init, canonical)->0);
            assert forall|i: int| 0 <= i < at implies canonical(
                (#[trigger] filesystems[i]).root,
            ) is Some by {
                assert(init[i] == filesystems[i]);
            }
        } else {
            assert forall|i: int| 0 <= i < last implies canonical(
                (#[trigger] filesystems[i]).root,
            ) is Some by {
                assert(init[i] == filesystems[i]);
            }
            assert(filesystems[last] == filesystems.last());
        }
    }
}

/// Which requests get a store where links are settled: those that are valid, for this backend, start
/// inside the grant once links are resolved, and have every granted root resolve. A request that is
/// refused is told the first of these that fails.
pub proof fn law_requests_are_refused_for_the_first_fault(
    request: RequestView,
    canonical: spec_fn(PathView) -> Option<PathView>,
)
    ensures
        request.wasi_refusal(canonical) is None <==> {
            &&& request.error() is None
            &&& request.mode == ExecutionMode::Wasi
            &&& request.grant.allows_existing_path(request.cwd, canonical)
            &&& forall|i: int|
                0 <= i < request.grant.filesystems.len() ==> canonical(
                    (#[trigger] request.grant.filesystems[i]).root,
                ) is Some
        },
        request.error() matches Some(error) ==> request.wasi_refusal(canonical) == Some(
            RuntimeErrorView::Command(error),
        ),
        request.error() is None && request.mode == ExecutionMode::Native ==> request.wasi_refusal(
            canonical,
        ) == Some(RuntimeErrorView::WrongMode),
        request.error() is None && request.mode == ExecutionMode::Wasi
            && !request.grant.allows_existing_path(request.cwd, canonical) ==> request.wasi_refusal(
            canonical,
        ) == Some(
            RuntimeErrorView::Command(CommandErrorView::WorkingDirectoryDenied(request.cwd)),
        ),
{
    law_the_first_missing_root_is_reported(request.grant.filesystems, canonical);
}

/// Where links are settled, each granted root is opened, in order: what it resolves to, with the
/// access that was granted, under its own place for the guest.
pub proof fn law_every_root_is_opened_as_granted(
    filesystems: Seq<FilesystemView>,
    canonical: spec_fn(PathView) -> Option<PathView>,
    at: int,
)
    requires
        0 <= at < filesystems.len(),
        canonical(filesystems[at].root) is Some,
    ensures
        preopens_of(filesystems, canonical).len() == filesystems.len(),
        ({
            let opened = preopens_of(filesystems, canonical)[at];
            &&& Some(opened.host_root) == canonical(filesystems[at].root)
            &&& opened.access == filesystems[at].access
            &&& opened.guest_root == guest_root(at as nat)
        }),
{
}

/// A guest starts where the first granted root that shows its working directory shows it, and in the
/// workspace if none does.
pub proof fn law_guests_start_in_their_directory(
    grant: GrantView,
    cwd: PathView,
    separator: Separator,
    at: int,
)
    requires
        0 <= at < grant.filesystems.len(),
        grant.filesystems[at].guest_path(cwd, guest_root(at as nat), separator) is Some,
        forall|i: int|
            0 <= i < at ==> (#[trigger] grant.filesystems[i]).guest_path(
                cwd,
                guest_root(i as nat),
                separator,
            ) is None,
    ensures
        Some(guest_cwd(grant, cwd, separator)) == grant.filesystems[at].guest_path(
            cwd,
            guest_root(at as nat),
            separator,
        ),
{
    lemma_first_shown(grant.filesystems, cwd, separator, at);
}

/// The first root that shows a path decides.
proof fn lemma_first_shown(
    filesystems: Seq<FilesystemView>,
    cwd: PathView,
    separator: Separator,
    at: int,
)
    requires
        0 <= at < filesystems.len(),
        filesystems[at].guest_path(cwd, guest_root(at as nat), separator) is Some,
        forall|i: int|
            0 <= i < at ==> (#[trigger] filesystems[i]).guest_path(
                cwd,
                guest_root(i as nat),
                separator,
            ) is None,
    ensures
        first_guest_path(filesystems, cwd, separator) == filesystems[at].guest_path(
            cwd,
            guest_root(at as nat),
            separator,
        ),
    decreases filesystems.len(),
{
    let init = filesystems.drop_last();
    if at < init.len() {
        assert(init[at] == filesystems[at]);
        assert forall|i: int| 0 <= i < at implies (#[trigger] init[i]).guest_path(
            cwd,
            guest_root(i as nat),
            separator,
        ) is None by {
            assert(init[i] == filesystems[i]);
        }
        lemma_first_shown(init, cwd, separator, at);
    } else {
        assert forall|i: int| 0 <= i < init.len() implies (#[trigger] init[i]).guest_path(
            cwd,
            guest_root(i as nat),
            separator,
        ) is None by {
            assert(init[i] == filesystems[i]);
        }
        lemma_none_shown(init, cwd, separator);
        assert(filesystems.last() == filesystems[at]);
    }
}

/// Where no root shows a path, it is not seen.
proof fn lemma_none_shown(filesystems: Seq<FilesystemView>, cwd: PathView, separator: Separator)
    requires
        forall|i: int|
            0 <= i < filesystems.len() ==> (#[trigger] filesystems[i]).guest_path(
                cwd,
                guest_root(i as nat),
                separator,
            ) is None,
    ensures
        first_guest_path(filesystems, cwd, separator) is None,
    decreases filesystems.len(),
{
    if filesystems.len() > 0 {
        let init = filesystems.drop_last();
        assert forall|i: int| 0 <= i < init.len() implies (#[trigger] init[i]).guest_path(
            cwd,
            guest_root(i as nat),
            separator,
        ) is None by {
            assert(init[i] == filesystems[i]);
        }
        lemma_none_shown(init, cwd, separator);
        assert(filesystems.last() == filesystems[filesystems.len() - 1]);
    }
}

/// A guest whose working directory no granted root shows starts in the workspace.
pub proof fn law_guests_start_in_the_workspace_otherwise(
    grant: GrantView,
    cwd: PathView,
    separator: Separator,
)
    requires
        forall|i: int|
            0 <= i < grant.filesystems.len() ==> (#[trigger] grant.filesystems[i]).guest_path(
                cwd,
                guest_root(i as nat),
                separator,
            ) is None,
    ensures
        guest_cwd(grant, cwd, separator) == "/workspace"@,
{
    lemma_none_shown(grant.filesystems, cwd, separator);
}

/// A plan hands the guest its own arguments, its own starting place, exactly the sockets of its
/// grant, and the limits of its grant.
pub proof fn law_plans_hold_what_was_granted(
    plan: StorePlan,
    request: RequestView,
    separator: Separator,
)
    requires
        plan.follows(request, separator),
    ensures
        texts(plan.args@) == request.args,
        plan.initial_cwd@ == guest_cwd(request.grant, request.cwd, separator),
        plan.network@.connect_ports == request.grant.connect_ports,
        plan.network@.bind_ports == request.grant.bind_ports,
        plan.memory_bytes == request.grant.limits.max_memory_bytes,
        plan.fuel == request.grant.limits.max_fuel,
        plan.epoch_ticks == epoch_ticks_of(request.grant.limits),
{
}

/// The text for an error names what failed and ends with what went wrong inside, as it is shown.
pub proof fn law_messages_end_with_their_cause(error: RuntimeErrorView, shown: Seq<char>)
    ensures
        error is Engine ==> error.message_with(shown) == "failed to create Wasmtime engine: "@
            + shown,
        error is Component ==> error.message_with(shown) == "component admission failed: "@ + shown,
        error is Wasi ==> error.message_with(shown) == "WASI execution failed: "@ + shown,
        error matches RuntimeErrorView::Command(fault) ==> error.message_with(shown)
            == "invalid WASI request: "@ + fault.message(),
        error is WrongMode ==> error.message_with(shown)
            == "WASI backend received a non-WASI request"@,
        error is Cancelled ==> error.message_with(shown) == "session was cancelled"@,
{
}

/// Whatever is answered about links, each granted root is opened once, in order, as an answer for
/// it, with the access that was granted; and a valid request for this backend is refused only for
/// its working directory or for a root that was answered to be missing.
pub proof fn law_stores_rest_on_answers<F: Fn(&HostPath) -> Option<HostPath>>(
    canonicalize: F,
    request: RequestView,
    preopens: Seq<PreopenView>,
    error: RuntimeErrorView,
)
    ensures
        may_open(canonicalize, request.grant.filesystems, preopens) ==> preopens.len()
            == request.grant.filesystems.len() && forall|i: int|
            0 <= i < preopens.len() ==> may_answer(
                canonicalize,
                request.grant.filesystems[i].root,
                Some((#[trigger] preopens[i]).host_root),
            ) && preopens[i].access == request.grant.filesystems[i].access
                && preopens[i].guest_root == guest_root(i as nat),
        request.may_refuse(canonicalize, error) ==> (error matches RuntimeErrorView::Command(
            CommandErrorView::WorkingDirectoryDenied(path),
        ) && {
            ||| path == request.cwd && request.grant.may_decide(request.cwd, canonicalize, false)
            ||| may_answer(canonicalize, path, None) && exists|i: int|
                0 <= i < request.grant.filesystems.len() && path == (
                #[trigger] request.grant.filesystems[i]).root
        }),
{
}

/// The environment of a plan rests on what the host answered, granted name by granted name.
pub proof fn law_plan_environments_rest_on_answers<E: Fn(&str) -> Option<String>>(
    plan: StorePlan,
    grant: GrantView,
    provider: E,
    host: spec_fn(Seq<char>) -> Option<Seq<char>>,
    name: Seq<char>,
    value: Seq<char>,
)
    requires
        plan.environment_follows(grant, provider),
    ensures
        may_select(provider, grant.environment, pair_texts(plan.environment@)),
        reads_as(provider, host) ==> (pair_texts(plan.environment@).contains((name, value))
            <==> grant.environment.contains(name) && host(name) == Some(value)),
{
    if reads_as(provider, host) {
        let names = choose|names: Seq<Seq<char>>|
            #![trigger strictly_sorted(names)]
            strictly_sorted(names) && names.to_set() == grant.environment && forall|
                host: spec_fn(Seq<char>) -> Option<Seq<char>>,
            | #[trigger]
                reads_as(provider, host) ==> pair_texts(plan.environment@) == known_names(
                    names,
                    host,
                );
        law_environment_is_what_is_granted_and_known(names, host, name, value);
    }
}

} // verus!
