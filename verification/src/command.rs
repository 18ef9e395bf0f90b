//! Version-neutral command and terminal-session contracts.

use vstd::prelude::*;

use crate::capability::{
    law_names_below_an_allowed_path_are_allowed, CapabilityGrant, GrantView, LimitsView,
    ResourceLimits,
};
use crate::path::{ComponentView, HostPath, PathNameView, PathView};
use crate::text::{clone_texts, contains_char, labelled, texts};

verus! {

/// The principal requesting an execution.
#[derive(Clone, Copy, Debug, PartialEq, Eq, Structural)]
pub enum Actor {
    /// The human deliberately using the sandbox.
    Human,
    /// The primary agent.
    Agent,
    /// A constrained specialist agent.
    Subagent,
    /// A versioned WASM skill.
    Skill,
}

/// The execution backend selected by policy.
#[derive(Clone, Copy, Debug, PartialEq, Eq, Structural)]
pub enum ExecutionMode {
    /// Run a capability-scoped WASI component.
    Wasi,
    /// Run a native process through a platform policy adapter.
    Native,
}

/// A command request before a backend starts it.
#[derive(Debug, PartialEq, Eq)]
pub struct CommandRequest {
    /// Stable session identifier supplied by the caller.
    pub id: u64,
    /// Requesting principal.
    pub actor: Actor,
    /// Backend selected by the caller and checked by policy.
    pub mode: ExecutionMode,
    /// Executable/component name.
    pub program: String,
    /// Structured arguments; never a shell command string.
    pub args: Vec<String>,
    /// Absolute, capability-scoped working directory.
    pub cwd: HostPath,
    /// Authority and limits for this request.
    pub grant: CapabilityGrant,
}

/// What a [`CommandRequest`] stands for.
#[verifier::ext_equal]
pub struct RequestView {
    /// Session identifier.
    pub id: u64,
    /// Requesting principal.
    pub actor: Actor,
    /// Selected backend.
    pub mode: ExecutionMode,
    /// Executable/component name.
    pub program: Seq<char>,
    /// Structured arguments.
    pub args: Seq<Seq<char>>,
    /// Working directory.
    pub cwd: PathView,
    /// Authority and limits.
    pub grant: GrantView,
}

impl View for CommandRequest {
    type V = RequestView;

    open spec fn view(&self) -> RequestView {
        RequestView {
            id: self.id,
            actor: self.actor,
            mode: self.mode,
            program: self.program@,
            args: texts(self.args@),
            cwd: self.cwd@,
            grant: self.grant@,
        }
    }
}

impl Clone for CommandRequest {
    fn clone(&self) -> (copy: Self)
        ensures
            copy@ == self@,
    {
        CommandRequest {
            id: self.id,
            actor: self.actor,
            mode: self.mode,
            program: self.program.clone(),
            args: clone_texts(&self.args),
            cwd: self.cwd.clone(),
            grant: self.grant.clone(),
        }
    }
}

impl RequestView {
    /// The first reason why the request may not start, if there is one.
    pub open spec fn error(self) -> Option<CommandErrorView> {
        if self.program.len() == 0 || self.program.contains('\0') {
            Some(CommandErrorView::InvalidProgram)
        } else if exists|i: int| 0 <= i < self.args.len() && (#[trigger] self.args[i]).contains('\0') {
            Some(CommandErrorView::InvalidArgument)
        } else if self.mode == ExecutionMode::Native && !self.grant.native_execution {
            Some(CommandErrorView::NativeNotGranted)
        } else if !self.grant.allows_path(self.cwd) {
            Some(CommandErrorView::WorkingDirectoryDenied(self.cwd))
        } else {
            None
        }
    }
}

impl CommandRequest {
    /// Construct a request while preserving each argument as a separate value.
    pub fn new(
        id: u64,
        actor: Actor,
        mode: ExecutionMode,
        program: String,
        args: Vec<String>,
        cwd: HostPath,
        grant: CapabilityGrant,
    ) -> (made: Result<Self, CommandError>)
        ensures
            ({
                let wanted = CommandRequest { id, actor, mode, program, args, cwd, grant };
                match made {
                    Ok(request) => wanted@.error() is None && request == wanted,
                    Err(error) => wanted@.error() == Some(error@),
                }
            }),
    {
        let request = CommandRequest { id, actor, mode, program, args, cwd, grant };
        match request.validate() {
            Ok(()) => Ok(request),
            Err(error) => Err(error),
        }
    }

    /// Validate the request before any backend or host side effect begins.
    pub fn validate(&self) -> (checked: Result<(), CommandError>)
        ensures
            match checked {
                Ok(()) => self@.error() is None,
                Err(error) => self@.error() == Some(error@),
            },
    {
        if self.program.as_str().is_empty() || contains_nul(self.program.as_str()) {
            return Err(CommandError::InvalidProgram);
        }
        let mut i: usize = 0;
        while i < self.args.len()
            invariant
                i <= self.args.len(),
                self@.program.len() > 0,
                !self@.program.contains('\0'),
                forall|k: int| 0 <= k < i ==> !(#[trigger] self@.args[k]).contains('\0'),
            decreases self.args.len() - i,
        {
            assert(self@.args[i as int] == self.args@[i as int]@);
            if contains_nul(self.args[i].as_str()) {
                return Err(CommandError::InvalidArgument);
            }
            i += 1;
        }
        if self.mode == ExecutionMode::Native && !self.grant.allows_native_execution() {
            return Err(CommandError::NativeNotGranted);
        }
        if !self.grant.allows_path(&self.cwd) {
            return Err(CommandError::WorkingDirectoryDenied(self.cwd.clone()));
        }
        Ok(())
    }
}

/// Whether a text holds a NUL character.
fn contains_nul(value: &str) -> (found: bool)
    ensures
        found == value@.contains('\0'),
{
    contains_char(value, '\0')
}

/// Errors that prevent a command from starting.
#[derive(Debug, PartialEq, Eq)]
pub enum CommandError {
    /// The executable name was empty or contained a NUL byte.
    InvalidProgram,
    /// An argument contained a NUL byte.
    InvalidArgument,
    /// Native execution was not granted.
    NativeNotGranted,
    /// The working directory was outside the grant.
    WorkingDirectoryDenied(HostPath),
    /// The lifecycle event was not valid for the current state.
    InvalidTransition(&'static str),
    /// The output budget would be exceeded.
    OutputLimit,
}

/// What a [`CommandError`] stands for.
pub enum CommandErrorView {
    /// The executable name was empty or contained a NUL byte.
    InvalidProgram,
    /// An argument contained a NUL byte.
    InvalidArgument,
    /// Native execution was not granted.
    NativeNotGranted,
    /// The working directory was outside the grant.
    WorkingDirectoryDenied(PathView),
    /// The lifecycle event was not valid for the current state.
    InvalidTransition(Seq<char>),
    /// The output budget would be exceeded.
    OutputLimit,
}

impl View for CommandError {
    type V = CommandErrorView;

    open spec fn view(&self) -> CommandErrorView {
        match self {
            CommandError::InvalidProgram => CommandErrorView::InvalidProgram,
            CommandError::InvalidArgument => CommandErrorView::InvalidArgument,
            CommandError::NativeNotGranted => CommandErrorView::NativeNotGranted,
            CommandError::WorkingDirectoryDenied(path) => CommandErrorView::WorkingDirectoryDenied(
                path@,
            ),
            CommandError::InvalidTransition(reason) => CommandErrorView::InvalidTransition(reason@),
            CommandError::OutputLimit => CommandErrorView::OutputLimit,
        }
    }
}

impl Clone for CommandError {
    fn clone(&self) -> (copy: Self)
        ensures
            copy@ == self@,
    {
        match self {
            CommandError::InvalidProgram => CommandError::InvalidProgram,
            CommandError::InvalidArgument => CommandError::InvalidArgument,
            CommandError::NativeNotGranted => CommandError::NativeNotGranted,
            CommandError::WorkingDirectoryDenied(path) => CommandError::WorkingDirectoryDenied(
                path.clone(),
            ),
            CommandError::InvalidTransition(reason) => CommandError::InvalidTransition(*reason),
            CommandError::OutputLimit => CommandError::OutputLimit,
        }
    }
}

impl CommandErrorView {
    /// The text shown for the error.
    pub open spec fn message(self) -> Seq<char> {
        match self {
            CommandErrorView::InvalidProgram => "invalid program"@,
            CommandErrorView::InvalidArgument => "invalid command argument"@,
            CommandErrorView::NativeNotGranted =>
                "native execution requires an explicit capability grant"@,
            CommandErrorView::WorkingDirectoryDenied(path) => "working directory denied: "@
                + path.shown(),
            CommandErrorView::InvalidTransition(reason) =>
                "invalid terminal lifecycle transition: "@ + reason,
            CommandErrorView::OutputLimit => "output limit exceeded"@,
        }
    }
}

impl CommandError {
    /// The text shown for the error.
    pub fn message(&self) -> (text: String)
        ensures
            text@ == self@.message(),
    {
        match self {
            CommandError::InvalidProgram => "invalid program".to_owned(),
            CommandError::InvalidArgument => "invalid command argument".to_owned(),
            CommandError::NativeNotGranted =>
                "native execution requires an explicit capability grant".to_owned(),
            CommandError::WorkingDirectoryDenied(path) => labelled(
                "working directory denied: ",
                path.to_text(),
            ),
            CommandError::InvalidTransition(reason) => labelled(
                "invalid terminal lifecycle transition: ",
                (*reason).to_owned(),
            ),
            CommandError::OutputLimit => "output limit exceeded".to_owned(),
        }
    }
}

/// Why a session needs human approval before it can start.
#[derive(Clone, Copy, Debug, PartialEq, Eq, Structural)]
pub enum ApprovalReason {
    /// The command may write below a granted filesystem root.
    FilesystemWrite,
    /// The command may open loopback TCP sockets.
    NetworkAccess,
    /// The command reads environment variables.
    EnvironmentAccess,
    /// The command requested native process execution.
    NativeExecution,
}

/// Which output stream produced a chunk.
#[derive(Clone, Copy, Debug, PartialEq, Eq, Structural)]
pub enum Stream {
    /// Standard output.
    Stdout,
    /// Standard error.
    Stderr,
}

/// Events emitted by WASI and native terminal backends.
#[derive(Clone, Debug, PartialEq, Eq)]
pub enum SessionEvent {
    /// Backend accepted and started the request.
    Started,
    /// The session is parked waiting for a human approval decision.
    PendingApproval {
        /// Why this session needs approval.
        reason: ApprovalReason,
    },
    /// A bounded output chunk.
    Output {
        /// Output stream.
        stream: Stream,
        /// Raw bytes; rendering/sanitization belongs at the UI boundary.
        bytes: Vec<u8>,
    },
    /// Process/component exited normally or with an exit code.
    Exited {
        /// Exit code, if the backend supplied one.
        code: Option<i32>,
    },
    /// Session was cancelled by policy or the operator.
    Cancelled,
    /// Request was denied before starting.
    Denied,
    /// Requested backend is unavailable on this host.
    Unsupported,
}

/// Where a session stands.
#[derive(Clone, Copy, Debug, PartialEq, Eq, Structural)]
pub enum Lifecycle {
    /// Nothing happened yet.
    Created,
    /// Parked until a human decides.
    WaitingApproval,
    /// The guest runs.
    Running,
    /// The session is over.
    Finished,
}

/// Validates event ordering and bounds terminal output for one session.
#[derive(Clone, Copy, Debug, PartialEq, Eq)]
pub struct SessionState {
    id: u64,
    limits: ResourceLimits,
    output_bytes: usize,
    lifecycle: Lifecycle,
}

/// What a [`SessionState`] stands for.
#[verifier::ext_equal]
pub struct SessionView {
    /// Session identifier.
    pub id: u64,
    /// Limits of the session.
    pub limits: LimitsView,
    /// Output bytes accepted so far.
    pub output_bytes: nat,
    /// Where the session stands.
    pub lifecycle: Lifecycle,
}

impl View for SessionState {
    type V = SessionView;

    closed spec fn view(&self) -> SessionView {
        SessionView {
            id: self.id,
            limits: self.limits@,
            output_bytes: self.output_bytes as nat,
            lifecycle: self.lifecycle,
        }
    }
}

/// The rejection of an event that does not fit the lifecycle.
pub open spec fn rejected(reason: Seq<char>) -> Result<SessionView, CommandErrorView> {
    Err(CommandErrorView::InvalidTransition(reason))
}

impl SessionView {
    /// A session to which nothing happened yet.
    pub open spec fn created(id: u64, limits: LimitsView) -> SessionView {
        SessionView { id, limits, output_bytes: 0, lifecycle: Lifecycle::Created }
    }

    /// Accepted output never exceeds the budget.
    pub open spec fn within_budget(self) -> bool {
        self.output_bytes <= self.limits.max_output_bytes
    }

    /// The same session at another point of its lifecycle.
    pub open spec fn moved_to(self, lifecycle: Lifecycle) -> SessionView {
        SessionView { lifecycle, ..self }
    }

    /// The session after one event, or why the event is rejected.
    pub open spec fn after(self, event: SessionEvent) -> Result<SessionView, CommandErrorView> {
        match self.lifecycle {
            Lifecycle::Created => match event {
                SessionEvent::Started => Ok(self.moved_to(Lifecycle::Running)),
                SessionEvent::PendingApproval { reason } => Ok(
                    self.moved_to(Lifecycle::WaitingApproval),
                ),
                SessionEvent::Denied | SessionEvent::Unsupported => Ok(
                    self.moved_to(Lifecycle::Finished),
                ),
                _ => rejected("session has not started"@),
            },
            Lifecycle::WaitingApproval => match event {
                SessionEvent::Started => Ok(self.moved_to(Lifecycle::Running)),
                SessionEvent::Denied | SessionEvent::Unsupported => Ok(
                    self.moved_to(Lifecycle::Finished),
                ),
                _ => rejected("session is awaiting approval"@),
            },
            Lifecycle::Running => match event {
                SessionEvent::Output { stream, bytes } => {
                    let total = self.output_bytes + bytes@.len();
                    if total <= self.limits.max_output_bytes {
                        Ok(SessionView { output_bytes: total, ..self })
                    } else {
                        Err(CommandErrorView::OutputLimit)
                    }
                },
                SessionEvent::Exited { code } => Ok(self.moved_to(Lifecycle::Finished)),
                SessionEvent::Cancelled => Ok(self.moved_to(Lifecycle::Finished)),
                SessionEvent::Started => rejected("session already started"@),
                SessionEvent::PendingApproval { reason } => rejected(
                    "running session cannot await approval"@,
                ),
                SessionEvent::Denied | SessionEvent::Unsupported => rejected(
                    "running session cannot be denied"@,
                ),
            },
            Lifecycle::Finished => rejected("session is finished"@),
        }
    }

    /// The session after a list of events, rejected ones leaving it unchanged.
    pub open spec fn after_all(self, events: Seq<SessionEvent>) -> SessionView
        decreases events.len(),
    {
        if events.len() == 0 {
            self
        } else {
            self.after_all(events.drop_last()).after_or_same(events.last())
        }
    }

    /// The session after one event, unchanged if it is rejected.
    pub open spec fn after_or_same(self, event: SessionEvent) -> SessionView {
        match self.after(event) {
            Ok(next) => next,
            Err(_) => self,
        }
    }
}

impl SessionState {
    /// Accepted output never exceeds the budget.
    #[verifier::type_invariant]
    spec fn within_budget(self) -> bool {
        self@.within_budget()
    }

    /// Create a new session state machine.
    pub fn new(id: u64, limits: ResourceLimits) -> (state: Self)
        ensures
            state@ == SessionView::created(id, limits@),
    {
        SessionState { id, limits, output_bytes: 0, lifecycle: Lifecycle::Created }
    }

    /// Return the session identifier.
    pub fn id(&self) -> (id: u64)
        ensures
            id == self@.id,
    {
        self.id
    }

    /// Return the accepted output byte count.
    pub fn output_bytes(&self) -> (bytes: usize)
        ensures
            bytes as nat == self@.output_bytes,
            self@.within_budget(),
    {
        proof {
            use_type_invariant(self);
        }
        self.output_bytes
    }

    /// Accept one backend event or reject it without changing state.
    pub fn accept(&mut self, event: SessionEvent) -> (accepted: Result<(), CommandError>)
        ensures
            match accepted {
                Ok(()) => old(self)@.after(event) == Ok::<SessionView, CommandErrorView>(
                    final(self)@,
                ),
                Err(error) => final(self)@ == old(self)@ && old(self)@.after(event) == Err::<
                    SessionView,
                    CommandErrorView,
                >(error@),
            },
    {
        proof {
            use_type_invariant(&*self);
        }
        match (self.lifecycle, event) {
            (Lifecycle::Created, SessionEvent::Started) => {
                self.lifecycle = Lifecycle::Running;
                Ok(())
            },
            (Lifecycle::Created, SessionEvent::PendingApproval { .. }) => {
                self.lifecycle = Lifecycle::WaitingApproval;
                Ok(())
            },
            (Lifecycle::WaitingApproval, SessionEvent::Started) => {
                self.lifecycle = Lifecycle::Running;
                Ok(())
            },
            (Lifecycle::WaitingApproval, SessionEvent::Denied | SessionEvent::Unsupported) => {
                self.lifecycle = Lifecycle::Finished;
                Ok(())
            },
            (Lifecycle::Running, SessionEvent::Output { bytes, .. }) => {
                match self.output_bytes.checked_add(bytes.len()) {
                    None => Err(CommandError::OutputLimit),
                    Some(next) => {
                        if next > self.limits.max_output_bytes() {
                            return Err(CommandError::OutputLimit);
                        }
                        self.output_bytes = next;
                        Ok(())
                    },
                }
            },
            (Lifecycle::Running, SessionEvent::Exited { .. } | SessionEvent::Cancelled) => {
                self.lifecycle = Lifecycle::Finished;
                Ok(())
            },
            (Lifecycle::Created, SessionEvent::Denied | SessionEvent::Unsupported) => {
                self.lifecycle = Lifecycle::Finished;
                Ok(())
            },
            (Lifecycle::Created, _) => Err(
                CommandError::InvalidTransition("session has not started"),
            ),
            (Lifecycle::WaitingApproval, _) => Err(
                CommandError::InvalidTransition("session is awaiting approval"),
            ),
            (Lifecycle::Running, SessionEvent::Started) => Err(
                CommandError::InvalidTransition("session already started"),
            ),
            (Lifecycle::Running, SessionEvent::PendingApproval { .. }) => Err(
                CommandError::InvalidTransition("running session cannot await approval"),
            ),
            (Lifecycle::Running, SessionEvent::Denied | SessionEvent::Unsupported) => Err(
                CommandError::InvalidTransition("running session cannot be denied"),
            ),
            (Lifecycle::Finished, _) => Err(CommandError::InvalidTransition("session is finished")),
        }
    }
}

/// Which requests are valid, said of what they ask for: the program is named, neither it nor an
/// argument holds a NUL, native execution is granted where it is asked for, and the working
/// directory is within the grant. Nothing else about a request matters.
pub proof fn law_valid_requests(request: RequestView)
    ensures
        request.error() is None <==> {
            &&& request.program.len() > 0
            &&& !request.program.contains('\0')
            &&& forall|i: int|
                0 <= i < request.args.len() ==> !(#[trigger] request.args[i]).contains('\0')
            &&& request.mode == ExecutionMode::Wasi || request.grant.native_execution
            &&& request.grant.allows_path(request.cwd)
        },
{
}

/// Each reason to refuse a request is reported exactly where it is the first that applies.
pub proof fn law_the_first_fault_is_reported(request: RequestView)
    ensures
        ({
            let named = request.program.len() > 0 && !request.program.contains('\0');
            let plain = forall|i: int|
                0 <= i < request.args.len() ==> !(#[trigger] request.args[i]).contains('\0');
            let granted = request.mode == ExecutionMode::Wasi || request.grant.native_execution;
            let inside = request.grant.allows_path(request.cwd);
            &&& !named <==> request.error() == Some(CommandErrorView::InvalidProgram)
            &&& named && !plain <==> request.error() == Some(CommandErrorView::InvalidArgument)
            &&& named && plain && !granted <==> request.error() == Some(
                CommandErrorView::NativeNotGranted,
            )
            &&& named && plain && granted && !inside <==> request.error() == Some(
                CommandErrorView::WorkingDirectoryDenied(request.cwd),
            )
        }),
{
}

/// Who asks, under which id, and with which plain arguments, does not change whether a request is
/// valid; going deeper below a granted root does not either.
pub proof fn law_validity_does_not_depend_on_who_asks(
    request: RequestView,
    id: u64,
    actor: Actor,
    argument: Seq<char>,
    name: PathNameView,
)
    requires
        request.error() is None,
    ensures
        (RequestView { id, actor, ..request }).error() is None,
        !argument.contains('\0') ==> (RequestView {
            args: request.args.push(argument),
            ..request
        }).error() is None,
        (RequestView {
            cwd: request.cwd.child(ComponentView::Normal(name)),
            ..request
        }).error() is None,
{
    law_names_below_an_allowed_path_are_allowed(request.grant, request.cwd, name);
    let longer = request.args.push(argument);
    assert forall|i: int| 0 <= i < longer.len() && !argument.contains('\0') implies !(
    #[trigger] longer[i]).contains('\0') by {
        if i < request.args.len() {
            assert(longer[i] == request.args[i]);
        }
    }
}

/// How a session starts, waits and ends: which events move it where. It starts from the beginning
/// or from waiting, waits only from the beginning, exits or is cancelled only while it runs, and is
/// denied or found unsupported only before it runs.
pub proof fn law_lifecycle_moves(session: SessionView, event: SessionEvent)
    ensures
        ({
            let before = session.lifecycle == Lifecycle::Created || session.lifecycle
                == Lifecycle::WaitingApproval;
            let running = session.lifecycle == Lifecycle::Running;
            let next = session.after(event);
            &&& event is Started ==> (next is Ok <==> before)
            &&& event is Started && before ==> next == Ok::<SessionView, CommandErrorView>(
                (SessionView { lifecycle: Lifecycle::Running, ..session }),
            )
            &&& event is PendingApproval ==> (next is Ok <==> session.lifecycle
                == Lifecycle::Created)
            &&& event is PendingApproval && session.lifecycle == Lifecycle::Created ==> next == Ok::<
                SessionView,
                CommandErrorView,
            >((SessionView { lifecycle: Lifecycle::WaitingApproval, ..session }))
            &&& event is Denied || event is Unsupported ==> (next is Ok <==> before)
            &&& (event is Denied || event is Unsupported) && before ==> next == Ok::<
                SessionView,
                CommandErrorView,
            >((SessionView { lifecycle: Lifecycle::Finished, ..session }))
            &&& event is Exited || event is Cancelled ==> (next is Ok <==> running)
            &&& (event is Exited || event is Cancelled) && running ==> next == Ok::<
                SessionView,
                CommandErrorView,
            >((SessionView { lifecycle: Lifecycle::Finished, ..session }))
        }),
{
}

/// A running session takes output exactly as long as everything it took fits its budget, and counts
/// every byte; whether a chunk is taken depends on nothing but its length and what is left.
pub proof fn law_output_is_taken_while_it_fits(session: SessionView, stream: Stream, bytes: Vec<u8>)
    requires
        session.lifecycle == Lifecycle::Running,
    ensures
        ({
            let next = session.after(SessionEvent::Output { stream, bytes });
            let total = session.output_bytes + bytes@.len();
            &&& total <= session.limits.max_output_bytes ==> next == Ok::<
                SessionView,
                CommandErrorView,
            >((SessionView { output_bytes: total, ..session }))
            &&& total > session.limits.max_output_bytes ==> next == Err::<
                SessionView,
                CommandErrorView,
            >(CommandErrorView::OutputLimit)
        }),
{
}

/// The text for an error names the fault, and the path or the reason that belongs to it.
pub proof fn law_command_messages(error: CommandErrorView)
    ensures
        error is InvalidProgram ==> error.message() == "invalid program"@,
        error is InvalidArgument ==> error.message() == "invalid command argument"@,
        error is NativeNotGranted ==> error.message()
            == "native execution requires an explicit capability grant"@,
        error matches CommandErrorView::WorkingDirectoryDenied(path) ==> error.message()
            == "working directory denied: "@ + path.shown(),
        error matches CommandErrorView::InvalidTransition(reason) ==> error.message()
            == "invalid terminal lifecycle transition: "@ + reason,
        error is OutputLimit ==> error.message() == "output limit exceeded"@,
{
}

} // verus!
