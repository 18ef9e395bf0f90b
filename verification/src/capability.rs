//! Explicit authority granted to one execution session.

use std::collections::BTreeSet;

use vstd::prelude::*;

use crate::path::{
    alike, all_text, answers_as, canonicalize_with_existing_parent, is_separator, is_text, joined,
    law_settled_answers_settle_resolution, may_answer, may_resolve, needs_separator, path_option,
    separates, ComponentView, HostPath, PathNameView, PathView, Separator,
};
use crate::text::{
    chars_of, clone_texts, contains_char, contains_name, decimal, insert_name, labelled, show_decimal,
    strictly_sorted, texts,
};

verus! {

/// Errors produced while constructing a capability grant.
#[derive(Debug, PartialEq, Eq)]
pub enum CapabilityError {
    /// A path was not absolute or contained a parent-directory component.
    InvalidPath(HostPath),
    /// A resource limit was zero and could not bound the operation.
    InvalidLimit {
        /// Name of the invalid limit.
        name: &'static str,
    },
    /// An environment variable name was malformed.
    InvalidEnvironmentName(String),
    /// A loopback port of zero was allowlisted; port 0 has no legitimate
    /// meaning and on bind means "any ephemeral port".
    InvalidLoopbackPort(u16),
}

impl CapabilityError {
    /// The text shown for the error.
    pub open spec fn text(self) -> Seq<char> {
        match self {
            CapabilityError::InvalidPath(path) =>
                "capability path must be absolute and cannot contain `..`: "@ + path@.shown(),
            CapabilityError::InvalidLimit { name } => name@ + " must be greater than zero"@,
            CapabilityError::InvalidEnvironmentName(name) => "invalid environment variable name: "@
                + name@,
            CapabilityError::InvalidLoopbackPort(port) =>
                "loopback port must be greater than zero: "@ + decimal(port as nat),
        }
    }

    /// The text shown for the error.
    pub fn message(&self) -> (text: String)
        ensures
            text@ == self.text(),
    {
        match self {
            CapabilityError::InvalidPath(path) => labelled(
                "capability path must be absolute and cannot contain `..`: ",
                path.to_text(),
            ),
            CapabilityError::InvalidLimit { name } => labelled(
                name,
                " must be greater than zero".to_owned(),
            ),
            CapabilityError::InvalidEnvironmentName(name) => labelled(
                "invalid environment variable name: ",
                name.clone(),
            ),
            CapabilityError::InvalidLoopbackPort(port) => labelled(
                "loopback port must be greater than zero: ",
                show_decimal(*port as u64),
            ),
        }
    }
}

/// Filesystem authority for one granted root.
#[derive(Clone, Copy, Debug, PartialEq, Eq, Structural)]
pub enum FilesystemAccess {
    /// Read files and list directories.
    Read,
    /// Read, create, modify, rename, and remove within the root.
    ReadWrite,
}

/// A filesystem root and the operations allowed below it.
#[derive(Debug, PartialEq, Eq)]
pub struct FilesystemGrant {
    root: HostPath,
    access: FilesystemAccess,
}

/// What a [`FilesystemGrant`] stands for.
#[verifier::ext_equal]
pub struct FilesystemView {
    /// The granted root.
    pub root: PathView,
    /// The operations allowed below it.
    pub access: FilesystemAccess,
}

impl View for FilesystemGrant {
    type V = FilesystemView;

    closed spec fn view(&self) -> FilesystemView {
        FilesystemView { root: self.root@, access: self.access }
    }
}

impl Clone for FilesystemGrant {
    fn clone(&self) -> (copy: Self)
        ensures
            copy@ == self@,
    {
        proof {
            use_type_invariant(self);
        }
        FilesystemGrant { root: self.root.clone(), access: self.access }
    }
}

impl FilesystemView {
    /// Whether a path is lexically below the root.
    pub open spec fn allows(self, path: PathView) -> bool {
        path.safe_absolute() && path.starts_with(self.root)
    }

    /// Where the guest sees a path below the root, with the root seen at `guest_root`.
    ///
    /// What the path was given as below the root is kept as it is written, behind `separator`, the
    /// separator that the host writes. A path outside the root, and one whose names below it are
    /// not valid text, is not seen.
    pub open spec fn guest_path(
        self,
        path: PathView,
        guest_root: Seq<char>,
        separator: Separator,
    ) -> Option<Seq<char>> {
        let start = self.root.components.len() as int;
        let below = path.components.skip(start);
        if !self.allows(path) || !all_text(below) {
            None
        } else if below.len() == 0 {
            Some(guest_root)
        } else if guest_root.len() == 0 || is_separator(guest_root.last(), separator, false) {
            Some(guest_root + path.part_from(start, separator))
        } else {
            Some(guest_root + seq![separator.symbol()] + path.part_from(start, separator))
        }
    }
}

impl FilesystemGrant {
    /// The root is absolute and lexically safe.
    #[verifier::type_invariant]
    spec fn safe_root(self) -> bool {
        self.root@.safe_absolute()
    }

    /// Construct a grant for an absolute, lexically safe root.
    pub fn new(root: HostPath, access: FilesystemAccess) -> (made: Result<Self, CapabilityError>)
        ensures
            match made {
                Ok(grant) => root@.safe_absolute() && grant@ == (FilesystemView {
                    root: root@,
                    access,
                }),
                Err(error) => !root@.safe_absolute() && error == CapabilityError::InvalidPath(root),
            },
    {
        match validate_path(&root) {
            true => Ok(FilesystemGrant { root, access }),
            false => Err(CapabilityError::InvalidPath(root)),
        }
    }

    /// Return the granted root.
    pub fn root(&self) -> (root: &HostPath)
        ensures
            root@ == self@.root,
            root@.safe_absolute(),
    {
        proof {
            use_type_invariant(self);
        }
        &self.root
    }

    /// Return the granted access level.
    pub fn access(&self) -> (access: FilesystemAccess)
        ensures
            access == self@.access,
    {
        self.access
    }

    /// Whether a path is lexically below the root.
    pub fn allows(&self, path: &HostPath) -> (allowed: bool)
        ensures
            allowed == self@.allows(path@),
    {
        path.is_safe_absolute() && path.starts_with(&self.root)
    }

    /// Where the guest sees a path below the root, with the root seen at `guest_root`.
    ///
    /// The path below the root is kept as it was given: doubled separators and `.` segments between
    /// its names stay. `separator` is the separator that the host writes.
    pub fn guest_path_for(
        &self,
        path: &HostPath,
        guest_root: &str,
        separator: Separator,
    ) -> (seen: Option<String>)
        ensures
            match seen {
                Some(text) => self@.guest_path(path@, guest_root@, separator) == Some(text@),
                None => self@.guest_path(path@, guest_root@, separator) is None,
            },
    {
        if !self.allows(path) {
            return None;
        }
        let start: usize = self.root.components.len();
        assert(start <= path.components.len());
        if !path.is_text_after(start) {
            return None;
        }
        let mut text: String = guest_root.to_owned();
        if start < path.components.len() {
            let root = chars_of(guest_root);
            if root.len() > 0 && !separates(root[root.len() - 1], separator, false) {
                text.append(separator.text());
            }
            let below = path.part_from(start, separator);
            text.append(below.as_str());
        }
        Some(text)
    }
}

/// Whether a path may serve as a granted root.
fn validate_path(path: &HostPath) -> (valid: bool)
    ensures
        valid == path@.safe_absolute(),
{
    path.is_safe_absolute()
}

/// Output budget of a grant that sets none.
pub const DEFAULT_OUTPUT_BYTES: usize = 1_048_576;

/// Wall-clock limit of a grant that sets none.
pub const DEFAULT_TIMEOUT_SECONDS: u64 = 30;

/// Memory limit where none is set.
pub const DEFAULT_MEMORY_BYTES: usize = 67_108_864;

/// Fuel limit where none is set.
pub const DEFAULT_FUEL: u64 = 1_000_000;

/// Limits applied to one command/session.
#[derive(Clone, Copy, Debug, PartialEq, Eq)]
pub struct ResourceLimits {
    max_output_bytes: usize,
    timeout_seconds: u64,
    max_memory_bytes: usize,
    max_fuel: u64,
}

/// What a [`ResourceLimits`] stands for.
#[verifier::ext_equal]
pub struct LimitsView {
    /// Output budget in bytes.
    pub max_output_bytes: usize,
    /// Wall-clock limit in seconds.
    pub timeout_seconds: u64,
    /// Limit on each guest linear memory in bytes.
    pub max_memory_bytes: usize,
    /// Instruction budget.
    pub max_fuel: u64,
}

impl View for ResourceLimits {
    type V = LimitsView;

    closed spec fn view(&self) -> LimitsView {
        LimitsView {
            max_output_bytes: self.max_output_bytes,
            timeout_seconds: self.timeout_seconds,
            max_memory_bytes: self.max_memory_bytes,
            max_fuel: self.max_fuel,
        }
    }
}

impl LimitsView {
    /// Every limit bounds something: none is zero.
    pub open spec fn bounding(self) -> bool {
        &&& self.max_output_bytes > 0
        &&& self.timeout_seconds > 0
        &&& self.max_memory_bytes > 0
        &&& self.max_fuel > 0
    }

    /// The limits of a grant that sets none.
    pub open spec fn default_limits() -> LimitsView {
        LimitsView {
            max_output_bytes: DEFAULT_OUTPUT_BYTES,
            timeout_seconds: DEFAULT_TIMEOUT_SECONDS,
            max_memory_bytes: DEFAULT_MEMORY_BYTES,
            max_fuel: DEFAULT_FUEL,
        }
    }
}

/// The error for a limit that is zero.
pub open spec fn zero_limit(error: CapabilityError, limit: &'static str) -> bool {
    error matches CapabilityError::InvalidLimit { name } && name@ == limit@
}

impl ResourceLimits {
    /// No limit is zero.
    #[verifier::type_invariant]
    spec fn bounding(self) -> bool {
        self@.bounding()
    }

    /// Construct limits that can bound output and wall-clock execution.
    pub fn new(max_output_bytes: usize, timeout_seconds: u64) -> (made: Result<
        Self,
        CapabilityError,
    >)
        ensures
            match made {
                Ok(limits) => max_output_bytes != 0 && timeout_seconds != 0 && limits@ == (LimitsView {
                    max_output_bytes,
                    timeout_seconds,
                    max_memory_bytes: DEFAULT_MEMORY_BYTES,
                    max_fuel: DEFAULT_FUEL,
                }),
                Err(error) => if max_output_bytes == 0 {
                    zero_limit(error, "max_output_bytes")
                } else {
                    timeout_seconds == 0 && zero_limit(error, "timeout_seconds")
                },
            },
    {
        if max_output_bytes == 0 {
            return Err(CapabilityError::InvalidLimit { name: "max_output_bytes" });
        }
        if timeout_seconds == 0 {
            return Err(CapabilityError::InvalidLimit { name: "timeout_seconds" });
        }
        Ok(
            ResourceLimits {
                max_output_bytes,
                timeout_seconds,
                max_memory_bytes: DEFAULT_MEMORY_BYTES,
                max_fuel: DEFAULT_FUEL,
            },
        )
    }

    /// Set the maximum guest fuel (instructions) before the runtime traps it.
    pub fn with_fuel(self, max_fuel: u64) -> (made: Result<Self, CapabilityError>)
        ensures
            match made {
                Ok(limits) => max_fuel != 0 && limits@ == (LimitsView { max_fuel, ..self@ }),
                Err(error) => max_fuel == 0 && zero_limit(error, "max_fuel"),
            },
    {
        if max_fuel == 0 {
            return Err(CapabilityError::InvalidLimit { name: "max_fuel" });
        }
        proof {
            use_type_invariant(&self);
        }
        Ok(ResourceLimits { max_fuel, ..self })
    }

    /// Raise the instruction-count bound beyond any practical execution so the
    /// guest runs until the wall-clock timeout (or cancellation) stops it.
    pub fn with_unlimited_fuel(self) -> (limits: Self)
        ensures
            limits@ == (LimitsView { max_fuel: u64::MAX, ..self@ }),
    {
        proof {
            use_type_invariant(&self);
        }
        ResourceLimits { max_fuel: u64::MAX, ..self }
    }

    /// Set the maximum size of each guest linear memory.
    pub fn with_memory_bytes(self, max_memory_bytes: usize) -> (made: Result<
        Self,
        CapabilityError,
    >)
        ensures
            match made {
                Ok(limits) => max_memory_bytes != 0 && limits@ == (LimitsView {
                    max_memory_bytes,
                    ..self@
                }),
                Err(error) => max_memory_bytes == 0 && zero_limit(error, "max_memory_bytes"),
            },
    {
        if max_memory_bytes == 0 {
            return Err(CapabilityError::InvalidLimit { name: "max_memory_bytes" });
        }
        proof {
            use_type_invariant(&self);
        }
        Ok(ResourceLimits { max_memory_bytes, ..self })
    }

    /// Maximum output budget for the session.
    ///
    /// Each stream's pipe traps the guest once it alone reaches this size, and
    /// the streaming path additionally cuts the guest off once stdout and
    /// stderr *together* exceed it, so a guest cannot write twice the declared
    /// budget by splitting its output across streams.
    pub fn max_output_bytes(self) -> (bytes: usize)
        ensures
            bytes == self@.max_output_bytes,
            bytes > 0,
    {
        proof {
            use_type_invariant(&self);
        }
        self.max_output_bytes
    }

    /// Maximum wall-clock duration in seconds.
    pub fn timeout_seconds(self) -> (seconds: u64)
        ensures
            seconds == self@.timeout_seconds,
            seconds > 0,
    {
        proof {
            use_type_invariant(&self);
        }
        self.timeout_seconds
    }

    /// Maximum guest fuel (instructions) before the runtime traps it.
    pub fn max_fuel(self) -> (fuel: u64)
        ensures
            fuel == self@.max_fuel,
            fuel > 0,
    {
        proof {
            use_type_invariant(&self);
        }
        self.max_fuel
    }

    /// Maximum size of each guest linear memory.
    pub fn max_memory_bytes(self) -> (bytes: usize)
        ensures
            bytes == self@.max_memory_bytes,
            bytes > 0,
    {
        proof {
            use_type_invariant(&self);
        }
        self.max_memory_bytes
    }
}

/// The complete authority available to one command.
#[derive(Debug, PartialEq, Eq)]
pub struct CapabilityGrant {
    filesystems: Vec<FilesystemGrant>,
    /// Allowed environment variable names, strictly sorted.
    environment: Vec<String>,
    /// Loopback TCP ports the guest may *connect to*.
    loopback_ports: BTreeSet<u16>,
    /// Loopback TCP ports the guest may *bind*. Empty by default: binding is
    /// denied unless explicitly granted, because a bound port can be observed
    /// and hijacked by other local processes.
    loopback_bind_ports: BTreeSet<u16>,
    native_execution: bool,
    limits: ResourceLimits,
}

/// What a [`CapabilityGrant`] stands for.
#[verifier::ext_equal]
pub struct GrantView {
    /// Granted filesystem roots.
    pub filesystems: Seq<FilesystemView>,
    /// Allowed environment variable names.
    pub environment: Set<Seq<char>>,
    /// Loopback TCP ports that may be connected to.
    pub connect_ports: Set<u16>,
    /// Loopback TCP ports that may be bound.
    pub bind_ports: Set<u16>,
    /// Whether native process execution is granted.
    pub native_execution: bool,
    /// Limits of the command.
    pub limits: LimitsView,
}

/// The views of a list of filesystem grants.
pub open spec fn filesystem_views(list: Seq<FilesystemGrant>) -> Seq<FilesystemView> {
    list.map_values(|grant: FilesystemGrant| grant@)
}

impl View for CapabilityGrant {
    type V = GrantView;

    closed spec fn view(&self) -> GrantView {
        GrantView {
            filesystems: filesystem_views(self.filesystems@),
            environment: texts(self.environment@).to_set(),
            connect_ports: self.loopback_ports@,
            bind_ports: self.loopback_bind_ports@,
            native_execution: self.native_execution,
            limits: self.limits@,
        }
    }
}

impl Clone for CapabilityGrant {
    fn clone(&self) -> (copy: Self)
        ensures
            copy@ == self@,
    {
        proof {
            use_type_invariant(self);
        }
        let mut filesystems: Vec<FilesystemGrant> = Vec::new();
        let mut i: usize = 0;
        while i < self.filesystems.len()
            invariant
                i <= self.filesystems.len(),
                filesystems.len() == i,
                forall|k: int| 0 <= k < i ==> (#[trigger] filesystems@[k])@ == self.filesystems@[k]@,
            decreases self.filesystems.len() - i,
        {
            filesystems.push(self.filesystems[i].clone());
            i += 1;
        }
        let environment = clone_texts(&self.environment);
        assert(filesystem_views(filesystems@) =~= filesystem_views(self.filesystems@));
        CapabilityGrant {
            filesystems,
            environment,
            loopback_ports: self.loopback_ports.clone(),
            loopback_bind_ports: self.loopback_bind_ports.clone(),
            native_execution: self.native_execution,
            limits: self.limits,
        }
    }
}

/// Whether a character is white space, as Unicode defines the property.
pub open spec fn white_space(c: char) -> bool {
    let code = c as int;
    ||| 0x9 <= code <= 0xD
    ||| code == 0x20
    ||| code == 0x85
    ||| code == 0xA0
    ||| code == 0x1680
    ||| 0x2000 <= code <= 0x200A
    ||| code == 0x2028
    ||| code == 0x2029
    ||| code == 0x202F
    ||| code == 0x205F
    ||| code == 0x3000
}

/// Ask [`char::is_whitespace`].
///
/// Trusted: the function tells the characters with the Unicode `White_Space` property.
pub assume_specification[ char::is_whitespace ](c: char) -> (white: bool)
    ensures
        white == white_space(c),
;

/// Whether a text can name an environment variable.
pub open spec fn valid_environment_name(name: Seq<char>) -> bool {
    &&& name.len() > 0
    &&& forall|i: int|
        0 <= i < name.len() ==> #[trigger] name[i] != '=' && name[i] != '\0' && !white_space(name[i])
}

/// Whether `canonicalize` may answer for a root that it does not exist, or that it is one that
/// `found` does not lie below.
pub open spec fn not_below_answer<F: Fn(&HostPath) -> Option<HostPath>>(
    canonicalize: F,
    root: PathView,
    found: PathView,
) -> bool {
    exists|answer: Option<PathView>|
        #[trigger] may_answer(canonicalize, root, answer) && !(answer matches Some(resolved)
            && found.starts_with(resolved))
}

impl GrantView {
    /// What every grant keeps: safe roots, at most one of them, real names and ports, real limits.
    pub open spec fn valid(self) -> bool {
        &&& self.filesystems.len() <= 1
        &&& forall|i: int|
            0 <= i < self.filesystems.len()
                ==> #[trigger] self.filesystems[i].root.safe_absolute()
        &&& forall|name: Seq<char>| #[trigger]
            self.environment.contains(name) ==> valid_environment_name(name)
        &&& !self.connect_ports.contains(0)
        &&& !self.bind_ports.contains(0)
        &&& self.limits.bounding()
    }

    /// The grant that allows nothing.
    pub open spec fn nothing() -> GrantView {
        GrantView {
            filesystems: Seq::empty(),
            environment: Set::empty(),
            connect_ports: Set::empty(),
            bind_ports: Set::empty(),
            native_execution: false,
            limits: LimitsView::default_limits(),
        }
    }

    /// Whether a path is lexically within one of the granted roots.
    pub open spec fn allows_path(self, path: PathView) -> bool {
        exists|i: int| 0 <= i < self.filesystems.len() && #[trigger] self.filesystems[i].allows(path)
    }

    /// Whether a path stays within a granted root once symlinks are resolved.
    pub open spec fn allows_existing_path(
        self,
        path: PathView,
        canonical: spec_fn(PathView) -> Option<PathView>,
    ) -> bool {
        &&& self.allows_path(path)
        &&& path.resolved(canonical) matches Some(found) && exists|i: int|
            0 <= i < self.filesystems.len() && (canonical(#[trigger] self.filesystems[i].root) matches Some(
                root,
            ) && found.starts_with(root))
    }

    /// Whether `allowed` may be decided for a path that may resolve to `found`, whatever
    /// `canonicalize` answers.
    ///
    /// A path is allowed for lying below an answer for a granted root; it is denied if each root has
    /// an answer that it does not lie below.
    pub open spec fn decides<F: Fn(&HostPath) -> Option<HostPath>>(
        self,
        found: PathView,
        canonicalize: F,
        allowed: bool,
    ) -> bool {
        if allowed {
            exists|i: int, root: PathView|
                0 <= i < self.filesystems.len() && #[trigger] may_answer(
                    canonicalize,
                    self.filesystems[i].root,
                    Some(root),
                ) && found.starts_with(root)
        } else {
            forall|i: int|
                0 <= i < self.filesystems.len() ==> not_below_answer(
                    canonicalize,
                    #[trigger] self.filesystems[i].root,
                    found,
                )
        }
    }

    /// Whether `allowed` may be decided for a path, whatever `canonicalize` answers.
    ///
    /// A path that is not lexically within the grant, or that does not resolve, is denied.
    pub open spec fn may_decide<F: Fn(&HostPath) -> Option<HostPath>>(
        self,
        path: PathView,
        canonicalize: F,
        allowed: bool,
    ) -> bool {
        ||| !allowed && !self.allows_path(path)
        ||| !allowed && may_resolve(canonicalize, path, None)
        ||| self.allows_path(path) && exists|found: PathView|
            #[trigger] may_resolve(canonicalize, path, Some(found)) && self.decides(
                found,
                canonicalize,
                allowed,
            )
    }

    /// Whether some granted root may be written below.
    pub open spec fn allows_writing(self) -> bool {
        exists|i: int|
            0 <= i < self.filesystems.len() && #[trigger] self.filesystems[i].access
                == FilesystemAccess::ReadWrite
    }
}

impl CapabilityGrant {
    /// What every grant keeps; its environment names are strictly sorted.
    #[verifier::type_invariant]
    spec fn well_formed(self) -> bool {
        &&& strictly_sorted(texts(self.environment@))
        &&& self@.valid()
    }

    /// Create a grant with no filesystem, environment, network, or native authority.
    pub fn empty() -> (grant: Self)
        ensures
            grant@ == GrantView::nothing(),
    {
        let limits = ResourceLimits {
            max_output_bytes: DEFAULT_OUTPUT_BYTES,
            timeout_seconds: DEFAULT_TIMEOUT_SECONDS,
            max_memory_bytes: DEFAULT_MEMORY_BYTES,
            max_fuel: DEFAULT_FUEL,
        };
        let filesystems: Vec<FilesystemGrant> = Vec::new();
        let environment: Vec<String> = Vec::new();
        assert(texts(environment@).to_set() =~= Set::empty());
        assert(filesystem_views(filesystems@) =~= Seq::empty());
        CapabilityGrant {
            filesystems,
            environment,
            loopback_ports: BTreeSet::new(),
            loopback_bind_ports: BTreeSet::new(),
            native_execution: false,
            limits,
        }
    }

    /// Grant access below one workspace root.
    pub fn workspace(root: HostPath, access: FilesystemAccess) -> (made: Result<
        Self,
        CapabilityError,
    >)
        ensures
            match made {
                Ok(grant) => root@.safe_absolute() && grant@ == (GrantView {
                    filesystems: seq![FilesystemView { root: root@, access }],
                    ..GrantView::nothing()
                }),
                Err(error) => !root@.safe_absolute() && error == CapabilityError::InvalidPath(root),
            },
    {
        match FilesystemGrant::new(root, access) {
            Ok(filesystem) => {
                let base = CapabilityGrant::empty();
                proof {
                    use_type_invariant(&base);
                }
                let mut filesystems: Vec<FilesystemGrant> = Vec::new();
                filesystems.push(filesystem);
                assert(filesystem_views(filesystems@) =~= seq![filesystem@]);
                Ok(CapabilityGrant { filesystems, ..base })
            },
            Err(error) => Err(error),
        }
    }

    /// Add an environment variable name to the allowlist.
    pub fn allow_environment(self, name: String) -> (made: Result<Self, CapabilityError>)
        ensures
            match made {
                Ok(grant) => valid_environment_name(name@) && grant@ == (GrantView {
                    environment: self@.environment.insert(name@),
                    ..self@
                }),
                Err(error) => !valid_environment_name(name@) && error
                    == CapabilityError::InvalidEnvironmentName(name),
            },
    {
        if !is_environment_name(name.as_str()) {
            return Err(CapabilityError::InvalidEnvironmentName(name));
        }
        proof {
            use_type_invariant(&self);
        }
        let CapabilityGrant {
            filesystems,
            environment: names,
            loopback_ports,
            loopback_bind_ports,
            native_execution,
            limits,
        } = self;
        let mut environment = names;
        insert_name(&mut environment, name);
        Ok(
            CapabilityGrant {
                filesystems,
                environment,
                loopback_ports,
                loopback_bind_ports,
                native_execution,
                limits,
            },
        )
    }

    /// Allow the guest to *connect to* one loopback TCP port.
    ///
    /// Port 0 is rejected: it has no legitimate allowlist meaning, and for a
    /// bind it would expand to "any ephemeral port".
    pub fn allow_loopback_port(self, port: u16) -> (made: Result<Self, CapabilityError>)
        ensures
            match made {
                Ok(grant) => port != 0 && grant@ == (GrantView {
                    connect_ports: self@.connect_ports.insert(port),
                    ..self@
                }),
                Err(error) => port == 0 && error == CapabilityError::InvalidLoopbackPort(port),
            },
    {
        if port == 0 {
            return Err(CapabilityError::InvalidLoopbackPort(port));
        }
        proof {
            use_type_invariant(&self);
        }
        let mut loopback_ports = self.loopback_ports.clone();
        loopback_ports.insert(port);
        Ok(CapabilityGrant { loopback_ports, ..self })
    }

    /// Allow the guest to *bind* one loopback TCP port.
    ///
    /// Binding is denied unless explicitly granted: a guest that binds an
    /// allowlisted connect port could impersonate the service the operator
    /// intended to reach. Allowing a bind is an approval-gated decision.
    pub fn allow_loopback_bind_port(self, port: u16) -> (made: Result<Self, CapabilityError>)
        ensures
            match made {
                Ok(grant) => port != 0 && grant@ == (GrantView {
                    bind_ports: self@.bind_ports.insert(port),
                    ..self@
                }),
                Err(error) => port == 0 && error == CapabilityError::InvalidLoopbackPort(port),
            },
    {
        if port == 0 {
            return Err(CapabilityError::InvalidLoopbackPort(port));
        }
        proof {
            use_type_invariant(&self);
        }
        let mut loopback_bind_ports = self.loopback_bind_ports.clone();
        loopback_bind_ports.insert(port);
        Ok(CapabilityGrant { loopback_bind_ports, ..self })
    }

    /// Allow the native process backend for this command.
    pub fn allow_native_execution(self) -> (grant: Self)
        ensures
            grant@ == (GrantView { native_execution: true, ..self@ }),
    {
        proof {
            use_type_invariant(&self);
        }
        CapabilityGrant { native_execution: true, ..self }
    }

    /// Replace the resource limits for this command.
    pub fn with_limits(self, limits: ResourceLimits) -> (grant: Self)
        ensures
            grant@ == (GrantView { limits: limits@, ..self@ }),
    {
        proof {
            use_type_invariant(&self);
            use_type_invariant(&limits);
        }
        CapabilityGrant { limits, ..self }
    }

    /// Whether a path is lexically within one of the granted roots.
    ///
    /// This check does not resolve symlinks. Code handling a host path must use
    /// [`Self::allows_existing_path`] instead.
    pub fn allows_path(&self, path: &HostPath) -> (allowed: bool)
        ensures
            allowed == self@.allows_path(path@),
    {
        let mut i: usize = 0;
        while i < self.filesystems.len()
            invariant
                i <= self.filesystems.len(),
                forall|k: int| 0 <= k < i ==> !(#[trigger] self@.filesystems[k].allows(path@)),
            decreases self.filesystems.len() - i,
        {
            assert(self@.filesystems[i as int] == self.filesystems@[i as int]@);
            if self.filesystems[i].allows(path) {
                assert(self@.filesystems[i as int].allows(path@));
                return true;
            }
            i += 1;
        }
        false
    }

    /// Whether an existing host path remains within a grant after symlink resolution.
    ///
    /// The nearest existing ancestor is resolved with `canonicalize`, so this also handles a new
    /// leaf below an existing symlink. A path whose root does not exist is denied rather than
    /// treated as safe by a lexical prefix check.
    pub fn allows_existing_path<F: Fn(&HostPath) -> Option<HostPath>>(
        &self,
        path: &HostPath,
        canonicalize: &F,
    ) -> (allowed: bool)
        requires
            forall|asked: &HostPath| call_requires(*canonicalize, (asked,)),
        ensures
            allowed ==> self@.allows_path(path@),
            self@.may_decide(path@, *canonicalize, allowed),
            forall|canonical: spec_fn(PathView) -> Option<PathView>|
                #[trigger] answers_as(*canonicalize, canonical) ==> allowed
                    == self@.allows_existing_path(path@, canonical),
    {
        if !self.allows_path(path) {
            return false;
        }
        let found = match canonicalize_with_existing_parent(path, canonicalize) {
            Some(found) => found,
            None => {
                return false;
            },
        };
        let mut i: usize = 0;
        while i < self.filesystems.len()
            invariant
                i <= self.filesystems.len(),
                forall|asked: &HostPath| call_requires(*canonicalize, (asked,)),
                self@.allows_path(path@),
                may_resolve(*canonicalize, path@, Some(found@)),
                forall|k: int|
                    0 <= k < i ==> not_below_answer(
                        *canonicalize,
                        #[trigger] self@.filesystems[k].root,
                        found@,
                    ),
                forall|canonical: spec_fn(PathView) -> Option<PathView>|
                    #[trigger] answers_as(*canonicalize, canonical) ==> path@.resolved(canonical)
                        == Some(found@),
                forall|canonical: spec_fn(PathView) -> Option<PathView>, k: int|
                    #![trigger answers_as(*canonicalize, canonical), self@.filesystems[k]]
                    answers_as(*canonicalize, canonical) && 0 <= k < i ==> !(canonical(
                        self@.filesystems[k].root,
                    ) matches Some(root) && found@.starts_with(root)),
            decreases self.filesystems.len() - i,
        {
            assert(self@.filesystems[i as int] == self.filesystems@[i as int]@);
            let asked = self.filesystems[i].root();
            let answer = canonicalize(asked);
            assert(call_ensures(*canonicalize, (asked,), answer));
            assert(may_answer(*canonicalize, self@.filesystems[i as int].root, path_option(answer)));
            match &answer {
                Some(root) => {
                    if found.starts_with(root) {
                        assert(self@.decides(found@, *canonicalize, true));
                        return true;
                    }
                },
                None => {},
            }
            i += 1;
        }
        assert(self@.decides(found@, *canonicalize, false));
        false
    }

    /// The granted filesystem roots.
    pub fn filesystem_grants(&self) -> (grants: &Vec<FilesystemGrant>)
        ensures
            filesystem_views(grants@) == self@.filesystems,
    {
        &self.filesystems
    }

    /// Whether an environment variable name is allowed.
    pub fn allows_environment(&self, name: &str) -> (allowed: bool)
        ensures
            allowed == self@.environment.contains(name@),
    {
        contains_name(&self.environment, name)
    }

    /// The allowed environment variable names, in order.
    pub fn environment_names(&self) -> (names: &Vec<String>)
        ensures
            strictly_sorted(texts(names@)),
            texts(names@).to_set() == self@.environment,
    {
        proof {
            use_type_invariant(self);
        }
        &self.environment
    }

    /// Loopback TCP ports that may be connected to.
    pub fn loopback_ports(&self) -> (ports: &BTreeSet<u16>)
        ensures
            ports@ == self@.connect_ports,
    {
        &self.loopback_ports
    }

    /// Loopback TCP ports that may be bound.
    pub fn loopback_bind_ports(&self) -> (ports: &BTreeSet<u16>)
        ensures
            ports@ == self@.bind_ports,
    {
        &self.loopback_bind_ports
    }

    /// Whether a loopback TCP port is allowed for *connecting*.
    pub fn allows_loopback_port(&self, port: u16) -> (allowed: bool)
        ensures
            allowed == self@.connect_ports.contains(port),
    {
        self.loopback_ports.contains(&port)
    }

    /// Whether a loopback TCP port is allowed for *binding*.
    pub fn allows_loopback_bind_port(&self, port: u16) -> (allowed: bool)
        ensures
            allowed == self@.bind_ports.contains(port),
    {
        self.loopback_bind_ports.contains(&port)
    }

    /// Whether native process execution was explicitly granted.
    pub fn allows_native_execution(&self) -> (allowed: bool)
        ensures
            allowed == self@.native_execution,
    {
        self.native_execution
    }

    /// Return the command's limits.
    pub fn limits(&self) -> (limits: ResourceLimits)
        ensures
            limits@ == self@.limits,
            limits@.bounding(),
    {
        proof {
            use_type_invariant(&self.limits);
        }
        self.limits
    }
}

/// Whether a text can name an environment variable.
fn is_environment_name(name: &str) -> (valid: bool)
    ensures
        valid == valid_environment_name(name@),
{
    if name.is_empty() || contains_char(name, '=') {
        return false;
    }
    for c in it: name.chars()
        invariant
            it.seq() == name@,
            name@.len() > 0,
            !name@.contains('='),
            forall|k: int|
                0 <= k < it.index() ==> #[trigger] name@[k] != '\0' && !white_space(name@[k]),
    {
        if c == '\0' || c.is_whitespace() {
            assert(name@[it.index() as int] == c);
            return false;
        }
    }
    assert forall|i: int| 0 <= i < name@.len() implies #[trigger] name@[i] != '=' by {
        if name@[i] == '=' {
            assert(name@.contains('='));
        }
    }
    true
}

/// The empty grant denies every path, variable and port and native execution.
pub proof fn law_empty_grant_denies_everything(
    path: PathView,
    canonical: spec_fn(PathView) -> Option<PathView>,
    name: Seq<char>,
    port: u16,
)
    ensures
        GrantView::nothing().valid(),
        !GrantView::nothing().allows_path(path),
        !GrantView::nothing().allows_existing_path(path, canonical),
        !GrantView::nothing().allows_writing(),
        !GrantView::nothing().environment.contains(name),
        !GrantView::nothing().connect_ports.contains(port),
        !GrantView::nothing().bind_ports.contains(port),
        !GrantView::nothing().native_execution,
{
}

/// Every step of building a grant keeps it valid.
pub proof fn law_building_keeps_grants_valid(
    grant: GrantView,
    root: PathView,
    access: FilesystemAccess,
    name: Seq<char>,
    port: u16,
    limits: LimitsView,
)
    requires
        grant.valid(),
    ensures
        root.safe_absolute() ==> (GrantView {
            filesystems: seq![FilesystemView { root, access }],
            ..GrantView::nothing()
        }).valid(),
        valid_environment_name(name) ==> (GrantView {
            environment: grant.environment.insert(name),
            ..grant
        }).valid(),
        port != 0 ==> (GrantView { connect_ports: grant.connect_ports.insert(port), ..grant }).valid(),
        port != 0 ==> (GrantView { bind_ports: grant.bind_ports.insert(port), ..grant }).valid(),
        (GrantView { native_execution: true, ..grant }).valid(),
        limits.bounding() ==> (GrantView { limits, ..grant }).valid(),
{
}

/// An allowed path opens with all the components of a granted root and never climbs: it crosses no
/// path boundary and holds no parent segment.
pub proof fn law_allowed_paths_stay_below_a_root(grant: GrantView, path: PathView)
    requires
        grant.allows_path(path),
    ensures
        path.absolute,
        forall|i: int|
            0 <= i < path.components.len() ==> !(#[trigger] path.components[i] is ParentDir),
        exists|i: int|
            0 <= i < grant.filesystems.len() && path.starts_with(
                (#[trigger] grant.filesystems[i]).root,
            ),
{
    let i = choose|i: int|
        0 <= i < grant.filesystems.len() && #[trigger] grant.filesystems[i].allows(path);
    assert(path.starts_with(grant.filesystems[i].root));
}

/// A path that leaves every granted root once links are resolved is denied, however it is spelled,
/// and so is every path if no root resolves.
pub proof fn law_escaping_paths_are_denied(
    grant: GrantView,
    path: PathView,
    canonical: spec_fn(PathView) -> Option<PathView>,
)
    requires
        forall|i: int|
            0 <= i < grant.filesystems.len() ==> (canonical(
                (#[trigger] grant.filesystems[i]).root,
            ) matches Some(root) ==> path.resolved(canonical) is None || !path.resolved(
                canonical,
            )->0.starts_with(root)),
    ensures
        !grant.allows_existing_path(path, canonical),
{
}

/// Resolving links only ever takes paths away: what is allowed after it is allowed before it.
pub proof fn law_resolution_only_restricts(
    grant: GrantView,
    path: PathView,
    canonical: spec_fn(PathView) -> Option<PathView>,
)
    ensures
        grant.allows_existing_path(path, canonical) ==> grant.allows_path(path),
{
}

/// Where every path exists and none is a link, both checks agree.
pub proof fn law_without_links_both_checks_agree(
    grant: GrantView,
    path: PathView,
    canonical: spec_fn(PathView) -> Option<PathView>,
)
    requires
        forall|asked: PathView| #[trigger] canonical(asked) == Some(asked),
    ensures
        grant.allows_existing_path(path, canonical) == grant.allows_path(path),
{
    assert(path.resolved(canonical) == Some(path));
    if grant.allows_path(path) {
        let i = choose|i: int|
            0 <= i < grant.filesystems.len() && #[trigger] grant.filesystems[i].allows(path);
        assert(canonical(grant.filesystems[i].root) == Some(grant.filesystems[i].root));
    }
}

/// Where the answers for each path never differ, what may be decided is what is decided.
pub proof fn law_settled_answers_settle_the_decision<F: Fn(&HostPath) -> Option<HostPath>>(
    grant: GrantView,
    path: PathView,
    canonicalize: F,
    allowed: bool,
    canonical: spec_fn(PathView) -> Option<PathView>,
)
    requires
        answers_as(canonicalize, canonical),
        grant.may_decide(path, canonicalize, allowed),
    ensures
        allowed == grant.allows_existing_path(path, canonical),
{
    if grant.allows_path(path) {
        if may_resolve(canonicalize, path, None) {
            law_settled_answers_settle_resolution(canonicalize, path, None, canonical);
        }
        assert forall|found: PathView| #[trigger]
            may_resolve(canonicalize, path, Some(found)) implies path.resolved(canonical) == Some(
            found,
        ) by {
            law_settled_answers_settle_resolution(canonicalize, path, Some(found), canonical);
        }
        assert forall|root: PathView, answer: Option<PathView>| #[trigger]
            may_answer(canonicalize, root, answer) implies canonical(root) == answer by {}
        if allowed {
            let found = choose|found: PathView| #[trigger]
                may_resolve(canonicalize, path, Some(found)) && grant.decides(
                    found,
                    canonicalize,
                    allowed,
                );
            let (i, root) = choose|i: int, root: PathView|
                0 <= i < grant.filesystems.len() && #[trigger] may_answer(
                    canonicalize,
                    grant.filesystems[i].root,
                    Some(root),
                ) && found.starts_with(root);
            assert(canonical(grant.filesystems[i].root) == Some(root));
        }
    }
}

/// Where a guest sees a path is below where it sees the root: at it, or behind a separator after it.
pub proof fn law_guest_paths_stay_below_the_guest_root(
    filesystem: FilesystemView,
    path: PathView,
    guest_root: Seq<char>,
    separator: Separator,
)
    requires
        filesystem.guest_path(path, guest_root, separator) is Some,
    ensures
        filesystem.allows(path),
        ({
            let seen = filesystem.guest_path(path, guest_root, separator)->0;
            &&& guest_root.is_prefix_of(seen)
            &&& guest_root.len() == 0 || is_separator(guest_root.last(), separator, false) || seen
                == guest_root || seen[guest_root.len() as int] == separator.symbol()
        }),
{
    let seen = filesystem.guest_path(path, guest_root, separator)->0;
    assert(seen.subrange(0, guest_root.len() as int) =~= guest_root);
}

/// Everything below a granted root is allowed, however deep it lies: a path that is absolute, has
/// no `.` and no `..`, and opens with the components of the root needs nothing more.
pub proof fn law_everything_below_a_root_is_allowed(grant: GrantView, at: int, path: PathView)
    requires
        0 <= at < grant.filesystems.len(),
        path.absolute,
        forall|i: int|
            0 <= i < path.components.len() ==> (#[trigger] path.components[i] is Prefix
                || path.components[i] is RootDir || path.components[i] is Normal),
        grant.filesystems[at].root.components.is_prefix_of(path.components),
    ensures
        grant.allows_path(path),
{
    let root = grant.filesystems[at].root;
    assert forall|i: int| 0 <= i < root.components.len() implies #[trigger] path.components[i]
        == root.components[i] by {
        assert(path.components.subrange(0, root.components.len() as int)[i] == root.components[i]);
    }
    assert(grant.filesystems[at].allows(path));
}

/// Going down never leaves a grant: what is allowed stays allowed with one more name.
pub proof fn law_names_below_an_allowed_path_are_allowed(
    grant: GrantView,
    path: PathView,
    name: PathNameView,
)
    requires
        grant.allows_path(path),
    ensures
        grant.allows_path(path.child(ComponentView::Normal(name))),
{
    let longer = path.child(ComponentView::Normal(name));
    let i = choose|i: int|
        0 <= i < grant.filesystems.len() && #[trigger] grant.filesystems[i].allows(path);
    let root = grant.filesystems[i].root;
    assert forall|k: int| 0 <= k < longer.components.len() implies !(
    #[trigger] longer.components[k] is ParentDir) && !(longer.components[k] is CurDir) by {
        if k < path.components.len() {
            assert(longer.components[k] == path.components[k]);
        }
    }
    assert forall|k: int| 0 <= k < root.components.len() implies alike(
        #[trigger] longer.components[k],
        root.components[k],
    ) by {
        assert(longer.components[k] == path.components[k]);
    }
    assert(grant.filesystems[i].allows(longer));
}

/// What is allowed, said of the components alone: a path is within a grant exactly if it is
/// absolute, has no `.` and no `..`, and some granted root is no longer than it and agrees with it
/// component by component.
pub proof fn law_allowed_paths_by_component(grant: GrantView, path: PathView)
    ensures
        grant.allows_path(path) <==> path.absolute && !path.components.contains(
            ComponentView::CurDir,
        ) && !path.components.contains(ComponentView::ParentDir) && exists|i: int|
            0 <= i < grant.filesystems.len() && (#[trigger] grant.filesystems[i]).root.components.len()
                <= path.components.len() && forall|k: int|
                0 <= k < grant.filesystems[i].root.components.len() ==> alike(
                    #[trigger] path.components[k],
                    grant.filesystems[i].root.components[k],
                ),
{
    if grant.allows_path(path) {
        let i = choose|i: int|
            0 <= i < grant.filesystems.len() && #[trigger] grant.filesystems[i].allows(path);
        assert(grant.filesystems[i].root.components.len() <= path.components.len());
    }
    if path.absolute && !path.components.contains(ComponentView::CurDir)
        && !path.components.contains(ComponentView::ParentDir) {
        assert forall|k: int| 0 <= k < path.components.len() implies !(
        #[trigger] path.components[k] is ParentDir) && !(path.components[k] is CurDir) by {
            assert(path.components.contains(path.components[k]));
        }
        assert forall|i: int|
            0 <= i < grant.filesystems.len() && (
            #[trigger] grant.filesystems[i]).root.components.len() <= path.components.len() && (
            forall|k: int|
                0 <= k < grant.filesystems[i].root.components.len() ==> alike(
                    #[trigger] path.components[k],
                    grant.filesystems[i].root.components[k],
                )) implies grant.filesystems[i].allows(path) by {}
    }
}

/// A path that resolves to one below what a granted root resolves to is allowed if it is so before
/// links are resolved; it matters neither how deep it lies nor which root it is.
pub proof fn law_paths_that_stay_inside_are_allowed(
    grant: GrantView,
    path: PathView,
    canonical: spec_fn(PathView) -> Option<PathView>,
    at: int,
)
    requires
        grant.allows_path(path),
        0 <= at < grant.filesystems.len(),
        path.resolved(canonical) is Some,
        canonical(grant.filesystems[at].root) is Some,
        canonical(grant.filesystems[at].root)->0.components.is_prefix_of(
            path.resolved(canonical)->0.components,
        ),
    ensures
        grant.allows_existing_path(path, canonical),
{
    let found = path.resolved(canonical)->0;
    let root = canonical(grant.filesystems[at].root)->0;
    assert forall|i: int| 0 <= i < root.components.len() implies #[trigger] found.components[i]
        == root.components[i] by {
        assert(found.components.subrange(0, root.components.len() as int)[i] == root.components[i]);
    }
    assert(found.starts_with(root));
    assert(canonical(grant.filesystems[at].root) matches Some(root) && found.starts_with(root));
}

/// A path is allowed after links are resolved only if it is allowed before, resolves, and agrees
/// component by component with what some granted root resolves to.
pub proof fn law_allowed_paths_stay_inside(
    grant: GrantView,
    path: PathView,
    canonical: spec_fn(PathView) -> Option<PathView>,
) -> (at: int)
    requires
        grant.allows_existing_path(path, canonical),
    ensures
        grant.allows_path(path),
        path.resolved(canonical) is Some,
        0 <= at < grant.filesystems.len(),
        canonical(grant.filesystems[at].root) is Some,
        canonical(grant.filesystems[at].root)->0.components.len() <= path.resolved(
            canonical,
        )->0.components.len(),
        forall|k: int|
            0 <= k < canonical(grant.filesystems[at].root)->0.components.len() ==> alike(
                #[trigger] path.resolved(canonical)->0.components[k],
                canonical(grant.filesystems[at].root)->0.components[k],
            ),
{
    let found = path.resolved(canonical)->0;
    let at = choose|i: int|
        0 <= i < grant.filesystems.len() && (canonical(
            #[trigger] grant.filesystems[i].root,
        ) matches Some(root) && found.starts_with(root));
    at
}

/// A path is seen by a guest exactly if it is allowed and its names below the root are valid text;
/// the root itself is seen where the guest sees the root.
pub proof fn law_allowed_paths_are_seen(
    filesystem: FilesystemView,
    path: PathView,
    guest_root: Seq<char>,
    separator: Separator,
)
    ensures
        filesystem.guest_path(path, guest_root, separator) is Some <==> filesystem.allows(path)
            && forall|i: int|
            filesystem.root.components.len() <= i < path.components.len() ==> is_text(
                #[trigger] path.components[i],
            ),
        filesystem.allows(path) && path.components.len() == filesystem.root.components.len()
            ==> filesystem.guest_path(path, guest_root, separator) == Some(guest_root),
{
    let start = filesystem.root.components.len() as int;
    if filesystem.allows(path) {
        let below = path.components.skip(start);
        assert forall|i: int| 0 <= i < below.len() implies #[trigger] below[i]
            == path.components[start + i] by {}
        if all_text(below) {
            assert forall|i: int| start <= i < path.components.len() implies is_text(
                #[trigger] path.components[i],
            ) by {
                assert(below[i - start] == path.components[i]);
            }
        }
    }
}

/// Going down one name goes down one name for the guest as well: a path that was put together by
/// component is seen behind its parent, after a slash.
pub proof fn law_guest_paths_go_down_name_by_name(
    filesystem: FilesystemView,
    path: PathView,
    guest_root: Seq<char>,
    name: Seq<char>,
)
    requires
        path.spelling is None,
        filesystem.guest_path(path, guest_root, Separator::Slash) is Some,
        guest_root.len() > 0,
        guest_root.last() != '/',
    ensures
        ({
            let longer = path.child(ComponentView::Normal(PathNameView::Text(name)));
            let above = filesystem.guest_path(path, guest_root, Separator::Slash)->0;
            path.components.len() == filesystem.root.components.len()
                || path.components.last() is Normal ==> filesystem.guest_path(
                longer,
                guest_root,
                Separator::Slash,
            ) == Some(above + seq!['/'] + name)
        }),
{
    let last = ComponentView::Normal(PathNameView::Text(name));
    let longer = path.child(last);
    let start = filesystem.root.components.len() as int;
    let below = path.components.skip(start);
    let deeper = longer.components.skip(start);
    assert(deeper =~= below.push(last));
    assert(deeper.drop_last() =~= below);
    assert forall|k: int| 0 <= k < longer.components.len() implies #[trigger] longer.components[k]
        == (if k < path.components.len() {
        path.components[k]
    } else {
        last
    }) by {}
    assert(filesystem.allows(longer));
    assert(all_text(deeper)) by {
        assert forall|i: int| 0 <= i < deeper.len() implies is_text(#[trigger] deeper[i]) by {
            if i < below.len() {
                assert(deeper[i] == below[i]);
            }
        }
    }
    assert(joined(deeper) == joined(below) + (if needs_separator(below) {
        seq!['/']
    } else {
        Seq::empty()
    }) + name);
    let seen = filesystem.guest_path(longer, guest_root, Separator::Slash)->0;
    let above = filesystem.guest_path(path, guest_root, Separator::Slash)->0;
    if below.len() == 0 {
        assert(joined(below) =~= Seq::empty());
        assert(seen =~= above + seq!['/'] + name);
    } else if path.components.last() is Normal {
        assert(below.last() == path.components.last());
        assert(seen =~= above + seq!['/'] + name);
    }
}

/// A text names a variable exactly if it is not empty and holds no `=`, no NUL and no white space.
pub proof fn law_environment_names_are_plain(name: Seq<char>)
    ensures
        valid_environment_name(name) <==> name.len() > 0 && !name.contains('=') && !name.contains(
            '\0',
        ) && forall|c: char| #[trigger] name.contains(c) ==> !white_space(c),
{
    if valid_environment_name(name) {
        assert forall|c: char| #[trigger] name.contains(c) implies !white_space(c) && c != '=' && c
            != '\0' by {
            let i = choose|i: int| 0 <= i < name.len() && name[i] == c;
            assert(name[i] == c);
        }
    } else if name.len() > 0 {
        let i = choose|i: int|
            0 <= i < name.len() && !(#[trigger] name[i] != '=' && name[i] != '\0' && !white_space(
                name[i],
            ));
        assert(name.contains(name[i]));
    }
}

/// Writing is granted exactly if some root is granted for reading and writing.
pub proof fn law_writing_needs_a_writable_root(grant: GrantView)
    ensures
        !grant.allows_writing() <==> forall|i: int|
            0 <= i < grant.filesystems.len() ==> (#[trigger] grant.filesystems[i]).access
                == FilesystemAccess::Read,
{
    assert forall|i: int| 0 <= i < grant.filesystems.len() implies (
    #[trigger] grant.filesystems[i]).access == FilesystemAccess::Read
        || grant.filesystems[i].access == FilesystemAccess::ReadWrite by {}
}

/// A guest sees a path behind its root and one separator, with the part below the root as it was
/// given; a root that ends in a separator gets no second one.
pub proof fn law_guest_paths_keep_the_part_below(
    filesystem: FilesystemView,
    path: PathView,
    guest_root: Seq<char>,
    separator: Separator,
)
    requires
        filesystem.guest_path(path, guest_root, separator) is Some,
        path.components.len() > filesystem.root.components.len(),
        guest_root.len() > 0,
    ensures
        ({
            let part = path.part_from(filesystem.root.components.len() as int, separator);
            let seen = filesystem.guest_path(path, guest_root, separator)->0;
            &&& guest_root.last() == '/' ==> seen == guest_root + part
            &&& guest_root.last() != '/' && guest_root.last() != '\\' ==> seen == guest_root + seq![
                separator.symbol(),
            ] + part
        }),
{
}

/// A limit is refused by its name.
pub proof fn law_zero_limits_are_named(error: CapabilityError, limit: &'static str)
    ensures
        zero_limit(error, limit) <==> (error matches CapabilityError::InvalidLimit { name } && name@
            == limit@),
{
}

/// The text for an error names the fault and what is at fault.
pub proof fn law_capability_messages(error: CapabilityError)
    ensures
        error matches CapabilityError::InvalidPath(path) ==> error.text()
            == "capability path must be absolute and cannot contain `..`: "@ + path@.shown(),
        error matches CapabilityError::InvalidLimit { name } ==> error.text() == name@
            + " must be greater than zero"@,
        error matches CapabilityError::InvalidEnvironmentName(name) ==> error.text()
            == "invalid environment variable name: "@ + name@,
        error matches CapabilityError::InvalidLoopbackPort(port) ==> error.text()
            == "loopback port must be greater than zero: "@ + decimal(port as nat),
{
}

/// A grant that grants nothing has no root, no variable, no port and no native execution, and is
/// bounded all the same: a mebibyte of output, half a minute, 64 mebibytes of memory and a million
/// units of fuel.
pub proof fn law_nothing_is_granted_by_default()
    ensures
        GrantView::nothing().filesystems == Seq::<FilesystemView>::empty(),
        GrantView::nothing().environment == Set::<Seq<char>>::empty(),
        GrantView::nothing().connect_ports == Set::<u16>::empty(),
        GrantView::nothing().bind_ports == Set::<u16>::empty(),
        !GrantView::nothing().native_execution,
        GrantView::nothing().limits.max_output_bytes == 1024 * 1024,
        GrantView::nothing().limits.timeout_seconds == 30,
        GrantView::nothing().limits.max_memory_bytes == 64 * 1024 * 1024,
        GrantView::nothing().limits.max_fuel == 1_000_000,
{
}

/// Whatever is answered about links, a path is allowed only if it is allowed without them and
/// resolves, by answers that were given, to one below an answer for some granted root.
pub proof fn law_permissions_rest_on_answers<F: Fn(&HostPath) -> Option<HostPath>>(
    grant: GrantView,
    path: PathView,
    canonicalize: F,
) -> (found: (PathView, int, PathView))
    requires
        grant.may_decide(path, canonicalize, true),
    ensures
        grant.allows_path(path),
        may_resolve(canonicalize, path, Some(found.0)),
        0 <= found.1 < grant.filesystems.len(),
        may_answer(canonicalize, grant.filesystems[found.1].root, Some(found.2)),
        found.2.components.len() <= found.0.components.len(),
        forall|k: int|
            0 <= k < found.2.components.len() ==> alike(
                #[trigger] found.0.components[k],
                found.2.components[k],
            ),
{
    let found = choose|found: PathView| #[trigger]
        may_resolve(canonicalize, path, Some(found)) && grant.decides(found, canonicalize, true);
    let (i, root) = choose|i: int, root: PathView|
        0 <= i < grant.filesystems.len() && #[trigger] may_answer(
            canonicalize,
            grant.filesystems[i].root,
            Some(root),
        ) && found.starts_with(root);
    (found, i, root)
}

/// Whatever is answered about links, a path that is allowed without them is denied only if it was
/// not found to resolve, or if each granted root had an answer that it does not lie below.
pub proof fn law_denials_rest_on_answers<F: Fn(&HostPath) -> Option<HostPath>>(
    grant: GrantView,
    path: PathView,
    canonicalize: F,
)
    requires
        grant.may_decide(path, canonicalize, false),
        grant.allows_path(path),
    ensures
        may_resolve(canonicalize, path, None) || exists|found: PathView|
            #[trigger] may_resolve(canonicalize, path, Some(found)) && forall|i: int|
                0 <= i < grant.filesystems.len() ==> exists|answer: Option<PathView>|
                    #[trigger] may_answer(
                        canonicalize,
                        (#[trigger] grant.filesystems[i]).root,
                        answer,
                    ) && (answer matches Some(root) ==> !found.starts_with(root)),
{
    if !may_resolve(canonicalize, path, None) {
        let found = choose|found: PathView| #[trigger]
            may_resolve(canonicalize, path, Some(found)) && grant.decides(
                found,
                canonicalize,
                false,
            );
        assert forall|i: int| 0 <= i < grant.filesystems.len() implies exists|
            answer: Option<PathView>,
        | #[trigger]
            may_answer(canonicalize, (#[trigger] grant.filesystems[i]).root, answer) && (
            answer matches Some(root) ==> !found.starts_with(root)) by {
            assert(not_below_answer(canonicalize, grant.filesystems[i].root, found));
            let answer = choose|answer: Option<PathView>| #[trigger]
                may_answer(canonicalize, grant.filesystems[i].root, answer) && !(
                answer matches Some(resolved) && found.starts_with(resolved));
            assert(may_answer(canonicalize, grant.filesystems[i].root, answer));
        }
    }
}

} // verus!
