//! What a grant means for risk, environment and network.

use std::collections::BTreeSet;

use vstd::prelude::*;

use crate::capability::{
    law_writing_needs_a_writable_root, CapabilityGrant, FilesystemAccess, FilesystemView, GrantView,
};
use crate::command::{ApprovalReason, CommandRequest, ExecutionMode, RequestView};
use crate::text::{precedes, strictly_sorted, texts};

verus! {

/// Whether a request may run without a human decision.
#[derive(Clone, Copy, Debug, PartialEq, Eq, Structural)]
pub enum Risk {
    /// The request is low-risk.
    AutoApprove,
    /// A human has to decide first.
    RequiresApproval(ApprovalReason),
}

impl RequestView {
    /// Whether the request is risky for a given reason.
    pub open spec fn risky_for(self, reason: ApprovalReason) -> bool {
        match reason {
            ApprovalReason::FilesystemWrite => self.grant.allows_writing(),
            ApprovalReason::NetworkAccess => !self.grant.connect_ports.is_empty()
                || !self.grant.bind_ports.is_empty(),
            ApprovalReason::EnvironmentAccess => !self.grant.environment.is_empty(),
            ApprovalReason::NativeExecution => self.mode == ExecutionMode::Native,
        }
    }

    /// The risk class of the request; several reasons report the first that applies.
    pub open spec fn risk(self) -> Risk {
        if self.risky_for(ApprovalReason::FilesystemWrite) {
            Risk::RequiresApproval(ApprovalReason::FilesystemWrite)
        } else if self.risky_for(ApprovalReason::NetworkAccess) {
            Risk::RequiresApproval(ApprovalReason::NetworkAccess)
        } else if self.risky_for(ApprovalReason::EnvironmentAccess) {
            Risk::RequiresApproval(ApprovalReason::EnvironmentAccess)
        } else if self.risky_for(ApprovalReason::NativeExecution) {
            Risk::RequiresApproval(ApprovalReason::NativeExecution)
        } else {
            Risk::AutoApprove
        }
    }
}

/// A request runs without a human decision exactly when no reason makes it risky, and a request
/// that needs one is risky for the reason reported.
pub proof fn law_risk_is_sound(request: RequestView)
    ensures
        request.risk() == Risk::AutoApprove <==> forall|reason: ApprovalReason|
            !request.risky_for(reason),
        request.risk() matches Risk::RequiresApproval(reason) ==> request.risky_for(reason),
{
    if request.risk() == Risk::AutoApprove {
        assert forall|reason: ApprovalReason| !request.risky_for(reason) by {
            match reason {
                ApprovalReason::FilesystemWrite => {},
                ApprovalReason::NetworkAccess => {},
                ApprovalReason::EnvironmentAccess => {},
                ApprovalReason::NativeExecution => {},
            }
        }
    }
}

/// Decide whether a request needs human approval.
pub fn classify_risk(request: &CommandRequest) -> (risk: Risk)
    ensures
        risk == request@.risk(),
{
    if grants_writing(&request.grant) {
        return Risk::RequiresApproval(ApprovalReason::FilesystemWrite);
    }
    if !request.grant.loopback_ports().is_empty() || !request.grant.loopback_bind_ports().is_empty() {
        return Risk::RequiresApproval(ApprovalReason::NetworkAccess);
    }
    let names = request.grant.environment_names();
    if names.len() > 0 {
        assert(texts(names@).to_set().contains(texts(names@)[0]));
        return Risk::RequiresApproval(ApprovalReason::EnvironmentAccess);
    }
    assert(request@.grant.environment =~= Set::empty());
    if request.mode == ExecutionMode::Native {
        return Risk::RequiresApproval(ApprovalReason::NativeExecution);
    }
    Risk::AutoApprove
}

/// Whether some granted root may be written below.
fn grants_writing(grant: &CapabilityGrant) -> (writing: bool)
    ensures
        writing == grant@.allows_writing(),
{
    let filesystems = grant.filesystem_grants();
    let mut i: usize = 0;
    while i < filesystems.len()
        invariant
            i <= filesystems.len(),
            crate::capability::filesystem_views(filesystems@) == grant@.filesystems,
            forall|k: int|
                0 <= k < i ==> #[trigger] grant@.filesystems[k].access
                    != FilesystemAccess::ReadWrite,
        decreases filesystems.len() - i,
    {
        assert(grant@.filesystems[i as int] == filesystems@[i as int]@);
        if filesystems[i].access() == FilesystemAccess::ReadWrite {
            return true;
        }
        i += 1;
    }
    false
}

/// How a guest wants to use a socket address.
#[derive(Clone, Copy, Debug, PartialEq, Eq, Structural)]
pub enum SocketUse {
    /// Connect a TCP socket.
    TcpConnect,
    /// Bind a TCP socket.
    TcpBind,
    /// Any use of a UDP socket.
    Udp,
}

/// The sockets a guest may use: listed TCP ports, over loopback only.
#[derive(Debug)]
pub struct NetworkPolicy {
    connect_ports: BTreeSet<u16>,
    bind_ports: BTreeSet<u16>,
}

/// What a [`NetworkPolicy`] stands for.
#[verifier::ext_equal]
pub struct NetworkView {
    /// Loopback TCP ports that may be connected to.
    pub connect_ports: Set<u16>,
    /// Loopback TCP ports that may be bound.
    pub bind_ports: Set<u16>,
}

impl View for NetworkPolicy {
    type V = NetworkView;

    closed spec fn view(&self) -> NetworkView {
        NetworkView { connect_ports: self.connect_ports@, bind_ports: self.bind_ports@ }
    }
}

impl NetworkView {
    /// The policy that a grant stands for.
    pub open spec fn of_grant(grant: GrantView) -> NetworkView {
        NetworkView { connect_ports: grant.connect_ports, bind_ports: grant.bind_ports }
    }

    /// Whether a guest may use an address.
    pub open spec fn permits(self, loopback: bool, port: u16, socket_use: SocketUse) -> bool {
        loopback && match socket_use {
            SocketUse::TcpConnect => self.connect_ports.contains(port),
            SocketUse::TcpBind => self.bind_ports.contains(port),
            SocketUse::Udp => false,
        }
    }
}

impl NetworkPolicy {
    /// The policy that a grant stands for.
    pub fn from_grant(grant: &CapabilityGrant) -> (policy: Self)
        ensures
            policy@ == NetworkView::of_grant(grant@),
    {
        NetworkPolicy {
            connect_ports: grant.loopback_ports().clone(),
            bind_ports: grant.loopback_bind_ports().clone(),
        }
    }

    /// Whether a guest may use an address.
    pub fn permits(&self, loopback: bool, port: u16, socket_use: SocketUse) -> (permitted: bool)
        ensures
            permitted == self@.permits(loopback, port, socket_use),
    {
        loopback && match socket_use {
            SocketUse::TcpConnect => self.connect_ports.contains(&port),
            SocketUse::TcpBind => self.bind_ports.contains(&port),
            SocketUse::Udp => false,
        }
    }

    /// Whether a guest may use TCP at all.
    pub fn allows_tcp(&self) -> (allowed: bool)
        ensures
            allowed == (!self@.connect_ports.is_empty() || !self@.bind_ports.is_empty()),
    {
        !self.connect_ports.is_empty() || !self.bind_ports.is_empty()
    }
}

/// A grant that lists no port permits no socket use at all.
pub proof fn law_network_is_denied_by_default(loopback: bool, port: u16, socket_use: SocketUse)
    ensures
        !NetworkView::of_grant(GrantView::nothing()).permits(loopback, port, socket_use),
{
}

/// Whatever a grant lists, only loopback TCP sockets on listed ports are permitted.
pub proof fn law_network_stays_on_listed_loopback_ports(
    grant: GrantView,
    loopback: bool,
    port: u16,
    socket_use: SocketUse,
)
    requires
        NetworkView::of_grant(grant).permits(loopback, port, socket_use),
    ensures
        loopback,
        socket_use != SocketUse::Udp,
        grant.connect_ports.contains(port) || grant.bind_ports.contains(port),
        grant.valid() ==> port != 0,
{
}

/// The characters of each name and value.
pub open spec fn pair_texts(list: Seq<(String, String)>) -> Seq<(Seq<char>, Seq<char>)> {
    list.map_values(|pair: (String, String)| (pair.0@, pair.1@))
}

/// The listed names that the host knows, with their values, in order.
pub open spec fn known_names(
    names: Seq<Seq<char>>,
    host: spec_fn(Seq<char>) -> Option<Seq<char>>,
) -> Seq<(Seq<char>, Seq<char>)>
    decreases names.len(),
{
    if names.len() == 0 {
        Seq::empty()
    } else {
        let before = known_names(names.drop_last(), host);
        match host(names.last()) {
            Some(value) => before.push((names.last(), value)),
            None => before,
        }
    }
}

/// Whether every answer of `provider` is the one that `host` gives.
pub open spec fn reads_as<F: Fn(&str) -> Option<String>>(
    provider: F,
    host: spec_fn(Seq<char>) -> Option<Seq<char>>,
) -> bool {
    forall|name: &str, answer: Option<String>| #[trigger]
        call_ensures(provider, (name,), answer) ==> match answer {
            Some(value) => host(name@) == Some(value@),
            None => host(name@) is None,
        }
}

/// Whether `provider` may answer `answer` for a name.
pub open spec fn may_read<F: Fn(&str) -> Option<String>>(
    provider: F,
    name: Seq<char>,
    answer: Option<Seq<char>>,
) -> bool {
    exists|asked: &str, given: Option<String>|
        asked@ == name && (match given {
            Some(value) => answer == Some(value@),
            None => answer is None,
        }) && #[trigger] call_ensures(provider, (asked,), given)
}

/// The names of a list of variables.
pub open spec fn variable_names(variables: Seq<(Seq<char>, Seq<char>)>) -> Seq<Seq<char>> {
    variables.map_values(|variable: (Seq<char>, Seq<char>)| variable.0)
}

/// Whether variables may be selected for the granted names, whatever `provider` answers.
///
/// Each variable has a granted name and a value that `provider` gave for it, they stand in name
/// order, and a granted name is left out only if `provider` gave none for it.
pub open spec fn may_select<F: Fn(&str) -> Option<String>>(
    provider: F,
    granted: Set<Seq<char>>,
    variables: Seq<(Seq<char>, Seq<char>)>,
) -> bool {
    &&& strictly_sorted(variable_names(variables))
    &&& forall|k: int|
        0 <= k < variables.len() ==> granted.contains((#[trigger] variables[k]).0) && may_read(
            provider,
            variables[k].0,
            Some(variables[k].1),
        )
    &&& forall|name: Seq<char>| #[trigger]
        granted.contains(name) && !variable_names(variables).contains(name) ==> may_read(
            provider,
            name,
            None,
        )
}

/// The environment a guest sees: what the host holds under the granted names, in name order.
///
/// `provider` reads one host variable. It is only ever asked for a granted name: it need not even
/// be callable on another.
pub fn selected_environment<F: Fn(&str) -> Option<String>>(
    grant: &CapabilityGrant,
    provider: &F,
) -> (selected: Vec<(String, String)>)
    requires
        forall|name: &str|
            grant@.environment.contains(name@) ==> call_requires(*provider, (name,)),
    ensures
        may_select(*provider, grant@.environment, pair_texts(selected@)),
        exists|names: Seq<Seq<char>>|
            #![trigger strictly_sorted(names)]
            strictly_sorted(names) && names.to_set() == grant@.environment && forall|
                host: spec_fn(Seq<char>) -> Option<Seq<char>>,
            | #[trigger]
                reads_as(*provider, host) ==> pair_texts(selected@) == known_names(names, host),
{
    let names = grant.environment_names();
    let ghost all = texts(names@);
    let mut selected: Vec<(String, String)> = Vec::new();
    let mut i: usize = 0;
    assert(all.take(0) =~= Seq::empty());
    assert(pair_texts(selected@) =~= Seq::empty());
    while i < names.len()
        invariant
            i <= names.len(),
            all == texts(names@),
            all.to_set() == grant@.environment,
            strictly_sorted(all),
            strictly_sorted(variable_names(pair_texts(selected@))),
            forall|k: int, j: int|
                #![trigger pair_texts(selected@)[k], all[j]]
                0 <= k < selected.len() && i <= j < all.len() ==> precedes(
                    pair_texts(selected@)[k].0,
                    all[j],
                ),
            forall|k: int|
                0 <= k < selected.len() ==> grant@.environment.contains(
                    (#[trigger] pair_texts(selected@)[k]).0,
                ) && may_read(
                    *provider,
                    pair_texts(selected@)[k].0,
                    Some(pair_texts(selected@)[k].1),
                ),
            forall|j: int|
                0 <= j < i && !variable_names(pair_texts(selected@)).contains(#[trigger] all[j])
                    ==> may_read(*provider, all[j], None),
            forall|name: &str|
                grant@.environment.contains(name@) ==> call_requires(*provider, (name,)),
            forall|host: spec_fn(Seq<char>) -> Option<Seq<char>>| #[trigger]
                reads_as(*provider, host) ==> pair_texts(selected@) == known_names(
                    all.take(i as int),
                    host,
                ),
        decreases names.len() - i,
    {
        assert(all[i as int] == names@[i as int]@);
        assert(all.to_set().contains(all[i as int]));
        assert(all.take(i + 1).drop_last() =~= all.take(i as int));
        assert(all.take(i + 1).last() == all[i as int]);
        let name = names[i].as_str();
        let answer = provider(name);
        assert(call_ensures(*provider, (name,), answer));
        match answer {
            Some(value) => {
                let ghost before = pair_texts(selected@);
                let ghost held = value@;
                selected.push((names[i].clone(), value));
                assert(pair_texts(selected@) =~= before.push((all[i as int], held)));
                assert(may_read(*provider, all[i as int], Some(held)));
                proof {
                    let earlier = variable_names(before);
                    let now = variable_names(pair_texts(selected@));
                    assert(now =~= earlier.push(all[i as int]));
                    assert forall|a: int, b: int| 0 <= a < b < now.len() implies precedes(
                        #[trigger] now[a],
                        #[trigger] now[b],
                    ) by {
                        assert(now[a] == before[a].0);
                        if b < earlier.len() {
                            assert(precedes(earlier[a], earlier[b]));
                        }
                    }
                    assert forall|name: Seq<char>| earlier.contains(name) implies now.contains(
                        name,
                    ) by {
                        let a = choose|a: int| 0 <= a < earlier.len() && earlier[a] == name;
                        assert(now[a] == name);
                    }
                    assert(now[earlier.len() as int] == all[i as int]);
                }
            },
            None => {
                assert(may_read(*provider, all[i as int], None));
            },
        }
        i += 1;
    }
    assert(all.take(i as int) =~= all);
    assert forall|name: Seq<char>| #[trigger]
        grant@.environment.contains(name) && !variable_names(pair_texts(selected@)).contains(
            name,
        ) implies may_read(*provider, name, None) by {
        assert(all.to_set().contains(name));
        let j = choose|j: int| 0 <= j < all.len() && all[j] == name;
        assert(all[j] == name);
    }
    selected
}

/// Granting a port for connecting grants nothing for binding, and the other way round.
pub proof fn law_connecting_and_binding_are_separate(
    grant: GrantView,
    granted: u16,
    loopback: bool,
    port: u16,
)
    ensures
        NetworkView::of_grant(
            GrantView { connect_ports: grant.connect_ports.insert(granted), ..grant },
        ).permits(loopback, port, SocketUse::TcpBind) == NetworkView::of_grant(grant).permits(
            loopback,
            port,
            SocketUse::TcpBind,
        ),
        NetworkView::of_grant(
            GrantView { bind_ports: grant.bind_ports.insert(granted), ..grant },
        ).permits(loopback, port, SocketUse::TcpConnect) == NetworkView::of_grant(grant).permits(
            loopback,
            port,
            SocketUse::TcpConnect,
        ),
{
}

/// A guest sees a variable exactly if its name is granted and the host knows it, and sees the value
/// that the host holds.
pub proof fn law_environment_is_what_is_granted_and_known(
    names: Seq<Seq<char>>,
    host: spec_fn(Seq<char>) -> Option<Seq<char>>,
    name: Seq<char>,
    value: Seq<char>,
)
    ensures
        known_names(names, host).contains((name, value)) <==> names.to_set().contains(name)
            && host(name) == Some(value),
    decreases names.len(),
{
    let all = known_names(names, host);
    if names.len() > 0 {
        let init = names.drop_last();
        let before = known_names(init, host);
        law_environment_is_what_is_granted_and_known(init, host, name, value);
        assert(names =~= init.push(names.last()));
        if names.contains(name) {
            let i = choose|i: int| 0 <= i < names.len() && names[i] == name;
            if i < init.len() {
                assert(init[i] == name);
            }
        }
        if init.contains(name) {
            let i = choose|i: int| 0 <= i < init.len() && init[i] == name;
            assert(names[i] == name);
        }
        assert(names[names.len() - 1] == names.last());
        if host(names.last()) is Some {
            let added = (names.last(), host(names.last())->0);
            assert(all == before.push(added));
            assert(all[before.len() as int] == added);
            if before.contains((name, value)) {
                let i = choose|i: int| 0 <= i < before.len() && before[i] == (name, value);
                assert(all[i] == (name, value));
            }
            if all.contains((name, value)) {
                let i = choose|i: int| 0 <= i < all.len() && all[i] == (name, value);
                if i < before.len() {
                    assert(before[i] == (name, value));
                }
            }
        }
    }
}

/// Which requests run without a human decision, said of the grant and the mode alone: those where
/// every granted root is for reading, no port and no variable is listed, and the mode is WASI. Who
/// asks, for which program and in which directory, does not matter.
pub proof fn law_risk_by_grant_and_mode(request: RequestView)
    ensures
        request.risk() == Risk::AutoApprove <==> {
            &&& forall|i: int|
                0 <= i < request.grant.filesystems.len() ==> (
                #[trigger] request.grant.filesystems[i]).access == FilesystemAccess::Read
            &&& request.grant.connect_ports == Set::<u16>::empty()
            &&& request.grant.bind_ports == Set::<u16>::empty()
            &&& request.grant.environment == Set::<Seq<char>>::empty()
            &&& request.mode == ExecutionMode::Wasi
        },
        (exists|i: int|
            0 <= i < request.grant.filesystems.len() && (
            #[trigger] request.grant.filesystems[i]).access == FilesystemAccess::ReadWrite)
            ==> request.risk() == Risk::RequiresApproval(ApprovalReason::FilesystemWrite),
        request.risk() == Risk::RequiresApproval(ApprovalReason::FilesystemWrite) ==> exists|i: int|
            0 <= i < request.grant.filesystems.len() && (
            #[trigger] request.grant.filesystems[i]).access == FilesystemAccess::ReadWrite,
        request.risk() == Risk::RequiresApproval(ApprovalReason::NetworkAccess) ==> exists|
            port: u16,
        | #[trigger]
            request.grant.connect_ports.contains(port) || request.grant.bind_ports.contains(port),
        request.risk() == Risk::RequiresApproval(ApprovalReason::EnvironmentAccess) ==> exists|
            name: Seq<char>,
        | #[trigger] request.grant.environment.contains(name),
        request.risk() == Risk::RequiresApproval(ApprovalReason::NativeExecution) ==> request.mode
            == ExecutionMode::Native,
{
    let grant = request.grant;
    law_writing_needs_a_writable_root(grant);
    assert(grant.connect_ports.is_empty() <==> grant.connect_ports =~= Set::<u16>::empty());
    assert(grant.bind_ports.is_empty() <==> grant.bind_ports =~= Set::<u16>::empty());
    assert(grant.environment.is_empty() <==> grant.environment =~= Set::<Seq<char>>::empty());
    if !grant.connect_ports.is_empty() {
        assert(grant.connect_ports.contains(grant.connect_ports.choose()));
    } else if !grant.bind_ports.is_empty() {
        assert(grant.bind_ports.contains(grant.bind_ports.choose()));
    }
    if !grant.environment.is_empty() {
        assert(grant.environment.contains(grant.environment.choose()));
    }
}

/// Two requests with the same grant and mode are equally risky, whoever makes them.
pub proof fn law_risk_is_the_same_for_everyone(one: RequestView, other: RequestView)
    requires
        one.grant == other.grant,
        one.mode == other.mode,
    ensures
        one.risk() == other.risk(),
{
}

/// Granting more never makes a request less risky: with a writable root, a port or a variable more,
/// a request that needed approval still does.
pub proof fn law_granting_more_is_never_less_risky(
    request: RequestView,
    root: FilesystemView,
    port: u16,
    name: Seq<char>,
)
    requires
        request.risk() != Risk::AutoApprove,
    ensures
        ({
            let grant = request.grant;
            let with = |more: GrantView| RequestView { grant: more, ..request };
            &&& with(
                GrantView { filesystems: grant.filesystems.push(root), ..grant },
            ).risk() != Risk::AutoApprove
            &&& with(
                GrantView { connect_ports: grant.connect_ports.insert(port), ..grant },
            ).risk() != Risk::AutoApprove
            &&& with(
                GrantView { bind_ports: grant.bind_ports.insert(port), ..grant },
            ).risk() != Risk::AutoApprove
            &&& with(
                GrantView { environment: grant.environment.insert(name), ..grant },
            ).risk() != Risk::AutoApprove
        }),
{
    let grant = request.grant;
    assert(grant.connect_ports.insert(port).contains(port));
    assert(grant.bind_ports.insert(port).contains(port));
    assert(grant.environment.insert(name).contains(name));
    let more = GrantView { filesystems: grant.filesystems.push(root), ..grant };
    if grant.allows_writing() {
        let i = choose|i: int|
            0 <= i < grant.filesystems.len() && #[trigger] grant.filesystems[i].access
                == FilesystemAccess::ReadWrite;
        assert(more.filesystems[i].access == FilesystemAccess::ReadWrite);
        assert(more.allows_writing());
    }
}

/// A guest may use an address exactly if it is a loopback address and its port is listed for that
/// use: connecting needs the one list, binding the other, and UDP is never allowed.
pub proof fn law_listed_loopback_ports_are_permitted(grant: GrantView, port: u16)
    ensures
        NetworkView::of_grant(grant).permits(true, port, SocketUse::TcpConnect)
            == grant.connect_ports.contains(port),
        NetworkView::of_grant(grant).permits(true, port, SocketUse::TcpBind)
            == grant.bind_ports.contains(port),
        !NetworkView::of_grant(grant).permits(true, port, SocketUse::Udp),
        forall|socket_use: SocketUse|
            !(#[trigger] NetworkView::of_grant(grant).permits(false, port, socket_use)),
{
}

/// The variables that a guest sees stand in the order of their names, each name at most once.
pub proof fn law_variables_stand_in_name_order(
    names: Seq<Seq<char>>,
    host: spec_fn(Seq<char>) -> Option<Seq<char>>,
)
    requires
        strictly_sorted(names),
    ensures
        strictly_sorted(variable_names(known_names(names, host))),
    decreases names.len(),
{
    let all = known_names(names, host);
    if names.len() > 0 {
        let init = names.drop_last();
        let before = known_names(init, host);
        assert forall|i: int, j: int| 0 <= i < j < init.len() implies precedes(
            #[trigger] init[i],
            #[trigger] init[j],
        ) by {
            assert(precedes(names[i], names[j]));
        }
        law_variables_stand_in_name_order(init, host);
        if host(names.last()) is Some {
            let earlier = variable_names(before);
            let now = variable_names(all);
            assert(now =~= earlier.push(names.last()));
            assert forall|i: int, j: int| 0 <= i < j < now.len() implies precedes(
                #[trigger] now[i],
                #[trigger] now[j],
            ) by {
                if j < earlier.len() {
                    assert(precedes(earlier[i], earlier[j]));
                } else {
                    assert(before[i].0 == now[i]);
                    assert(before.contains((before[i].0, before[i].1)));
                    law_environment_is_what_is_granted_and_known(
                        init,
                        host,
                        before[i].0,
                        before[i].1,
                    );
                    assert(init.contains(now[i]));
                    let k = choose|k: int| 0 <= k < init.len() && init[k] == now[i];
                    assert(precedes(names[k], names[names.len() - 1]));
                }
            }
        }
    }
}

/// Whatever the host answers, a guest sees only granted names, each with a value that was given for
/// it, in name order; and it misses a granted name only if none was given for it.
pub proof fn law_selected_variables_were_granted_and_given<F: Fn(&str) -> Option<String>>(
    provider: F,
    granted: Set<Seq<char>>,
    variables: Seq<(Seq<char>, Seq<char>)>,
)
    requires
        may_select(provider, granted, variables),
    ensures
        forall|i: int, j: int|
            0 <= i < j < variables.len() ==> precedes(
                (#[trigger] variables[i]).0,
                (#[trigger] variables[j]).0,
            ),
        forall|i: int|
            0 <= i < variables.len() ==> granted.contains((#[trigger] variables[i]).0) && exists|
                asked: &str,
                value: String,
            |
                asked@ == variables[i].0 && value@ == variables[i].1 && #[trigger] call_ensures(
                    provider,
                    (asked,),
                    Some(value),
                ),
        forall|name: Seq<char>| #[trigger]
            granted.contains(name) && (forall|i: int|
                0 <= i < variables.len() ==> (#[trigger] variables[i]).0 != name) ==> exists|
                asked: &str,
            | asked@ == name && #[trigger] call_ensures(provider, (asked,), None),
{
    let names = variable_names(variables);
    assert forall|i: int, j: int| 0 <= i < j < variables.len() implies precedes(
        (#[trigger] variables[i]).0,
        (#[trigger] variables[j]).0,
    ) by {
        assert(precedes(names[i], names[j]));
    }
    assert forall|i: int| 0 <= i < variables.len() implies granted.contains(
        (#[trigger] variables[i]).0,
    ) && exists|asked: &str, value: String|
        asked@ == variables[i].0 && value@ == variables[i].1 && #[trigger] call_ensures(
            provider,
            (asked,),
            Some(value),
        ) by {
        lemma_read_value(provider, variables[i].0, variables[i].1);
    }
    assert forall|name: Seq<char>| #[trigger]
        granted.contains(name) && (forall|i: int|
            0 <= i < variables.len() ==> (#[trigger] variables[i]).0 != name) implies exists|
        asked: &str,
    | asked@ == name && #[trigger] call_ensures(provider, (asked,), None) by {
        if names.contains(name) {
            let i = choose|i: int| 0 <= i < names.len() && names[i] == name;
            assert(variables[i].0 == name);
        }
        lemma_read_nothing(provider, name);
    }
}

/// A value that may be read was given for that name.
proof fn lemma_read_value<F: Fn(&str) -> Option<String>>(
    provider: F,
    name: Seq<char>,
    value: Seq<char>,
)
    requires
        may_read(provider, name, Some(value)),
    ensures
        exists|asked: &str, given: String|
            asked@ == name && given@ == value && #[trigger] call_ensures(
                provider,
                (asked,),
                Some(given),
            ),
{
    let answer = Some(value);
    let (asked, given) = choose|asked: &str, given: Option<String>|
        asked@ == name && (match given {
            Some(value) => answer == Some(value@),
            None => answer is None,
        }) && #[trigger] call_ensures(provider, (asked,), given);
    assert(call_ensures(provider, (asked,), Some(given->0)));
}

/// A name for which nothing may be read was answered with nothing.
proof fn lemma_read_nothing<F: Fn(&str) -> Option<String>>(provider: F, name: Seq<char>)
    requires
        may_read(provider, name, None),
    ensures
        exists|asked: &str| asked@ == name && #[trigger] call_ensures(provider, (asked,), None),
{
    let answer: Option<Seq<char>> = None;
    let (asked, given) = choose|asked: &str, given: Option<String>|
        asked@ == name && (match given {
            Some(value) => answer == Some(value@),
            None => answer is None,
        }) && #[trigger] call_ensures(provider, (asked,), given);
    assert(call_ensures(provider, (asked,), None));
}

} // verus!
