//! What a guest is told about itself: arguments, environment, directory and network.

use vstd::prelude::*;

use wasmtime_wasi::WasiCtxBuilder;

use crate::policy::pair_texts;
use crate::runtime::StorePlan;
use crate::text::texts;

verus! {

/// The builder of a guest context.
#[verifier::external_type_specification]
#[verifier::external_body]
pub struct ExWasiCtxBuilder(wasmtime_wasi::WasiCtxBuilder);

/// What a context builder holds for the guest.
#[verifier::ext_equal]
pub struct ContextView {
    /// Arguments, in order.
    pub arguments: Seq<Seq<char>>,
    /// Environment variables, in order.
    pub environment: Seq<(Seq<char>, Seq<char>)>,
    /// Working directory the guest starts in, if one is set.
    pub initial_cwd: Option<Seq<char>>,
    /// Whether TCP sockets may be used at all.
    pub tcp: bool,
    /// Whether UDP sockets may be used at all.
    pub udp: bool,
    /// Whether host names may be looked up.
    pub name_lookup: bool,
}

impl ContextView {
    /// What a fresh builder holds.
    pub open spec fn fresh() -> ContextView {
        ContextView {
            arguments: Seq::empty(),
            environment: Seq::empty(),
            initial_cwd: None,
            tcp: true,
            udp: true,
            name_lookup: false,
        }
    }
}

pub uninterp spec fn context_of(builder: WasiCtxBuilder) -> ContextView;

/// Start a context with [`WasiCtxBuilder::new`].
///
/// Trusted: it holds no argument, no variable and no directory; TCP and UDP are switched on (every
/// address is denied until a check is set) and name lookup is off.
#[verifier::external_body]
fn new_builder() -> (builder: WasiCtxBuilder)
    ensures
        context_of(builder) == ContextView::fresh(),
{
    WasiCtxBuilder::new()
}

/// Append arguments with [`WasiCtxBuilder::args`].
///
/// Trusted: the arguments follow those already there, and nothing else changes.
#[verifier::external_body]
fn add_arguments(builder: &mut WasiCtxBuilder, arguments: &Vec<String>)
    ensures
        context_of(*final(builder)) == (ContextView {
            arguments: context_of(*old(builder)).arguments + texts(arguments@),
            ..context_of(*old(builder))
        }),
{
    builder.args(arguments);
}

/// Append one variable with [`WasiCtxBuilder::env`].
///
/// Trusted: the variable follows those already there, and nothing else changes.
#[verifier::external_body]
fn add_variable(builder: &mut WasiCtxBuilder, name: &str, value: &str)
    ensures
        context_of(*final(builder)) == (ContextView {
            environment: context_of(*old(builder)).environment.push((name@, value@)),
            ..context_of(*old(builder))
        }),
{
    builder.env(name, value);
}

/// Set the working directory with [`WasiCtxBuilder::initial_cwd`].
///
/// Trusted: the directory replaces the one set before, and nothing else changes.
#[verifier::external_body]
fn set_initial_cwd(builder: &mut WasiCtxBuilder, path: &str)
    ensures
        context_of(*final(builder)) == (ContextView {
            initial_cwd: Some(path@),
            ..context_of(*old(builder))
        }),
{
    builder.initial_cwd(path);
}

/// Switch TCP with [`WasiCtxBuilder::allow_tcp`].
///
/// Trusted: nothing but the switch changes.
#[verifier::external_body]
fn set_tcp(builder: &mut WasiCtxBuilder, enable: bool)
    ensures
        context_of(*final(builder)) == (ContextView { tcp: enable, ..context_of(*old(builder)) }),
{
    builder.allow_tcp(enable);
}

/// Switch UDP with [`WasiCtxBuilder::allow_udp`].
///
/// Trusted: nothing but the switch changes.
#[verifier::external_body]
fn set_udp(builder: &mut WasiCtxBuilder, enable: bool)
    ensures
        context_of(*final(builder)) == (ContextView { udp: enable, ..context_of(*old(builder)) }),
{
    builder.allow_udp(enable);
}

/// Switch host name lookup with [`WasiCtxBuilder::allow_ip_name_lookup`].
///
/// Trusted: nothing but the switch changes.
#[verifier::external_body]
fn set_name_lookup(builder: &mut WasiCtxBuilder, enable: bool)
    ensures
        context_of(*final(builder)) == (ContextView {
            name_lookup: enable,
            ..context_of(*old(builder))
        }),
{
    builder.allow_ip_name_lookup(enable);
}

impl StorePlan {
    /// What the guest is told under this plan.
    pub open spec fn context(&self) -> ContextView {
        ContextView {
            arguments: texts(self.args@),
            environment: pair_texts(self.environment@),
            initial_cwd: Some(self.initial_cwd@),
            tcp: !self.network@.connect_ports.is_empty() || !self.network@.bind_ports.is_empty(),
            udp: false,
            name_lookup: false,
        }
    }

    /// Start the context of a guest under this plan.
    ///
    /// Output streams, opened directories and the address check are added by whoever runs the
    /// guest.
    pub fn guest_context(&self) -> (builder: WasiCtxBuilder)
        ensures
            context_of(builder) == self.context(),
    {
        let mut builder = new_builder();
        add_arguments(&mut builder, &self.args);
        set_initial_cwd(&mut builder, self.initial_cwd.as_str());
        let mut i: usize = 0;
        assert(context_of(builder).arguments =~= texts(self.args@));
        assert(pair_texts(self.environment@).take(0) =~= Seq::empty());
        while i < self.environment.len()
            invariant
                i <= self.environment.len(),
                context_of(builder) == (ContextView {
                    arguments: texts(self.args@),
                    environment: pair_texts(self.environment@).take(i as int),
                    initial_cwd: Some(self.initial_cwd@),
                    ..ContextView::fresh()
                }),
            decreases self.environment.len() - i,
        {
            let pair = &self.environment[i];
            add_variable(&mut builder, pair.0.as_str(), pair.1.as_str());
            assert(pair_texts(self.environment@).take(i + 1) =~= pair_texts(
                self.environment@,
            ).take(i as int).push((self.environment@[i as int].0@, self.environment@[i as int].1@)));
            i += 1;
        }
        assert(pair_texts(self.environment@).take(i as int) =~= pair_texts(self.environment@));
        set_tcp(&mut builder, self.network.allows_tcp());
        set_udp(&mut builder, false);
        set_name_lookup(&mut builder, false);
        builder
    }
}

/// Under any plan a guest can use neither UDP nor name lookup, and TCP only if a port is granted.
pub proof fn law_context_is_closed_by_default(plan: StorePlan)
    ensures
        !plan.context().udp,
        !plan.context().name_lookup,
        plan.context().tcp ==> exists|port: u16|
            plan.network@.connect_ports.contains(port) || plan.network@.bind_ports.contains(port),
{
    if plan.context().tcp {
        if !plan.network@.connect_ports.is_empty() {
            assert(plan.network@.connect_ports.contains(plan.network@.connect_ports.choose()));
        } else {
            assert(plan.network@.bind_ports.contains(plan.network@.bind_ports.choose()));
        }
    }
}

/// A guest is told exactly what its plan says: its arguments and variables in order and where it
/// starts. It gets TCP exactly if a port is listed for it.
pub proof fn law_guests_are_told_their_plan(plan: StorePlan)
    ensures
        plan.context().arguments == texts(plan.args@),
        plan.context().environment == pair_texts(plan.environment@),
        plan.context().initial_cwd == Some(plan.initial_cwd@),
        plan.context().tcp <==> exists|port: u16| #[trigger]
            plan.network@.connect_ports.contains(port) || plan.network@.bind_ports.contains(port),
{
    law_context_is_closed_by_default(plan);
    if exists|port: u16| #[trigger]
        plan.network@.connect_ports.contains(port) || plan.network@.bind_ports.contains(port) {
        let port = choose|port: u16| #[trigger]
            plan.network@.connect_ports.contains(port) || plan.network@.bind_ports.contains(port);
        assert(!plan.network@.connect_ports.is_empty() || !plan.network@.bind_ports.is_empty());
    }
}

} // verus!
