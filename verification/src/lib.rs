//! A capability-secured execution boundary for untrusted WASI guests.
//!
//! Everything a guest gets is granted explicitly: filesystem roots, environment variables, loopback
//! ports and resource budgets ([`capability`]). A [`command::CommandRequest`] carries one grant.
//! The [`runtime`] turns it into a plan for one guest store, [`context`] and [`store`] hand that plan
//! to Wasmtime, [`watch`] and [`pipe`] interrupt the guest and bound its output while it runs, and
//! the [`broker`] decides which session runs when, parks risky ones for a human decision and keeps
//! the audit trail. [`laws`] states what holds of all of it together.
//!
//! The library decides and computes; it opens no file, reads no clock and starts no thread.

pub mod broker;
pub mod cancel;
pub mod capability;
pub mod command;
pub mod context;
pub mod laws;
pub mod native;
pub mod path;
pub mod pipe;
pub mod policy;
pub mod runtime;
pub mod store;
pub mod text;
pub mod watch;

pub use crate::broker::ActionBroker;
pub use crate::command::{CommandRequest, ExecutionMode};
pub use crate::runtime::{RuntimeError, WasiOutput, WasiRuntime};
