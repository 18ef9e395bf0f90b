//! Cooperative cancellation for running sessions.
//!
//! A [`CancelHandle`] is a one-shot signal shared between a broker and a running
//! backend. Setting it interrupts the guest at its next epoch check; it is never
//! reset, so a cancelled session stays cancelled.

use std::sync::atomic::{AtomicBool, Ordering};
use std::sync::Arc;

use vstd::prelude::*;

verus! {

/// One-shot cancellation signal shared between a broker and a running backend.
///
/// Clones share the signal, so what a handle reports depends on every holder of a clone. No
/// contract speaks of the flag. A clone is equal to its original in specifications: the broker's
/// contracts say which session each handle belongs to, and the broker keeps its own record of which
/// sessions were cancelled.
///
/// The handle of a session that a broker holds only reports: its signal is set by cancelling the
/// session, through its [`Ticket`], and by nothing else.
#[derive(Debug)]
pub struct CancelHandle {
    flag: Arc<AtomicBool>,
    reports_only: bool,
}

impl CancelHandle {
    /// Whether the handle only reports, because its signal belongs to a session of a broker.
    pub closed spec fn only_reports(&self) -> bool {
        self.reports_only
    }

    /// Create a handle that has not been cancelled.
    pub fn new() -> (handle: Self)
        ensures
            !handle.only_reports(),
    {
        CancelHandle { flag: Arc::new(AtomicBool::new(false)), reports_only: false }
    }

    /// Request cancellation. Safe to call more than once.
    ///
    /// The handle of a session is not the place to ask: cancelling a session is up to its broker.
    pub fn cancel(&self) {
        if !self.reports_only {
            self.flag.store(true, Ordering::SeqCst);
        }
    }

    /// Whether cancellation was requested.
    pub fn is_cancelled(&self) -> (cancelled: bool) {
        self.flag.load(Ordering::SeqCst)
    }
}

impl Clone for CancelHandle {
    fn clone(&self) -> (copy: Self)
        ensures
            copy == *self,
    {
        CancelHandle { flag: self.flag.clone(), reports_only: self.reports_only }
    }
}

impl Default for CancelHandle {
    fn default() -> (handle: Self)
        ensures
            !handle.only_reports(),
    {
        CancelHandle::new()
    }
}

/// A session's place in a broker: the signal that interrupts it, and whether it was cancelled.
///
/// A ticket is the only way to set its signal. It starts with a signal of its own that is not set,
/// and sets it when it notes that the session was cancelled, so the signal is set exactly if the
/// ticket says so. There is no second ticket for a signal, and the handles that a ticket gives out
/// only report.
#[derive(Debug)]
pub struct Ticket {
    signal: CancelHandle,
    cancelled: bool,
}

impl Ticket {
    /// The handles that a ticket gives out only report.
    #[verifier::type_invariant]
    spec fn keeps_its_signal(self) -> bool {
        self.signal.only_reports()
    }

    /// The ticket of a session that was not cancelled.
    pub closed spec fn fresh(signal: CancelHandle) -> Ticket {
        Ticket { signal, cancelled: false }
    }

    /// The ticket of the same session once it was cancelled.
    pub closed spec fn marked(self) -> Ticket {
        Ticket { cancelled: true, ..self }
    }

    /// The signal that interrupts the session.
    pub closed spec fn signal(self) -> CancelHandle {
        self.signal
    }

    /// Whether the session was cancelled.
    pub closed spec fn cancelled(self) -> bool {
        self.cancelled
    }

    /// A ticket for a session that was not cancelled, with a signal of its own.
    pub(crate) fn new() -> (ticket: Ticket)
        ensures
            ticket == Ticket::fresh(ticket.signal()),
            ticket.signal().only_reports(),
    {
        let flag = Arc::new(AtomicBool::new(false));
        Ticket { signal: CancelHandle { flag, reports_only: true }, cancelled: false }
    }

    /// Cancel the session: set its signal and note it.
    pub(crate) fn mark(self) -> (ticket: Ticket)
        ensures
            ticket == self.marked(),
    {
        proof {
            use_type_invariant(&self);
        }
        self.signal.flag.store(true, Ordering::SeqCst);
        Ticket { signal: self.signal, cancelled: true }
    }

    /// A handle that reports whether the session was cancelled.
    pub(crate) fn handle(&self) -> (handle: CancelHandle)
        ensures
            handle == self.signal(),
            handle.only_reports(),
    {
        proof {
            use_type_invariant(self);
        }
        self.signal.clone()
    }

    /// Whether the session was cancelled.
    pub(crate) fn is_marked(&self) -> (marked: bool)
        ensures
            marked == self.cancelled(),
    {
        self.cancelled
    }
}

/// Cancelling a session is noted, once and for all, and changes neither which signal it has nor,
/// before it happens, that it was not cancelled.
pub proof fn law_tickets_tell_what_was_cancelled(ticket: Ticket, signal: CancelHandle)
    ensures
        !Ticket::fresh(signal).cancelled(),
        Ticket::fresh(signal).signal() == signal,
        ticket.marked().cancelled(),
        ticket.marked().signal() == ticket.signal(),
        ticket.marked().marked() == ticket.marked(),
        ticket.cancelled() ==> ticket.marked() == ticket,
        !ticket.cancelled() ==> ticket == Ticket::fresh(ticket.signal()),
{
}

} // verus!
