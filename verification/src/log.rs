//! The logging channel: every recoverable fault the engine meets is reported
//! as a structured [`LogEvent`] through a caller-supplied [`Logger`].

use vstd::prelude::*;

verus! {

/// One recoverable diagnostic.  Execution always continues after any of
/// these; the event only tells the driver what was substituted.
#[derive(Clone, Copy, Debug, PartialEq, Eq, Structural)]
pub enum LogEvent {
    /// A RAM byte that was never written was read (it reads as zero).
    ReadUnset { addr: u32 },
    /// A read or write touched an address outside RAM and every device;
    /// the read returned zero, the write was dropped.
    InvalidAddress { addr: u32 },
    /// The word fetched at `pc` decodes to no RV32I instruction; a no-op
    /// was executed in its place.
    InvalidInstruction { pc: u32 },
    /// The instruction at `pc` names a register index above 31; a no-op
    /// was executed in its place.
    InvalidRegister { pc: u32 },
}

/// The sink for diagnostics: a capability the driver passes by reference
/// into every fallible operation.  Implementers decide what a report
/// means (print it, collect it, drop it).
pub trait Logger {
    fn log(&mut self, event: LogEvent);
}

/// A `Logger` that keeps every event, in order.  Useful for tests and for
/// drivers that render diagnostics after the fact.
pub struct EventLog {
    pub events: Vec<LogEvent>,
}

impl EventLog {
    pub fn new() -> (r: EventLog)
        ensures
            r.events@.len() == 0,
    {
        EventLog { events: Vec::new() }
    }
}

impl Logger for EventLog {
    fn log(&mut self, event: LogEvent) {
        self.events.push(event);
    }
}

/// A `Logger` that drops every event, for read paths whose callers do not
/// care about diagnostics.
pub struct NullLogger;

impl Logger for NullLogger {
    fn log(&mut self, _event: LogEvent) {
    }
}

} // verus!
