//! The bridge from a structured logging framework to the output channel.

use vstd::prelude::*;
use crate::printer::{Backend, Printer, State, Transfer};

verus! {

/// The four hooks that a logging framework calls around each frame. The
/// bridge keeps no lock: it is for one execution context that does not
/// re-enter.
pub struct Logger {
    printer: Printer,
}

impl View for Logger {
    type V = Backend;

    closed spec fn view(&self) -> Backend {
        self.printer@
    }
}

impl Logger {
    /// A bridge to `printer`.
    pub fn new(printer: Printer) -> (logger: Logger)
        ensures
            logger@ == printer@,
    {
        Logger { printer }
    }

    /// Called before a frame. Nothing is acquired.
    pub fn acquire(&mut self)
        ensures
            *final(self) == *old(self),
    {
    }

    /// Called after a frame. Nothing is released.
    pub fn release(&mut self)
        ensures
            *final(self) == *old(self),
    {
    }

    /// Flushes the channel.
    pub fn flush(&mut self)
        ensures
            *final(self) == *old(self),
    {
        self.printer.flush();
    }

    /// Starts writing a fragment of a frame, without a flush of the channel at
    /// its end: the framework flushes when it sees fit.
    pub fn write<'a>(&mut self, data: &'a [u8]) -> (t: Transfer<'a>)
        ensures
            *final(self) == *old(self),
            t@ == State::start(old(self)@, data@),
            t@.wf(),
    {
        self.printer.write_bytes_assume_cs(data)
    }
}

} // verus!
