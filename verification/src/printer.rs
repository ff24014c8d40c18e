//! The output channel: a handle bound to one backend, and the transfers that
//! it starts.

use vstd::prelude::*;
use vstd::string::StringSliceAdditionalSpecFns;
use crate::protocol::{Action, Phase, Reply};
use crate::rom;
use crate::uart;

verus! {

/// The transport that a channel is bound to.
#[derive(Clone, Copy, Debug, PartialEq, Eq, Structural)]
pub enum Backend {
    /// A polled UART whose registers start at `base`.
    Uart { base: u32 },
    /// The vendor's ROM console.
    Rom,
    /// No transport: whatever is written is dropped.
    Muted,
}

impl Backend {
    /// Whether the backend names hardware that can be addressed.
    pub open spec fn wf(self) -> bool {
        self matches Backend::Uart { base } ==> uart::base_ok(base)
    }
}

/// A transfer as the contracts see it.
pub struct State {
    /// The transport.
    pub backend: Backend,
    /// The bytes to send.
    pub bytes: Seq<u8>,
    /// How many of them went to the hardware.
    pub sent: nat,
    /// What is outstanding.
    pub phase: Phase,
}

impl State {
    /// The transfer of `bytes` over `backend` before its first step.
    pub open spec fn start(backend: Backend, bytes: Seq<u8>) -> State {
        State { backend, bytes, sent: 0, phase: Phase::Idle }
    }

    /// Whether every byte went out and was flushed.
    pub open spec fn finished(self) -> bool {
        self.backend is Muted || (self.phase is Idle && self.sent >= self.bytes.len())
    }

    /// What holds of every state that a transfer passes through.
    pub open spec fn wf(self) -> bool {
        &&& self.backend.wf()
        &&& self.sent <= self.bytes.len()
        &&& match self.backend {
            Backend::Uart { .. } => self.phase is Idle || (self.phase is Polling && self.sent
                < self.bytes.len()),
            Backend::Rom => match self.phase {
                Phase::Idle => true,
                Phase::Polling => false,
                _ => self.sent > 0 && rom::chunk_ends(self.sent, self.bytes.len()),
            },
            Backend::Muted => self.phase is Idle && self.sent == 0,
        }
    }

    /// One step: the state that follows, and the action that the driver owes.
    ///
    /// A muted or finished transfer stays as it is and asks for nothing. A
    /// UART transfer polls for the byte that is due. A ROM transfer hands the
    /// next byte to the ROM, and resolves and flushes whenever a chunk ends.
    pub open spec fn step(self, reply: Reply) -> (State, Action) {
        match self.backend {
            Backend::Muted => (self, Action::Done),
            Backend::Uart { base } => if self.sent >= self.bytes.len() {
                (self, Action::Done)
            } else {
                let (action, phase) = uart::poll(
                    base,
                    self.bytes[self.sent as int],
                    self.phase,
                    reply,
                );
                let sent = if phase is Idle {
                    self.sent + 1
                } else {
                    self.sent
                };
                (State { sent, phase, ..self }, action)
            },
            Backend::Rom => if self.phase is Idle {
                if self.sent >= self.bytes.len() {
                    (self, Action::Done)
                } else {
                    let sent = self.sent + 1;
                    let phase = if rom::chunk_ends(sent, self.bytes.len()) {
                        Phase::FlushDue
                    } else {
                        Phase::Idle
                    };
                    (State { sent, phase, ..self }, rom::transmit(self.bytes[self.sent as int]))
                }
            } else {
                let (action, phase) = rom::resolve(self.phase, reply);
                (State { phase, ..self }, action)
            },
        }
    }
}

/// The one output sink of a program.
pub struct Printer {
    backend: Backend,
}

/// A write in progress.
pub struct Transfer<'a> {
    backend: Backend,
    bytes: &'a [u8],
    sent: usize,
    phase: Phase,
}

impl View for Printer {
    type V = Backend;

    closed spec fn view(&self) -> Backend {
        self.backend
    }
}

impl Printer {
    #[verifier::type_invariant]
    spec fn inv(self) -> bool {
        self.backend.wf()
    }

    /// Binds a channel to `backend`. A UART whose registers would lie beyond
    /// the address space is refused.
    pub fn new(backend: Backend) -> (r: Option<Printer>)
        ensures
            r is Some <==> backend.wf(),
            r matches Some(p) ==> p@ == backend,
    {
        match backend {
            Backend::Uart { base } => {
                if base > uart::MAX_BASE {
                    return None;
                }
            },
            _ => {},
        }
        Some(Printer { backend })
    }

    /// The backend that the channel is bound to.
    pub fn backend(&self) -> (b: Backend)
        ensures
            b == self@,
            b.wf(),
    {
        proof {
            use_type_invariant(self);
        }
        self.backend
    }

    /// Starts writing `bytes` without a flush at the end.
    pub fn write_bytes_assume_cs<'a>(&mut self, bytes: &'a [u8]) -> (t: Transfer<'a>)
        ensures
            *final(self) == *old(self),
            t@ == State::start(old(self)@, bytes@),
            t@.wf(),
    {
        proof {
            use_type_invariant(&*self);
        }
        Transfer { backend: self.backend, bytes, sent: 0, phase: Phase::Idle }
    }

    /// Flushes the channel. Every write leaves the channel flushed, so nothing
    /// is left to do.
    pub fn flush(&mut self)
        ensures
            *final(self) == *old(self),
    {
    }

    /// Starts writing `bytes`, with a flush at the end.
    pub fn write_bytes<'a>(&mut self, bytes: &'a [u8]) -> (t: Transfer<'a>)
        ensures
            *final(self) == *old(self),
            t@ == State::start(old(self)@, bytes@),
            t@.wf(),
    {
        let t = self.write_bytes_assume_cs(bytes);
        self.flush();
        t
    }

    /// Starts writing the UTF-8 bytes of `s`.
    pub fn write_str<'a>(&mut self, s: &'a str) -> (t: Transfer<'a>)
        ensures
            *final(self) == *old(self),
            t@ == State::start(old(self)@, s.spec_bytes()),
            t@.wf(),
    {
        self.write_bytes(s.as_bytes())
    }
}

impl<'a> View for Transfer<'a> {
    type V = State;

    closed spec fn view(&self) -> State {
        State {
            backend: self.backend,
            bytes: self.bytes@,
            sent: self.sent as nat,
            phase: self.phase,
        }
    }
}

impl<'a> Transfer<'a> {
    #[verifier::type_invariant]
    spec fn inv(self) -> bool {
        self@.wf()
    }

    /// Takes what the hardware answered to the action before and names the
    /// next one. The first step of a transfer ignores its reply.
    pub fn step(&mut self, reply: Reply) -> (action: Action)
        ensures
            (final(self)@, action) == old(self)@.step(reply),
            old(self)@.wf(),
            final(self)@.wf(),
    {
        proof {
            use_type_invariant(&*self);
        }
        match self.backend {
            Backend::Muted => Action::Done,
            Backend::Uart { base } => {
                if self.sent >= self.bytes.len() {
                    return Action::Done;
                }
                let (action, phase) = uart::Device::tx_byte(
                    base,
                    self.bytes[self.sent],
                    self.phase,
                    reply,
                );
                self.phase = phase;
                if let Phase::Idle = phase {
                    self.sent = self.sent + 1;
                }
                action
            },
            Backend::Rom => {
                if let Phase::Idle = self.phase {
                    if self.sent >= self.bytes.len() {
                        return Action::Done;
                    }
                    let action = rom::Device::tx_byte(self.bytes[self.sent]);
                    self.sent = self.sent + 1;
                    if self.sent % rom::CHUNK_SIZE == 0 || self.sent == self.bytes.len() {
                        self.phase = Phase::FlushDue;
                    }
                    action
                } else {
                    let (action, phase) = rom::Device::flush(self.phase, reply);
                    self.phase = phase;
                    action
                }
            },
        }
    }
}

} // verus!
