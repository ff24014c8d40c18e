//! What a transfer asks of the hardware, what the hardware answers, and where
//! a transfer stands between two such exchanges.

use vstd::prelude::*;

verus! {

/// One hardware operation that the driver of a transfer must perform.
#[allow(inconsistent_fields)]
#[derive(Clone, Copy, Debug, PartialEq, Eq, Structural)]
pub enum Action {
    /// Read the 32-bit register at `addr`; answer with [`Reply::Word`].
    ReadWord { addr: u32 },
    /// Write `value` to the 32-bit register at `addr`.
    WriteWord { addr: u32, value: u32 },
    /// Read the boolean stored at `addr`; answer with [`Reply::Flag`].
    ReadFlag { addr: usize },
    /// Call the ROM routine at `addr` that transmits `byte`; its status is
    /// discarded.
    CallTxByte { addr: usize, byte: u8 },
    /// Call the ROM routine at `addr` that names the active output channel;
    /// answer with [`Reply::Channel`].
    CallGetChannel { addr: usize },
    /// Call the ROM routine at `addr` that flushes output channel `channel`.
    CallTxFlush { addr: usize, channel: u8 },
    /// Nothing is left to do.
    Done,
}

/// What the hardware answered to the action before.
#[derive(Clone, Copy, Debug, PartialEq, Eq, Structural)]
pub enum Reply {
    /// The action before returned nothing, or there was none.
    Nothing,
    /// The value of the register that was read.
    Word(u32),
    /// The boolean that was read.
    Flag(bool),
    /// The channel id that the ROM reported.
    Channel(u8),
}

/// Where a transfer stands between two steps.
#[derive(Clone, Copy, Debug, PartialEq, Eq, Structural)]
pub enum Phase {
    /// No answer is awaited.
    Idle,
    /// The UART status register was read; its value is awaited.
    Polling,
    /// A chunk went through the ROM and its flush has not begun.
    FlushDue,
    /// The USB-JTAG flag was read; its value is awaited.
    AwaitFlag,
    /// The ROM was asked for the active channel; its id is awaited.
    AwaitChannel,
}

/// Whether `reply` is of the kind that `action` is answered with.
pub open spec fn answers(action: Action, reply: Reply) -> bool {
    match action {
        Action::ReadWord { .. } => reply is Word,
        Action::ReadFlag { .. } => reply is Flag,
        Action::CallGetChannel { .. } => reply is Channel,
        _ => reply is Nothing,
    }
}

/// The byte that an action puts on the wire, if it puts one there.
pub open spec fn payload(action: Action) -> Option<int> {
    match action {
        Action::WriteWord { value, .. } => Some(value as int),
        Action::CallTxByte { byte, .. } => Some(byte as int),
        _ => None,
    }
}

} // verus!
