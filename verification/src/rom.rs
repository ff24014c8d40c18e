//! The ROM console backend: bytes go through the vendor's transmit routine in
//! chunks, and each chunk is flushed on the output channel that is active at
//! that moment.

use vstd::prelude::*;
use crate::protocol::{Action, Phase, Reply};

verus! {

/// Entry point of `fn(u8) -> i32`, which transmits one byte.
pub const TX_ONE_CHAR: usize = 0x4000_0068;

/// Entry point of `fn(u8)`, which flushes one output channel.
pub const TX_FLUSH: usize = 0x4000_0080;

/// Entry point of `fn() -> u8`, which names the active output channel.
pub const GET_CHANNEL: usize = 0x4000_058C;

/// Address of the boolean that is set while output goes to USB-JTAG.
pub const G_USB_PRINT_ADDR: usize = 0x3FCD_FFD0;

/// Bytes between two flushes.
pub const CHUNK_SIZE: usize = 32;

/// The output channel of USB-JTAG.
pub const USB_JTAG_CHANNEL: u8 = 3;

/// Number of chunks that `len` bytes fall into.
pub open spec fn chunks(len: nat) -> nat {
    (len + CHUNK_SIZE - 1) as nat / (CHUNK_SIZE as nat)
}

/// Whether a flush is due once `sent` of `len` bytes went out: a chunk is
/// full, or the last byte is out.
pub open spec fn chunk_ends(sent: nat, len: nat) -> bool {
    sent % (CHUNK_SIZE as nat) == 0 || sent == len
}

/// The call that transmits `byte`.
pub open spec fn transmit(byte: u8) -> Action {
    Action::CallTxByte { addr: TX_ONE_CHAR, byte }
}

/// One step of a flush. The USB-JTAG flag is read first. If it is set, the
/// USB-JTAG channel is flushed and the ROM is not asked; otherwise the ROM is
/// asked for the active channel and that one is flushed. An answer of the
/// wrong kind has the question asked again.
pub open spec fn resolve(phase: Phase, reply: Reply) -> (Action, Phase) {
    match phase {
        Phase::AwaitFlag => match reply {
            Reply::Flag(true) => (
                Action::CallTxFlush { addr: TX_FLUSH, channel: USB_JTAG_CHANNEL },
                Phase::Idle,
            ),
            Reply::Flag(false) => (
                Action::CallGetChannel { addr: GET_CHANNEL },
                Phase::AwaitChannel,
            ),
            _ => (Action::ReadFlag { addr: G_USB_PRINT_ADDR }, Phase::AwaitFlag),
        },
        Phase::AwaitChannel => match reply {
            Reply::Channel(channel) => (
                Action::CallTxFlush { addr: TX_FLUSH, channel },
                Phase::Idle,
            ),
            _ => (Action::CallGetChannel { addr: GET_CHANNEL }, Phase::AwaitChannel),
        },
        _ => (Action::ReadFlag { addr: G_USB_PRINT_ADDR }, Phase::AwaitFlag),
    }
}

/// The ROM console.
pub struct Device;

impl Device {
    /// The call that hands `b` to the ROM's transmit routine.
    pub fn tx_byte(b: u8) -> (a: Action)
        ensures
            a == transmit(b),
    {
        Action::CallTxByte { addr: TX_ONE_CHAR, byte: b }
    }

    /// Decides the next step of a flush: see [`resolve`].
    pub fn flush(phase: Phase, reply: Reply) -> (r: (Action, Phase))
        ensures
            r == resolve(phase, reply),
    {
        match phase {
            Phase::AwaitFlag => match reply {
                Reply::Flag(true) => (
                    Action::CallTxFlush { addr: TX_FLUSH, channel: USB_JTAG_CHANNEL },
                    Phase::Idle,
                ),
                Reply::Flag(false) => (
                    Action::CallGetChannel { addr: GET_CHANNEL },
                    Phase::AwaitChannel,
                ),
                _ => (Action::ReadFlag { addr: G_USB_PRINT_ADDR }, Phase::AwaitFlag),
            },
            Phase::AwaitChannel => match reply {
                Reply::Channel(channel) => (
                    Action::CallTxFlush { addr: TX_FLUSH, channel },
                    Phase::Idle,
                ),
                _ => (Action::CallGetChannel { addr: GET_CHANNEL }, Phase::AwaitChannel),
            },
            _ => (Action::ReadFlag { addr: G_USB_PRINT_ADDR }, Phase::AwaitFlag),
        }
    }
}

} // verus!
