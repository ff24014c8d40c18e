//! The polling UART backend: wait for the transmit register to drain, then
//! write one byte to it.

use vstd::prelude::*;
use crate::protocol::{Action, Phase, Reply};

verus! {

/// Register base of the first UART.
pub const UART1_BASE: u32 = 0x4001_3800;

/// Register base of the second UART.
pub const UART2_BASE: u32 = 0x4001_3C00;

/// Offset of the interrupt and status register.
pub const OFFSET_ISR: u32 = 0x1C;

/// Offset of the transmit data register.
pub const OFFSET_TDR: u32 = 0x28;

/// Status bit 7: the transmit data register is empty.
pub const UART_ISR_TXE: u32 = 0x80;

/// The highest base whose registers still lie inside the address space.
pub const MAX_BASE: u32 = 0xFFFF_FFD7;

/// Whether both registers of a UART at `base` have an address.
pub open spec fn base_ok(base: u32) -> bool {
    base + OFFSET_TDR <= u32::MAX
}

/// Address of the status register.
pub open spec fn status_addr(base: u32) -> u32
    recommends
        base_ok(base),
{
    (base + OFFSET_ISR) as u32
}

/// Address of the transmit data register.
pub open spec fn data_addr(base: u32) -> u32
    recommends
        base_ok(base),
{
    (base + OFFSET_TDR) as u32
}

/// Whether a status word says that the transmit register is empty.
pub open spec fn tx_ready(isr: u32) -> bool {
    isr & UART_ISR_TXE != 0
}

/// One step of sending `byte`. The byte is written only in answer to a status
/// word that shows the transmit register empty; on anything else the status
/// is read (again).
pub open spec fn poll(base: u32, byte: u8, phase: Phase, reply: Reply) -> (Action, Phase) {
    match (phase, reply) {
        (Phase::Polling, Reply::Word(isr)) if tx_ready(isr) => (
            Action::WriteWord { addr: data_addr(base), value: byte as u32 },
            Phase::Idle,
        ),
        _ => (Action::ReadWord { addr: status_addr(base) }, Phase::Polling),
    }
}

/// The UART peripheral.
pub struct Device;

impl Device {
    /// Decides the next register access for `b`: see [`poll`].
    pub fn tx_byte(base: u32, b: u8, phase: Phase, reply: Reply) -> (r: (Action, Phase))
        requires
            base_ok(base),
        ensures
            r == poll(base, b, phase, reply),
    {
        if let Phase::Polling = phase {
            if let Reply::Word(isr) = reply {
                if (isr & UART_ISR_TXE) != 0 {
                    return (
                        Action::WriteWord { addr: base + OFFSET_TDR, value: b as u32 },
                        Phase::Idle,
                    );
                }
            }
        }
        (Action::ReadWord { addr: base + OFFSET_ISR }, Phase::Polling)
    }
}

} // verus!
