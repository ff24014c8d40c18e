//! A blocking, single-writer diagnostic byte channel for microcontrollers.
//!
//! The channel never touches the hardware itself. A write is a
//! [`printer::Transfer`]: a small machine that names, one at a time, the
//! register accesses and ROM calls that put the bytes on the wire. The caller
//! performs each one and hands back what the hardware answered.

pub mod protocol;
pub mod uart;
pub mod rom;
pub mod printer;
pub mod logger;
pub mod trace;
pub mod laws;
