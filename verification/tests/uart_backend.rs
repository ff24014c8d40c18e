use uart_printer::printer::{Backend, Printer, Transfer};
use uart_printer::protocol::{Action, Reply};
use uart_printer::uart::{
    Device, MAX_BASE, OFFSET_ISR, OFFSET_TDR, UART1_BASE, UART2_BASE, UART_ISR_TXE,
};
use uart_printer::protocol::Phase;

const ISR1: u32 = 0x4001_381C;
const TDR1: u32 = 0x4001_3828;

/// Drives a transfer against a status register that yields `statuses` in
/// turn and reads as ready once they are used up.
fn drive(t: &mut Transfer, statuses: &[u32]) -> Vec<Action> {
    let mut log = Vec::new();
    let mut next = 0;
    let mut reply = Reply::Nothing;
    for _ in 0..10_000 {
        let action = t.step(reply);
        reply = match action {
            Action::Done => return log,
            Action::ReadWord { .. } => {
                let word = if next < statuses.len() { statuses[next] } else { 0x80 };
                next += 1;
                Reply::Word(word)
            }
            _ => Reply::Nothing,
        };
        log.push(action);
    }
    panic!("the transfer did not end");
}

fn uart1() -> Printer {
    Printer::new(Backend::Uart { base: UART1_BASE }).unwrap()
}

#[test]
fn register_map() {
    assert_eq!(UART1_BASE, 0x4001_3800);
    assert_eq!(UART2_BASE, 0x4001_3C00);
    assert_eq!(OFFSET_ISR, 0x1C);
    assert_eq!(OFFSET_TDR, 0x28);
    assert_eq!(UART_ISR_TXE, 1 << 7);
    assert_eq!(MAX_BASE, u32::MAX - 0x28);
}

#[test]
fn one_byte_with_ready_status_is_written_once() {
    let mut printer = uart1();
    let bytes = [0x41u8];
    let mut t = printer.write_bytes(&bytes);
    assert_eq!(t.step(Reply::Nothing), Action::ReadWord { addr: ISR1 });
    assert_eq!(t.step(Reply::Word(0x80)), Action::WriteWord { addr: TDR1, value: 0x41 });
    assert_eq!(t.step(Reply::Nothing), Action::Done);
    assert_eq!(t.step(Reply::Nothing), Action::Done);
}

#[test]
fn empty_write_touches_no_register() {
    let mut printer = uart1();
    let mut t = printer.write_bytes(&[]);
    assert_eq!(t.step(Reply::Nothing), Action::Done);
    let mut t = printer.write_bytes_assume_cs(&[]);
    assert_eq!(t.step(Reply::Word(0x80)), Action::Done);
    let mut t = printer.write_str("");
    assert_eq!(t.step(Reply::Nothing), Action::Done);
}

#[test]
fn write_waits_until_bit_seven_is_set() {
    let mut printer = uart1();
    let bytes = [0x5Au8];
    let mut t = printer.write_bytes(&bytes);
    let log = drive(&mut t, &[0x00, 0x7F, 0xFFFF_FF7F, 0x40, 0x80]);
    let poll = Action::ReadWord { addr: ISR1 };
    assert_eq!(
        log,
        vec![poll, poll, poll, poll, poll, Action::WriteWord { addr: TDR1, value: 0x5A }]
    );
}

#[test]
fn any_word_with_bit_seven_counts_as_ready() {
    for word in [0x80u32, 0x81, 0xFF, 0xFFFF_FFFF, 0x8000_0080] {
        let mut printer = uart1();
        let bytes = [7u8];
        let mut t = printer.write_bytes(&bytes);
        let log = drive(&mut t, &[word]);
        assert_eq!(
            log,
            vec![Action::ReadWord { addr: ISR1 }, Action::WriteWord { addr: TDR1, value: 7 }]
        );
    }
}

#[test]
fn each_byte_is_polled_for_and_written_in_order() {
    let mut printer = uart1();
    let bytes = [0x00u8, 0xFF, 0x80, 0x0A];
    let mut t = printer.write_bytes(&bytes);
    let log = drive(&mut t, &[0x80, 0, 0x80, 0x80, 0, 0, 0x80]);
    let poll = Action::ReadWord { addr: ISR1 };
    let write = |value: u32| Action::WriteWord { addr: TDR1, value };
    assert_eq!(
        log,
        vec![
            poll,
            write(0x00),
            poll,
            poll,
            write(0xFF),
            poll,
            write(0x80),
            poll,
            poll,
            poll,
            write(0x0A),
        ]
    );
}

#[test]
fn no_write_follows_a_status_without_bit_seven() {
    let mut printer = uart1();
    let bytes: Vec<u8> = (0..50).collect();
    let mut t = printer.write_bytes(&bytes);
    let statuses: Vec<u32> = (0..400u32).map(|i| i.wrapping_mul(0x9E37_79B9) >> 3).collect();
    let mut reply = Reply::Nothing;
    let mut written = Vec::new();
    let mut next = 0;
    loop {
        let action = t.step(reply);
        match action {
            Action::Done => break,
            Action::ReadWord { addr } => {
                assert_eq!(addr, ISR1);
                let word = if next < statuses.len() { statuses[next] } else { 0x80 };
                next += 1;
                reply = Reply::Word(word);
            }
            Action::WriteWord { addr, value } => {
                assert_eq!(addr, TDR1);
                match reply {
                    Reply::Word(word) => assert_ne!(word & 0x80, 0),
                    _ => panic!("a write without a status before it"),
                }
                written.push(value);
                reply = Reply::Nothing;
            }
            other => panic!("not a UART action: {:?}", other),
        }
    }
    let expected: Vec<u32> = (0..50).collect();
    assert_eq!(written, expected);
}

#[test]
fn a_reply_of_the_wrong_kind_is_no_ready_status() {
    let mut printer = uart1();
    let bytes = [1u8];
    let mut t = printer.write_bytes(&bytes);
    let poll = Action::ReadWord { addr: ISR1 };
    assert_eq!(t.step(Reply::Word(0x80)), poll);
    assert_eq!(t.step(Reply::Nothing), poll);
    assert_eq!(t.step(Reply::Flag(true)), poll);
    assert_eq!(t.step(Reply::Channel(0x80)), poll);
    assert_eq!(t.step(Reply::Word(0x80)), Action::WriteWord { addr: TDR1, value: 1 });
    assert_eq!(t.step(Reply::Word(0x80)), Action::Done);
}

#[test]
fn second_uart_uses_its_own_registers() {
    let mut printer = Printer::new(Backend::Uart { base: UART2_BASE }).unwrap();
    let bytes = [0x30u8];
    let mut t = printer.write_bytes(&bytes);
    let log = drive(&mut t, &[]);
    assert_eq!(
        log,
        vec![
            Action::ReadWord { addr: 0x4001_3C1C },
            Action::WriteWord { addr: 0x4001_3C28, value: 0x30 },
        ]
    );
}

#[test]
fn highest_base_is_accepted_and_the_next_refused() {
    let ok = Printer::new(Backend::Uart { base: 0xFFFF_FFD7 });
    assert!(ok.is_some());
    let mut printer = ok.unwrap();
    assert_eq!(printer.backend(), Backend::Uart { base: 0xFFFF_FFD7 });
    let bytes = [9u8];
    let mut t = printer.write_bytes(&bytes);
    let log = drive(&mut t, &[]);
    assert_eq!(
        log,
        vec![
            Action::ReadWord { addr: 0xFFFF_FFF3 },
            Action::WriteWord { addr: 0xFFFF_FFFF, value: 9 },
        ]
    );
    assert!(Printer::new(Backend::Uart { base: 0xFFFF_FFD8 }).is_none());
    assert!(Printer::new(Backend::Uart { base: u32::MAX }).is_none());
    assert!(Printer::new(Backend::Uart { base: 0 }).is_some());
}

#[test]
fn tx_byte_decides_one_register_access() {
    let poll = Action::ReadWord { addr: ISR1 };
    assert_eq!(
        Device::tx_byte(UART1_BASE, 0x41, Phase::Idle, Reply::Nothing),
        (poll, Phase::Polling)
    );
    assert_eq!(
        Device::tx_byte(UART1_BASE, 0x41, Phase::Idle, Reply::Word(0x80)),
        (poll, Phase::Polling)
    );
    assert_eq!(
        Device::tx_byte(UART1_BASE, 0x41, Phase::Polling, Reply::Word(0x7F)),
        (poll, Phase::Polling)
    );
    assert_eq!(
        Device::tx_byte(UART1_BASE, 0x41, Phase::Polling, Reply::Word(0x80)),
        (Action::WriteWord { addr: TDR1, value: 0x41 }, Phase::Idle)
    );
    assert_eq!(
        Device::tx_byte(UART1_BASE, 0xFF, Phase::Polling, Reply::Word(0x80)),
        (Action::WriteWord { addr: TDR1, value: 0xFF }, Phase::Idle)
    );
}

#[test]
fn write_str_sends_the_utf8_bytes() {
    let mut printer = uart1();
    let mut t = printer.write_str("h\u{e9}\n");
    let log = drive(&mut t, &[]);
    let written: Vec<u32> = log
        .iter()
        .filter_map(|a| match a {
            Action::WriteWord { value, .. } => Some(*value),
            _ => None,
        })
        .collect();
    assert_eq!(written, vec![0x68, 0xC3, 0xA9, 0x0A]);
}

#[test]
fn a_ready_uart_takes_two_steps_a_byte() {
    for len in [0usize, 1, 2, 33, 256] {
        let mut printer = uart1();
        let bytes = vec![0x11u8; len];
        let mut t = printer.write_bytes(&bytes);
        assert_eq!(drive(&mut t, &[]).len(), 2 * len);
    }
}
