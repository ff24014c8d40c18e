//! What holds of every run of a transfer from its start.

use vstd::prelude::*;
use crate::printer::{Backend, State};
use crate::protocol::{answers, payload, Action, Phase, Reply};
use crate::rom;
use crate::trace::{
    after, conforming, emitted, flag_reads, flushed, flushes, lemma_after_push, lemma_after_wf,
    lemma_trace_take, trace,
};
use crate::uart;

verus! {

/// The bytes of `bytes` as they appear on the wire.
pub open spec fn wire(bytes: Seq<u8>) -> Seq<int> {
    bytes.map_values(|b: u8| b as int)
}

/// A finished transfer stays as it is and asks nothing more of the hardware,
/// whatever it is fed.
pub proof fn lemma_finished_is_silent(s: State, replies: Seq<Reply>)
    requires
        s.finished(),
    ensures
        after(s, replies) == s,
        forall|i: int| 0 <= i < replies.len() ==> trace(s, replies)[i] == Action::Done,
    decreases replies.len(),
{
    if replies.len() > 0 {
        lemma_finished_is_silent(s, replies.drop_last());
    }
    assert forall|i: int| 0 <= i < replies.len() implies trace(s, replies)[i]
        == Action::Done by {
        lemma_finished_is_silent(s, replies.take(i));
    }
}

/// Writing no bytes touches no register and calls no ROM routine, on any
/// backend: the first step already reports that nothing is left to do.
pub proof fn lemma_empty_write_is_silent(backend: Backend, replies: Seq<Reply>)
    ensures
        State::start(backend, Seq::empty()).finished(),
        forall|i: int|
            0 <= i < replies.len() ==> trace(State::start(backend, Seq::empty()), replies)[i]
                == Action::Done,
{
    lemma_finished_is_silent(State::start(backend, Seq::empty()), replies);
}

/// A muted channel touches no register and calls no ROM routine, whatever is
/// written to it.
pub proof fn lemma_muted_is_silent(bytes: Seq<u8>, replies: Seq<Reply>)
    ensures
        State::start(Backend::Muted, bytes).finished(),
        forall|i: int|
            0 <= i < replies.len() ==> trace(State::start(Backend::Muted, bytes), replies)[i]
                == Action::Done,
{
    lemma_finished_is_silent(State::start(Backend::Muted, bytes), replies);
}

/// On a UART, a byte is written to the data register only in answer to a
/// status word with bit 7 set, and that word was read from the status register
/// by the action just before. The byte written is the next one that is due,
/// zero-extended.
pub proof fn lemma_uart_writes_only_when_ready(
    base: u32,
    bytes: Seq<u8>,
    replies: Seq<Reply>,
    i: int,
)
    requires
        uart::base_ok(base),
        0 <= i < replies.len(),
        trace(State::start(Backend::Uart { base }, bytes), replies)[i] is WriteWord,
    ensures
        i >= 1,
        trace(State::start(Backend::Uart { base }, bytes), replies)[i - 1] == (Action::ReadWord {
            addr: uart::status_addr(base),
        }),
        replies[i] matches Reply::Word(isr) && isr & 0x80 != 0,
        after(State::start(Backend::Uart { base }, bytes), replies.take(i)).sent < bytes.len(),
        trace(State::start(Backend::Uart { base }, bytes), replies)[i] == (Action::WriteWord {
            addr: uart::data_addr(base),
            value: bytes[after(
                State::start(Backend::Uart { base }, bytes),
                replies.take(i),
            ).sent as int] as u32,
        }),
{
    let s0 = State::start(Backend::Uart { base }, bytes);
    let s = after(s0, replies.take(i));
    lemma_after_wf(s0, replies.take(i));
    lemma_after_push(s0, replies, i);
    assert(s.phase is Polling);
    if i == 0 {
        assert(replies.take(0).len() == 0);
    } else {
        lemma_after_wf(s0, replies.take(i - 1));
        lemma_after_push(s0, replies, i - 1);
    }
}

/// On a UART, the answer to a status read decides the next action: a word
/// with bit 7 set has the byte that is due written at once, and anything else
/// has the status read again.
pub proof fn lemma_uart_status_decides(base: u32, bytes: Seq<u8>, replies: Seq<Reply>, i: int)
    requires
        uart::base_ok(base),
        0 <= i < replies.len() - 1,
        trace(State::start(Backend::Uart { base }, bytes), replies)[i] is ReadWord,
    ensures
        after(State::start(Backend::Uart { base }, bytes), replies.take(i + 1)).sent
            < bytes.len(),
        trace(State::start(Backend::Uart { base }, bytes), replies)[i + 1] == if replies[i
            + 1] matches Reply::Word(isr) && isr & 0x80 != 0 {
            Action::WriteWord {
                addr: uart::data_addr(base),
                value: bytes[after(
                    State::start(Backend::Uart { base }, bytes),
                    replies.take(i + 1),
                ).sent as int] as u32,
            }
        } else {
            Action::ReadWord { addr: uart::status_addr(base) }
        },
{
    let s0 = State::start(Backend::Uart { base }, bytes);
    lemma_after_wf(s0, replies.take(i));
    lemma_after_push(s0, replies, i);
    lemma_after_push(s0, replies, i + 1);
}

/// One step puts a byte on the wire exactly when it moves on to the next
/// byte, and the byte on the wire is the one that was due.
pub proof fn lemma_step_emits(s: State, reply: Reply)
    requires
        s.wf(),
    ensures
        match payload(s.step(reply).1) {
            Some(b) => s.sent < s.bytes.len() && s.step(reply).0.sent == s.sent + 1 && b
                == s.bytes[s.sent as int],
            None => s.step(reply).0.sent == s.sent,
        },
{
}

/// The bytes that reach the wire are a prefix of the bytes that were written,
/// in their order, and as long as the count of bytes that the transfer has
/// sent. A finished transfer has put all of them there.
pub proof fn lemma_emits_bytes_in_order(backend: Backend, bytes: Seq<u8>, replies: Seq<Reply>)
    requires
        backend.wf(),
    ensures
        after(State::start(backend, bytes), replies).sent <= bytes.len(),
        emitted(trace(State::start(backend, bytes), replies)) == wire(
            bytes.take(after(State::start(backend, bytes), replies).sent as int),
        ),
        after(State::start(backend, bytes), replies).finished() && !(backend is Muted) ==> emitted(
            trace(State::start(backend, bytes), replies),
        ) == wire(bytes),
    decreases replies.len(),
{
    let s0 = State::start(backend, bytes);
    let t = trace(s0, replies);
    lemma_after_wf(s0, replies);
    if replies.len() == 0 {
        assert(emitted(t) =~= wire(bytes.take(0)));
    } else {
        let shorter = replies.drop_last();
        let s = after(s0, shorter);
        lemma_emits_bytes_in_order(backend, bytes, shorter);
        lemma_after_wf(s0, shorter);
        lemma_trace_take(s0, replies, replies.len() - 1);
        assert(replies.take(replies.len() - 1) =~= shorter);
        assert(t.drop_last() =~= t.take(replies.len() - 1));
        assert(t.last() == s.step(replies.last()).1);
        lemma_step_emits(s, replies.last());
        let k = s.sent as int;
        if payload(t.last()) is Some {
            assert(wire(bytes.take(k)).push(bytes[k] as int) =~= wire(bytes.take(k + 1)));
        }
    }
    let n = after(s0, replies).sent as int;
    if after(s0, replies).finished() && !(backend is Muted) {
        assert(bytes.take(n) =~= bytes);
    }
}

/// The trace of a run, split into what came before its last step and that
/// step.
proof fn lemma_trace_last(s0: State, replies: Seq<Reply>)
    requires
        replies.len() > 0,
    ensures
        trace(s0, replies).drop_last() == trace(s0, replies.drop_last()),
        trace(s0, replies).last() == after(s0, replies.drop_last()).step(replies.last()).1,
        after(s0, replies) == after(s0, replies.drop_last()).step(replies.last()).0,
{
    let n = replies.len() - 1;
    lemma_trace_take(s0, replies, n);
    assert(replies.take(n) =~= replies.drop_last());
    assert(trace(s0, replies).drop_last() =~= trace(s0, replies).take(n));
}

/// One step of a ROM transfer flushes exactly when the count of flushes behind
/// it grows, and then by one.
pub proof fn lemma_step_flushes(s: State, reply: Reply)
    requires
        s.wf(),
        s.backend is Rom,
    ensures
        flushed(s.step(reply).0) == flushed(s) + if s.step(reply).1 is CallTxFlush {
            1nat
        } else {
            0nat
        },
{
}

/// On the ROM console, the flushes of a run are as many as the chunks that
/// went out, but for a chunk whose flush is still under way. A finished
/// transfer of `n` bytes has flushed `ceil(n / 32)` times.
pub proof fn lemma_rom_flush_count(bytes: Seq<u8>, replies: Seq<Reply>)
    ensures
        flushes(trace(State::start(Backend::Rom, bytes), replies)) == flushed(
            after(State::start(Backend::Rom, bytes), replies),
        ),
        after(State::start(Backend::Rom, bytes), replies).finished() ==> flushes(
            trace(State::start(Backend::Rom, bytes), replies),
        ) == (bytes.len() + 31) / 32,
    decreases replies.len(),
{
    let s0 = State::start(Backend::Rom, bytes);
    if replies.len() > 0 {
        let shorter = replies.drop_last();
        lemma_rom_flush_count(bytes, shorter);
        lemma_after_wf(s0, shorter);
        lemma_trace_last(s0, replies);
        lemma_step_flushes(after(s0, shorter), replies.last());
    }
}

/// A run that stands in wait of the USB-JTAG flag, or of the channel id, named
/// the matching question in its last step.
proof fn lemma_rom_awaits_its_question(bytes: Seq<u8>, replies: Seq<Reply>)
    ensures
        after(State::start(Backend::Rom, bytes), replies).phase is AwaitFlag ==> replies.len() > 0
            && trace(State::start(Backend::Rom, bytes), replies).last() == (Action::ReadFlag {
            addr: rom::G_USB_PRINT_ADDR,
        }),
        after(State::start(Backend::Rom, bytes), replies).phase is AwaitChannel ==> replies.len()
            > 0 && trace(State::start(Backend::Rom, bytes), replies).last()
            == (Action::CallGetChannel { addr: rom::GET_CHANNEL }),
{
    let s0 = State::start(Backend::Rom, bytes);
    if replies.len() > 0 {
        lemma_after_wf(s0, replies.drop_last());
        lemma_trace_last(s0, replies);
    }
}

/// A conforming run stays conforming when its last reply is left out.
proof fn lemma_conforming_drop_last(s0: State, replies: Seq<Reply>)
    requires
        replies.len() > 0,
        conforming(s0, replies),
    ensures
        conforming(s0, replies.drop_last()),
{
    let shorter = replies.drop_last();
    lemma_trace_last(s0, replies);
    assert forall|i: int| 0 <= i < shorter.len() - 1 implies answers(
        #[trigger] trace(s0, shorter)[i],
        shorter[i + 1],
    ) by {
        assert(trace(s0, shorter)[i] == trace(s0, replies)[i]);
    }
}

/// On the ROM console, where each question is answered in kind, the USB-JTAG
/// flag is read once for each flush, and once more while a flush is under way:
/// the output channel is resolved anew for every chunk. A finished transfer of
/// `n` bytes has read the flag `ceil(n / 32)` times.
pub proof fn lemma_rom_resolves_once_per_flush(bytes: Seq<u8>, replies: Seq<Reply>)
    requires
        conforming(State::start(Backend::Rom, bytes), replies),
    ensures
        flag_reads(trace(State::start(Backend::Rom, bytes), replies)) == flushes(
            trace(State::start(Backend::Rom, bytes), replies),
        ) + if after(State::start(Backend::Rom, bytes), replies).phase is AwaitFlag || after(
            State::start(Backend::Rom, bytes),
            replies,
        ).phase is AwaitChannel {
            1nat
        } else {
            0nat
        },
        after(State::start(Backend::Rom, bytes), replies).finished() ==> flag_reads(
            trace(State::start(Backend::Rom, bytes), replies),
        ) == (bytes.len() + 31) / 32,
    decreases replies.len(),
{
    let s0 = State::start(Backend::Rom, bytes);
    lemma_rom_flush_count(bytes, replies);
    if replies.len() > 0 {
        let shorter = replies.drop_last();
        let s = after(s0, shorter);
        lemma_conforming_drop_last(s0, replies);
        lemma_rom_resolves_once_per_flush(bytes, shorter);
        lemma_rom_flush_count(bytes, shorter);
        lemma_after_wf(s0, shorter);
        lemma_trace_last(s0, replies);
        lemma_step_flushes(s, replies.last());
        if s.phase is AwaitFlag {
            lemma_rom_awaits_its_question(bytes, shorter);
            let i = shorter.len() - 1;
            assert(trace(s0, shorter).last() == trace(s0, replies)[i]);
            assert(answers(trace(s0, replies)[i], replies[i + 1]));
        }
    }
}

/// On the ROM console, where each question is answered in kind, every flush
/// comes straight out of a resolution of its own. Either the action before it
/// read the USB-JTAG flag, the flag was set, and channel 3 is flushed; or the
/// flag was read and found clear, the ROM was then asked for the active
/// channel, and the channel that it answered is flushed.
pub proof fn lemma_rom_flush_follows_resolution(bytes: Seq<u8>, replies: Seq<Reply>, i: int)
    requires
        conforming(State::start(Backend::Rom, bytes), replies),
        0 <= i < replies.len(),
        trace(State::start(Backend::Rom, bytes), replies)[i] is CallTxFlush,
    ensures
        i >= 1,
        ({
            let t = trace(State::start(Backend::Rom, bytes), replies);
            let read_flag = Action::ReadFlag { addr: rom::G_USB_PRINT_ADDR };
            let ask = Action::CallGetChannel { addr: rom::GET_CHANNEL };
            ||| {
                &&& t[i - 1] == read_flag
                &&& replies[i] == Reply::Flag(true)
                &&& t[i] == (Action::CallTxFlush { addr: rom::TX_FLUSH, channel: 3 })
            }
            ||| {
                &&& i >= 2
                &&& t[i - 2] == read_flag
                &&& replies[i - 1] == Reply::Flag(false)
                &&& t[i - 1] == ask
                &&& replies[i] matches Reply::Channel(channel)
                &&& t[i] == (Action::CallTxFlush { addr: rom::TX_FLUSH, channel })
            }
        }),
{
    let s0 = State::start(Backend::Rom, bytes);
    let t = trace(s0, replies);
    let s = after(s0, replies.take(i));
    lemma_after_wf(s0, replies.take(i));
    lemma_after_push(s0, replies, i);
    lemma_rom_awaits_its_question(bytes, replies.take(i));
    lemma_trace_take(s0, replies, i);
    assert(i >= 1);
    assert(trace(s0, replies.take(i)).last() == t[i - 1]);
    if s.phase is AwaitChannel {
        let before = after(s0, replies.take(i - 1));
        lemma_after_wf(s0, replies.take(i - 1));
        lemma_after_push(s0, replies, i - 1);
        lemma_rom_awaits_its_question(bytes, replies.take(i - 1));
        lemma_trace_take(s0, replies, i - 1);
        assert(before.phase is AwaitFlag || before.phase is AwaitChannel);
        assert(i >= 2);
        assert(trace(s0, replies.take(i - 1)).last() == t[i - 2]);
        assert(answers(t[i - 2], replies[i - 2 + 1]));
    }
}

/// On the ROM console, a flag that reads set is followed at once by a flush of
/// channel 3: the ROM is not asked for the active channel.
pub proof fn lemma_usb_jtag_skips_query(bytes: Seq<u8>, replies: Seq<Reply>, i: int)
    requires
        0 <= i < replies.len() - 1,
        trace(State::start(Backend::Rom, bytes), replies)[i] is ReadFlag,
        replies[i + 1] == Reply::Flag(true),
    ensures
        trace(State::start(Backend::Rom, bytes), replies)[i + 1] == (Action::CallTxFlush {
            addr: rom::TX_FLUSH,
            channel: rom::USB_JTAG_CHANNEL,
        }),
{
    let s0 = State::start(Backend::Rom, bytes);
    lemma_after_wf(s0, replies.take(i));
    lemma_after_push(s0, replies, i);
    lemma_after_push(s0, replies, i + 1);
}

/// On the ROM console, the flush that follows `k` earlier ones comes when
/// exactly `min(32 * (k + 1), n)` of the `n` bytes went out: chunks are cut at
/// every 32nd byte, and only the last may be shorter.
pub proof fn lemma_rom_chunk_boundaries(bytes: Seq<u8>, replies: Seq<Reply>, i: int)
    requires
        0 <= i < replies.len(),
        trace(State::start(Backend::Rom, bytes), replies)[i] is CallTxFlush,
    ensures
        ({
            let before = trace(State::start(Backend::Rom, bytes), replies).take(i);
            let full = 32 * (flushes(before) + 1);
            emitted(before).len() == if full <= bytes.len() {
                full
            } else {
                bytes.len()
            }
        }),
{
    let s0 = State::start(Backend::Rom, bytes);
    let s = after(s0, replies.take(i));
    lemma_trace_take(s0, replies, i);
    lemma_after_wf(s0, replies.take(i));
    lemma_after_push(s0, replies, i);
    lemma_rom_flush_count(bytes, replies.take(i));
    lemma_emits_bytes_in_order(Backend::Rom, bytes, replies.take(i));
}

/// The steps that a ROM transfer still takes at most, where each question is
/// answered in kind: one for each byte, three for each flush.
spec fn rom_steps_left(s: State) -> int {
    (s.bytes.len() - s.sent) + 3 * (rom::chunks(s.bytes.len()) - flushed(s)) - match s.phase {
        Phase::AwaitFlag => 1int,
        Phase::AwaitChannel => 2int,
        _ => 0int,
    }
}

/// A ROM transfer has no step left exactly when it is finished.
proof fn lemma_rom_steps_left_is_zero_at_the_end(s: State)
    requires
        s.wf(),
        s.backend is Rom,
    ensures
        rom_steps_left(s) >= 0,
        s.finished() <==> rom_steps_left(s) == 0,
{
}

/// Each step of a ROM transfer whose question was answered in kind brings the
/// end nearer.
proof fn lemma_rom_step_advances(s: State, reply: Reply)
    requires
        s.wf(),
        s.backend is Rom,
        !s.finished(),
        s.phase is AwaitFlag ==> reply is Flag,
        s.phase is AwaitChannel ==> reply is Channel,
    ensures
        rom_steps_left(s.step(reply).0) < rom_steps_left(s),
{
}

/// The steps that a conforming ROM run still takes at most.
proof fn lemma_rom_steps_left(bytes: Seq<u8>, replies: Seq<Reply>)
    requires
        conforming(State::start(Backend::Rom, bytes), replies),
    ensures
        after(State::start(Backend::Rom, bytes), replies).finished() || rom_steps_left(
            after(State::start(Backend::Rom, bytes), replies),
        ) <= bytes.len() + 3 * rom::chunks(bytes.len()) - replies.len(),
    decreases replies.len(),
{
    let s0 = State::start(Backend::Rom, bytes);
    if replies.len() > 0 {
        let shorter = replies.drop_last();
        let s = after(s0, shorter);
        lemma_conforming_drop_last(s0, replies);
        lemma_rom_steps_left(bytes, shorter);
        lemma_after_wf(s0, shorter);
        lemma_trace_last(s0, replies);
        if s.finished() {
            lemma_finished_is_silent(s, seq![replies.last()]);
            assert(seq![replies.last()].drop_last() =~= Seq::<Reply>::empty());
        } else {
            lemma_rom_awaits_its_question(bytes, shorter);
            if s.phase is AwaitFlag || s.phase is AwaitChannel {
                let i = shorter.len() - 1;
                assert(trace(s0, shorter).last() == trace(s0, replies)[i]);
                assert(answers(trace(s0, replies)[i], replies[i + 1]));
            }
            lemma_rom_step_advances(s, replies.last());
        }
    }
}

/// On the ROM console, where each question is answered in kind, a transfer of
/// `n` bytes is finished after `n + 3 * ceil(n / 32)` steps at the latest: the
/// ROM backend cannot keep its caller for good.
pub proof fn lemma_rom_finishes(bytes: Seq<u8>, replies: Seq<Reply>)
    requires
        conforming(State::start(Backend::Rom, bytes), replies),
        replies.len() >= bytes.len() + 3 * ((bytes.len() + 31) / 32),
    ensures
        after(State::start(Backend::Rom, bytes), replies).finished(),
{
    let s0 = State::start(Backend::Rom, bytes);
    lemma_rom_steps_left(bytes, replies);
    lemma_after_wf(s0, replies);
    lemma_rom_steps_left_is_zero_at_the_end(after(s0, replies));
}

/// Whether every read of the status register in the run was answered by a word
/// with bit 7 set.
pub open spec fn always_ready(s: State, replies: Seq<Reply>) -> bool {
    forall|i: int|
        0 <= i < replies.len() - 1 && #[trigger] trace(s, replies)[i] is ReadWord ==> (replies[i
            + 1] matches Reply::Word(isr) && uart::tx_ready(isr))
}

/// The steps that a UART transfer still takes where it never has to wait: a
/// status read and a write for each byte.
spec fn uart_steps_left(s: State) -> int {
    2 * (s.bytes.len() - s.sent) - if s.phase is Polling {
        1int
    } else {
        0int
    }
}

/// The steps that a UART run still takes where it never has to wait.
proof fn lemma_uart_steps_left(base: u32, bytes: Seq<u8>, replies: Seq<Reply>)
    requires
        uart::base_ok(base),
        always_ready(State::start(Backend::Uart { base }, bytes), replies),
    ensures
        after(State::start(Backend::Uart { base }, bytes), replies).finished() || uart_steps_left(
            after(State::start(Backend::Uart { base }, bytes), replies),
        ) <= 2 * bytes.len() - replies.len(),
    decreases replies.len(),
{
    let s0 = State::start(Backend::Uart { base }, bytes);
    if replies.len() > 0 {
        let shorter = replies.drop_last();
        let s = after(s0, shorter);
        lemma_trace_last(s0, replies);
        assert(always_ready(s0, shorter)) by {
            assert forall|i: int|
                0 <= i < shorter.len() - 1 && #[trigger] trace(
                    s0,
                    shorter,
                )[i] is ReadWord implies (shorter[i + 1] matches Reply::Word(isr)
                && uart::tx_ready(isr)) by {
                assert(trace(s0, shorter)[i] == trace(s0, replies)[i]);
            }
        }
        lemma_uart_steps_left(base, bytes, shorter);
        lemma_after_wf(s0, shorter);
        if s.finished() {
            lemma_finished_is_silent(s, seq![replies.last()]);
            assert(seq![replies.last()].drop_last() =~= Seq::<Reply>::empty());
        } else if s.phase is Polling {
            let i = shorter.len() - 1;
            assert(i >= 0);
            lemma_after_wf(s0, shorter.drop_last());
            lemma_trace_last(s0, shorter);
            assert(trace(s0, shorter).last() == trace(s0, replies)[i]);
            assert(trace(s0, replies)[i] is ReadWord);
        }
    }
}

/// On a UART whose transmit register is empty at every poll, a transfer of `n`
/// bytes is finished after `2 * n` steps: nothing but an unready peripheral
/// keeps the caller.
pub proof fn lemma_uart_finishes_when_ready(base: u32, bytes: Seq<u8>, replies: Seq<Reply>)
    requires
        uart::base_ok(base),
        always_ready(State::start(Backend::Uart { base }, bytes), replies),
        replies.len() >= 2 * bytes.len(),
    ensures
        after(State::start(Backend::Uart { base }, bytes), replies).finished(),
{
    let s0 = State::start(Backend::Uart { base }, bytes);
    lemma_uart_steps_left(base, bytes, replies);
    lemma_after_wf(s0, replies);
}

} // verus!
