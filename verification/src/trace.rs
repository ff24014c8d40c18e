//! Whole runs of a transfer: the actions that it names when a driver feeds it
//! one reply per step, and what holds of every such run.

use vstd::prelude::*;
use crate::printer::State;
use crate::protocol::{answers, payload, Action, Reply};
use crate::rom;

verus! {

/// The state that `s` reaches when the driver feeds it `replies`, one per
/// step.
pub open spec fn after(s: State, replies: Seq<Reply>) -> State
    decreases replies.len(),
{
    if replies.len() == 0 {
        s
    } else {
        after(s, replies.drop_last()).step(replies.last()).0
    }
}

/// The actions that those steps name, in order.
pub open spec fn trace(s: State, replies: Seq<Reply>) -> Seq<Action> {
    Seq::new(replies.len(), |i: int| after(s, replies.take(i)).step(replies[i]).1)
}

/// Whether each reply but the first is of the kind that the action before it
/// is answered with.
pub open spec fn conforming(s: State, replies: Seq<Reply>) -> bool {
    forall|i: int|
        0 <= i < replies.len() - 1 ==> answers(#[trigger] trace(s, replies)[i], replies[i + 1])
}

/// How many actions of `t` satisfy `p`.
pub open spec fn count(t: Seq<Action>, p: spec_fn(Action) -> bool) -> nat
    decreases t.len(),
{
    if t.len() == 0 {
        0
    } else {
        count(t.drop_last(), p) + if p(t.last()) {
            1nat
        } else {
            0nat
        }
    }
}

/// How many flushes `t` holds.
pub open spec fn flushes(t: Seq<Action>) -> nat {
    count(t, |a: Action| a is CallTxFlush)
}

/// How many reads of the USB-JTAG flag `t` holds.
pub open spec fn flag_reads(t: Seq<Action>) -> nat {
    count(t, |a: Action| a is ReadFlag)
}

/// The bytes that `t` puts on the wire, in order.
pub open spec fn emitted(t: Seq<Action>) -> Seq<int>
    decreases t.len(),
{
    if t.len() == 0 {
        Seq::empty()
    } else {
        match payload(t.last()) {
            Some(b) => emitted(t.drop_last()).push(b),
            None => emitted(t.drop_last()),
        }
    }
}

/// The flushes that a ROM transfer in state `s` has behind it: one for each
/// chunk that went out, but for the chunk whose flush is under way.
pub open spec fn flushed(s: State) -> nat {
    if s.phase is Idle {
        if s.sent >= s.bytes.len() {
            rom::chunks(s.bytes.len())
        } else {
            s.sent / (rom::CHUNK_SIZE as nat)
        }
    } else {
        ((s.sent - 1) / (rom::CHUNK_SIZE as int)) as nat
    }
}

/// A step keeps a state well-formed, keeps its backend and bytes, and sends at
/// most one byte.
pub proof fn lemma_step_wf(s: State, reply: Reply)
    requires
        s.wf(),
    ensures
        s.step(reply).0.wf(),
        s.step(reply).0.backend == s.backend,
        s.step(reply).0.bytes == s.bytes,
        s.sent <= s.step(reply).0.sent <= s.sent + 1,
{
}

/// Feeding one more reply is one more step.
pub proof fn lemma_after_push(s: State, replies: Seq<Reply>, i: int)
    requires
        0 <= i < replies.len(),
    ensures
        after(s, replies.take(i + 1)) == after(s, replies.take(i)).step(replies[i]).0,
        trace(s, replies)[i] == after(s, replies.take(i)).step(replies[i]).1,
{
    assert(replies.take(i + 1).drop_last() =~= replies.take(i));
}

/// Every state of a run that starts well-formed is well-formed.
pub proof fn lemma_after_wf(s: State, replies: Seq<Reply>)
    requires
        s.wf(),
    ensures
        after(s, replies).wf(),
        after(s, replies).backend == s.backend,
        after(s, replies).bytes == s.bytes,
        s.sent <= after(s, replies).sent,
    decreases replies.len(),
{
    if replies.len() > 0 {
        lemma_after_wf(s, replies.drop_last());
        lemma_step_wf(after(s, replies.drop_last()), replies.last());
    }
}

/// The trace of a shorter run is the start of the trace of a longer one.
pub proof fn lemma_trace_take(s: State, replies: Seq<Reply>, n: int)
    requires
        0 <= n <= replies.len(),
    ensures
        trace(s, replies).take(n) == trace(s, replies.take(n)),
{
    assert forall|i: int| 0 <= i < n implies trace(s, replies).take(n)[i] == trace(
        s,
        replies.take(n),
    )[i] by {
        assert(replies.take(n).take(i) =~= replies.take(i));
    }
    assert(trace(s, replies).take(n) =~= trace(s, replies.take(n)));
}

} // verus!
