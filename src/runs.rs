//! Arbitrary interleavings of pushes and pops, and what holds of every one of them.
use crate::alphabet::is_symbol;
use crate::queue::{lemma_pop_step, pop_model, push_model, QueueModel};
use vstd::prelude::*;

verus! {

/// One call on a queue.
pub enum QueueOp {
    Push(u8),
    Pop,
}

/// The model after a sequence of calls, and what each pop among them returned.
pub open spec fn run_ops(m: QueueModel, ops: Seq<QueueOp>) -> (QueueModel, Seq<Option<u8>>)
    decreases ops.len(),
{
    if ops.len() == 0 {
        (m, seq![])
    } else {
        match ops[0] {
            QueueOp::Push(b) => run_ops(push_model(m, b), ops.drop_first()),
            QueueOp::Pop => {
                let (f, rs) = run_ops(pop_model(m).0, ops.drop_first());
                (f, seq![pop_model(m).1] + rs)
            },
        }
    }
}

/// How many pops produced a character.
pub open spec fn count_emitted(rs: Seq<Option<u8>>) -> nat
    decreases rs.len(),
{
    if rs.len() == 0 {
        0
    } else {
        (if rs[0] is Some {
            1nat
        } else {
            0nat
        }) + count_emitted(rs.drop_first())
    }
}

/// Each byte pushed and then popped at once, in turn.
pub open spec fn push_then_pop(bs: Seq<u8>) -> Seq<QueueOp>
    decreases bs.len(),
{
    if bs.len() == 0 {
        seq![]
    } else {
        seq![QueueOp::Push(bs[0]), QueueOp::Pop] + push_then_pop(bs.drop_first())
    }
}

/// A pop, then a push of each byte, in turn.
pub open spec fn pop_then_push(bs: Seq<u8>) -> Seq<QueueOp>
    decreases bs.len(),
{
    if bs.len() == 0 {
        seq![]
    } else {
        seq![QueueOp::Pop, QueueOp::Push(bs[0])] + pop_then_push(bs.drop_first())
    }
}

/// Whatever the interleaving of pushes and pops, the phase moves on by one for
/// every character popped and by nothing else, so it cycles with period four.
pub proof fn lemma_phase_cycles(m: QueueModel, ops: Seq<QueueOp>)
    requires
        m.wf(),
    ensures
        run_ops(m, ops).0.wf(),
        run_ops(m, ops).0.phase == (m.phase + count_emitted(run_ops(m, ops).1)) % 4,
    decreases ops.len(),
{
    if ops.len() > 0 {
        let rest = ops.drop_first();
        match ops[0] {
            QueueOp::Push(b) => {
                lemma_phase_cycles(push_model(m, b), rest);
            },
            QueueOp::Pop => {
                lemma_pop_step(m);
                let n = pop_model(m).0;
                lemma_phase_cycles(n, rest);
                let rs = seq![pop_model(m).1] + run_ops(n, rest).1;
                assert(rs.drop_first() =~= run_ops(n, rest).1);
                assert(count_emitted(rs) == (if pop_model(m).1 is Some {
                    1nat
                } else {
                    0nat
                }) + count_emitted(run_ops(n, rest).1));
            },
        }
    }
}

/// Pushing before every pop never meets an empty queue: each pop produces a
/// character, from any well-formed state.
pub proof fn lemma_push_then_pop_never_dry(m: QueueModel, bs: Seq<u8>)
    requires
        m.wf(),
    ensures
        run_ops(m, push_then_pop(bs)).1.len() == bs.len(),
        forall|i: int| 0 <= i < bs.len() ==> #[trigger] run_ops(m, push_then_pop(bs)).1[i] is Some,
    decreases bs.len(),
{
    if bs.len() > 0 {
        let ops = push_then_pop(bs);
        let rest = push_then_pop(bs.drop_first());
        let pm = push_model(m, bs[0]);
        assert(ops.drop_first() =~= seq![QueueOp::Pop] + rest);
        assert((seq![QueueOp::Pop] + rest).drop_first() =~= rest);
        lemma_pop_step(pm);
        lemma_push_then_pop_never_dry(pop_model(pm).0, bs.drop_first());
        let tail = run_ops(pop_model(pm).0, rest).1;
        assert(ops[0] == QueueOp::Push(bs[0]));
        assert(run_ops(m, ops) == run_ops(pm, seq![QueueOp::Pop] + rest));
        assert((seq![QueueOp::Pop] + rest)[0] == QueueOp::Pop);
        assert(run_ops(m, ops).1 == seq![pop_model(pm).1] + tail);
    }
}

/// Once a byte is pending, popping and then pushing in turn never meets an empty
/// queue, nor pads: every pop produces one of the 64 symbols.
pub proof fn lemma_pop_then_push_yields_symbols(m: QueueModel, bs: Seq<u8>)
    requires
        m.wf(),
        m.pending.len() >= 1,
    ensures
        run_ops(m, pop_then_push(bs)).1.len() == bs.len(),
        forall|i: int|
            0 <= i < bs.len() ==> {
                let r = #[trigger] run_ops(m, pop_then_push(bs)).1[i];
                r is Some && is_symbol(r.unwrap())
            },
    decreases bs.len(),
{
    if bs.len() > 0 {
        let ops = pop_then_push(bs);
        let rest = pop_then_push(bs.drop_first());
        let n = pop_model(m).0;
        assert(ops.drop_first() =~= seq![QueueOp::Push(bs[0])] + rest);
        assert((seq![QueueOp::Push(bs[0])] + rest).drop_first() =~= rest);
        lemma_pop_step(m);
        lemma_pop_then_push_yields_symbols(push_model(n, bs[0]), bs.drop_first());
        let tail = run_ops(push_model(n, bs[0]), rest).1;
        assert(ops[0] == QueueOp::Pop);
        assert((seq![QueueOp::Push(bs[0])] + rest)[0] == QueueOp::Push(bs[0]));
        assert(run_ops(n, seq![QueueOp::Push(bs[0])] + rest) == run_ops(push_model(n, bs[0]), rest));
        assert(run_ops(m, ops).1 == seq![pop_model(m).1] + tail);
    }
}

} // verus!
