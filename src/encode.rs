//! Batch encoding: the standard 3-byte to 4-symbol base-64 grouping, and the proof
//! that the incremental queue produces it.
use crate::alphabet::{symbol_of, PAD};
use crate::queue::{
    first_slice, fourth_slice, pop_model, second_slice, third_slice, Base64Queue, QueueModel,
};
use vstd::prelude::*;

verus! {

/// Standard base-64 of a byte string, with `=` padding for a final short group.
pub open spec fn encode(s: Seq<u8>) -> Seq<u8>
    decreases s.len(),
{
    if s.len() == 0 {
        seq![]
    } else if s.len() == 1 {
        seq![symbol_of(first_slice(s[0])), symbol_of(second_slice(s[0], 0)), PAD, PAD]
    } else if s.len() == 2 {
        seq![
            symbol_of(first_slice(s[0])),
            symbol_of(second_slice(s[0], s[1])),
            symbol_of(third_slice(s[1], 0)),
            PAD,
        ]
    } else {
        seq![
            symbol_of(first_slice(s[0])),
            symbol_of(second_slice(s[0], s[1])),
            symbol_of(third_slice(s[1], s[2])),
            symbol_of(fourth_slice(s[2])),
        ] + encode(s.subrange(3, s.len() as int))
    }
}

/// Orders the phases so that every successful pop lowers `drain_measure`.
pub open spec fn phase_rank(phase: nat) -> nat {
    if phase == 0 {
        1
    } else if phase == 1 {
        0
    } else if phase == 2 {
        3
    } else {
        2
    }
}

pub open spec fn drain_measure(m: QueueModel) -> nat {
    4 * m.pending.len() + phase_rank(m.phase)
}

/// What pops return, one after another, until a pop reports that no data is left.
pub open spec fn drain(m: QueueModel) -> Seq<u8>
    decreases drain_measure(m),
{
    if !m.wf() {
        seq![]
    } else {
        match pop_model(m).1 {
            None => seq![],
            Some(c) => seq![c] + drain(pop_model(m).0),
        }
    }
}

/// Pushing a byte string into a fresh queue and then popping until no data is
/// left yields its standard base-64 encoding, padding included.
pub proof fn lemma_drain_encodes(s: Seq<u8>)
    ensures
        drain(QueueModel { phase: 0, pending: s }) == encode(s),
    decreases s.len(),
{
    let m0 = QueueModel { phase: 0, pending: s };
    if s.len() > 0 {
        let m1 = pop_model(m0).0;
        let m2 = pop_model(m1).0;
        let m3 = pop_model(m2).0;
        let m4 = pop_model(m3).0;
        assert(drain(m0) == seq![pop_model(m0).1.unwrap()] + drain(m1));
        assert(drain(m1) == seq![pop_model(m1).1.unwrap()] + drain(m2));
        assert(drain(m2) == seq![pop_model(m2).1.unwrap()] + drain(m3));
        assert(drain(m3) == seq![pop_model(m3).1.unwrap()] + drain(m4));
        if s.len() >= 3 {
            let rest = s.subrange(3, s.len() as int);
            assert(m2.pending =~= s.subrange(1, s.len() as int));
            assert(m3.pending =~= s.subrange(2, s.len() as int));
            assert(m4.pending =~= rest);
            lemma_drain_encodes(rest);
        } else if s.len() == 2 {
            assert(m2.pending =~= s.subrange(1, 2));
            assert(m3.pending =~= Seq::<u8>::empty());
            assert(drain(m4) == Seq::<u8>::empty());
        } else {
            assert(m2.pending =~= Seq::<u8>::empty());
            assert(drain(m4) == Seq::<u8>::empty());
        }
        assert(drain(m0) =~= encode(s));
    }
}

/// Encodes a whole byte string by pushing it into a fresh queue and popping until
/// no data is left.
pub fn encode_all(bytes: &Vec<u8>) -> (r: Vec<u8>)
    ensures
        r@ == encode(bytes@),
{
    let mut q = Base64Queue::new();
    let mut i: usize = 0;
    assert(bytes@.subrange(0, 0) =~= Seq::<u8>::empty());
    while i < bytes.len()
        invariant
            i <= bytes.len(),
            q.wf(),
            q@ == (QueueModel { phase: 0, pending: bytes@.subrange(0, i as int) }),
        decreases bytes.len() - i,
    {
        q.push(bytes[i]);
        assert(bytes@.subrange(0, i + 1) =~= bytes@.subrange(0, i as int).push(bytes@[i as int]));
        i = i + 1;
    }
    assert(bytes@.subrange(0, i as int) =~= bytes@);
    proof {
        lemma_drain_encodes(bytes@);
    }
    let mut out: Vec<u8> = Vec::new();
    loop
        invariant
            q.wf(),
            out@ + drain(q@) == encode(bytes@),
        decreases drain_measure(q@),
    {
        let ghost before = q@;
        match q.pop() {
            None => {
                assert(out@ + Seq::<u8>::empty() =~= out@);
                return out;
            },
            Some(c) => {
                assert(drain(before) == seq![c] + drain(q@));
                out.push(c);
                assert(out@ + drain(q@) =~= encode(bytes@));
            },
        }
    }
}

} // verus!
