//! The transcoder: a byte FIFO read one output symbol at a time.
use crate::alphabet::{is_symbol, lemma_symbol_of_is_symbol, symbol, symbol_of, PAD};
use std::collections::VecDeque;
use vstd::prelude::*;

verus! {

/// Which 6-bit slice of the current 3-byte group comes out next.
pub enum State {
    State0,
    State1,
    State2,
    State3,
}

/// The abstract state of a queue: the phase (0 to 3) and the bytes not yet consumed.
pub struct QueueModel {
    pub phase: nat,
    pub pending: Seq<u8>,
}

impl QueueModel {
    /// A phase in range; in phase 1 the byte peeked in phase 0 is still pending.
    pub open spec fn wf(self) -> bool {
        &&& self.phase < 4
        &&& self.phase == 1 ==> self.pending.len() >= 1
    }
}

/// The first pending byte, or zero when there is none (look-ahead only).
pub open spec fn head_or_zero(s: Seq<u8>) -> u8 {
    if s.len() > 0 {
        s[0]
    } else {
        0
    }
}

/// The top six bits of the first byte of a group.
pub open spec fn first_slice(b0: u8) -> int {
    b0 as int / 4
}

/// The low two bits of the first byte followed by the top four of the second.
pub open spec fn second_slice(b0: u8, b1: u8) -> int {
    (b0 as int % 4) * 16 + b1 as int / 16
}

/// The low four bits of the second byte followed by the top two of the third.
pub open spec fn third_slice(b1: u8, b2: u8) -> int {
    (b1 as int % 16) * 4 + b2 as int / 64
}

/// The low six bits of the third byte of a group.
pub open spec fn fourth_slice(b2: u8) -> int {
    b2 as int % 64
}

/// The model after appending one byte.
pub open spec fn push_model(m: QueueModel, b: u8) -> QueueModel {
    QueueModel { phase: m.phase, pending: m.pending.push(b) }
}

/// The model after one pop, and what that pop returns: `None` only in phase 0 with
/// nothing pending; `Some(PAD)` where a byte the slot needs was never pushed.
pub open spec fn pop_model(m: QueueModel) -> (QueueModel, Option<u8>) {
    let p = m.pending;
    if m.phase == 0 {
        if p.len() == 0 {
            (m, None)
        } else {
            (QueueModel { phase: 1, pending: p }, Some(symbol_of(first_slice(p[0]))))
        }
    } else if m.phase == 1 {
        let rest = p.drop_first();
        (QueueModel { phase: 2, pending: rest }, Some(symbol_of(second_slice(p[0], head_or_zero(rest)))))
    } else if m.phase == 2 {
        if p.len() == 0 {
            (QueueModel { phase: 3, pending: p }, Some(PAD))
        } else {
            let rest = p.drop_first();
            (QueueModel { phase: 3, pending: rest }, Some(symbol_of(third_slice(p[0], head_or_zero(rest)))))
        }
    } else {
        if p.len() == 0 {
            (QueueModel { phase: 0, pending: p }, Some(PAD))
        } else {
            (QueueModel { phase: 0, pending: p.drop_first() }, Some(symbol_of(fourth_slice(p[0]))))
        }
    }
}

/// A pop keeps the model well formed, and moves the phase on by one exactly when
/// it produces a character.
pub proof fn lemma_pop_step(m: QueueModel)
    requires
        m.wf(),
    ensures
        pop_model(m).0.wf(),
        pop_model(m).1 is Some ==> pop_model(m).0.phase == (m.phase + 1) % 4,
        pop_model(m).1 is None ==> pop_model(m).0 == m,
        m.pending.len() >= 1 ==> pop_model(m).1 is Some && is_symbol(pop_model(m).1.unwrap()),
{
    let p = m.pending;
    if p.len() >= 1 {
        if m.phase == 0 {
            lemma_symbol_of_is_symbol(p[0] as int / 4);
        } else if m.phase == 1 {
            lemma_symbol_of_is_symbol(
                (p[0] as int % 4) * 16 + head_or_zero(p.drop_first()) as int / 16,
            );
        } else if m.phase == 2 {
            lemma_symbol_of_is_symbol(
                (p[0] as int % 16) * 4 + head_or_zero(p.drop_first()) as int / 64,
            );
        } else {
            lemma_symbol_of_is_symbol(p[0] as int % 64);
        }
    }
}

pub open spec fn phase_of(s: State) -> nat {
    match s {
        State::State0 => 0,
        State::State1 => 1,
        State::State2 => 2,
        State::State3 => 3,
    }
}

/// An incremental base-64 encoder: bytes go in with `push`, symbols come out with `pop`.
pub struct Base64Queue {
    state: State,
    data: VecDeque<u8>,
}

impl View for Base64Queue {
    type V = QueueModel;

    closed spec fn view(&self) -> QueueModel {
        QueueModel { phase: phase_of(self.state), pending: self.data@ }
    }
}

impl Base64Queue {
    pub open spec fn wf(&self) -> bool {
        self@.wf()
    }

    /// An empty queue in phase 0.
    pub fn new() -> (r: Self)
        ensures
            r.wf(),
            r@ == (QueueModel { phase: 0, pending: Seq::empty() }),
    {
        Self { state: State::State0, data: VecDeque::new() }
    }

    /// Appends one byte to the pending bytes.
    pub fn push(&mut self, value: u8)
        requires
            old(self).wf(),
        ensures
            final(self).wf(),
            final(self)@ == push_model(old(self)@, value),
    {
        self.data.push_back(value)
    }

    /// The first pending byte, or zero.
    fn peek(&self) -> (r: u8)
        ensures
            r == head_or_zero(self.data@),
    {
        if self.data.len() > 0 {
            self.data[0]
        } else {
            0
        }
    }

    /// Removes the first pending byte, if any.
    fn take_front(&mut self) -> (r: Option<u8>)
        ensures
            final(self).state == old(self).state,
            old(self).data@.len() == 0 ==> r is None && final(self).data@ == old(self).data@,
            old(self).data@.len() > 0 ==> r == Some(old(self).data@[0])
                && final(self).data@ == old(self).data@.drop_first(),
    {
        let r = self.data.pop_front();
        proof {
            if old(self).data@.len() > 0 {
                assert(self.data@ =~= old(self).data@.drop_first());
            }
        }
        r
    }

    /// Produces the next symbol of the current phase and advances the phase.
    pub fn pop(&mut self) -> (r: Option<u8>)
        requires
            old(self).wf(),
        ensures
            final(self).wf(),
            (final(self)@, r) == pop_model(old(self)@),
    {
        match self.state {
            State::State0 => {
                if self.data.len() == 0 {
                    return None;
                }
                let byte0 = self.data[0];
                self.state = State::State1;
                assert(byte0 >> 2 == byte0 / 4) by (bit_vector);
                Some(symbol(byte0 >> 2))
            },
            State::State1 => {
                let byte0 = self.data[0];
                let _ = self.take_front();
                let byte1 = self.peek();
                self.state = State::State2;
                assert(((byte0 << 4) & 0x3f) | (byte1 >> 4) == (byte0 % 4) * 16 + byte1 / 16)
                    by (bit_vector);
                Some(symbol(((byte0 << 4) & 0x3f) | (byte1 >> 4)))
            },
            State::State2 => {
                self.state = State::State3;
                match self.take_front() {
                    Some(byte1) => {
                        let byte2 = self.peek();
                        assert(((byte1 << 2) & 0x3f) | (byte2 >> 6) == (byte1 % 16) * 4 + byte2
                            / 64) by (bit_vector);
                        Some(symbol(((byte1 << 2) & 0x3f) | (byte2 >> 6)))
                    },
                    None => Some(PAD),
                }
            },
            State::State3 => {
                self.state = State::State0;
                match self.take_front() {
                    Some(byte2) => {
                        assert(byte2 & 0x3f == byte2 % 64) by (bit_vector);
                        Some(symbol(byte2 & 0x3f))
                    },
                    None => Some(PAD),
                }
            },
        }
    }
}

} // verus!
