//! The self-feeding stream: a short seed, then every symbol popped is pushed back.
use crate::alphabet::is_symbol;
use crate::queue::{lemma_pop_step, pop_model, push_model, Base64Queue, QueueModel};
use vstd::prelude::*;

verus! {

/// The seed `V`, `m`, `0`: each of its bytes comes back out of the queue unchanged
/// when pushed and popped in turn from a fresh queue.
pub open spec fn seed() -> Seq<u8> {
    seq![0x56u8, 0x6du8, 0x30u8]
}

/// The seed byte at position `i`.
pub fn seed_byte(i: usize) -> (b: u8)
    requires
        i < 3,
    ensures
        b == seed()[i as int],
{
    if i == 0 {
        0x56
    } else if i == 1 {
        0x6d
    } else {
        0x30
    }
}

/// The queue once `k` bytes of the stream have been produced.
pub open spec fn fixpoint_state(k: nat) -> QueueModel
    decreases k,
{
    if k == 0 {
        QueueModel { phase: 0, pending: Seq::empty() }
    } else {
        let prev = fixpoint_state((k - 1) as nat);
        if k - 1 < 3 {
            pop_model(push_model(prev, seed()[k - 1])).0
        } else {
            match pop_model(prev) {
                (next, Some(c)) => push_model(next, c),
                (next, None) => next,
            }
        }
    }
}

/// Byte `k` of the stream: the seed first, then each symbol popped.
pub open spec fn fixpoint_byte(k: nat) -> u8 {
    if k < 3 {
        seed()[k as int]
    } else {
        match pop_model(fixpoint_state(k)).1 {
            Some(c) => c,
            None => 0,
        }
    }
}

/// The first `n` bytes of the stream.
pub open spec fn fixpoint_prefix(n: nat) -> Seq<u8> {
    Seq::new(n, |i: int| fixpoint_byte(i as nat))
}

/// The queue while the seed goes in: each seed byte pops straight back out.
proof fn lemma_seed_state(k: nat)
    requires
        k <= 3,
    ensures
        fixpoint_state(k).wf(),
        k < 3 ==> pop_model(push_model(fixpoint_state(k), seed()[k as int])).1 == Some(
            seed()[k as int],
        ),
        k == 3 ==> fixpoint_state(k) == (QueueModel { phase: 3, pending: seq![0x30u8] }),
{
    let s0 = fixpoint_state(0);
    let p0 = push_model(s0, 0x56);
    assert(p0.pending =~= seq![0x56u8]);
    let s1 = fixpoint_state(1);
    assert(s1 == pop_model(p0).0);
    assert(s1 == (QueueModel { phase: 1, pending: seq![0x56u8] }));
    let p1 = push_model(s1, 0x6d);
    assert(p1.pending =~= seq![0x56u8, 0x6du8]);
    assert(seq![0x56u8, 0x6du8].drop_first() =~= seq![0x6du8]);
    let s2 = fixpoint_state(2);
    assert(s2 == pop_model(p1).0);
    assert(s2 == (QueueModel { phase: 2, pending: seq![0x6du8] }));
    let p2 = push_model(s2, 0x30);
    assert(p2.pending =~= seq![0x6du8, 0x30u8]);
    assert(seq![0x6du8, 0x30u8].drop_first() =~= seq![0x30u8]);
    let s3 = fixpoint_state(3);
    assert(s3 == pop_model(p2).0);
}

/// Past the seed a byte is always pending, so each pop yields a symbol.
proof fn lemma_steady_state(k: nat)
    requires
        k >= 3,
    ensures
        fixpoint_state(k).wf(),
        fixpoint_state(k).pending.len() >= 1,
        pop_model(fixpoint_state(k)).1 is Some,
        is_symbol(fixpoint_byte(k)),
    decreases k,
{
    if k == 3 {
        lemma_seed_state(3);
    } else {
        lemma_steady_state((k - 1) as nat);
    }
    lemma_pop_step(fixpoint_state(k));
}

/// Produces the stream one byte at a time, for as long as it is asked to.
pub struct FixpointDriver {
    queue: Base64Queue,
    seeded: usize,
    emitted: Ghost<nat>,
}

impl FixpointDriver {
    /// How many bytes have been produced so far.
    pub closed spec fn emitted(&self) -> nat {
        self.emitted@
    }

    pub closed spec fn wf(&self) -> bool {
        &&& self.queue.wf()
        &&& self.queue@ == fixpoint_state(self.emitted@)
        &&& self.seeded <= 3
        &&& self.seeded < 3 ==> self.seeded == self.emitted@
        &&& self.seeded == 3 ==> self.emitted@ >= 3
    }

    /// A driver that has produced nothing yet.
    pub fn new() -> (r: Self)
        ensures
            r.wf(),
            r.emitted() == 0,
    {
        FixpointDriver { queue: Base64Queue::new(), seeded: 0, emitted: Ghost(0) }
    }

    /// Produces the next byte of the stream: while the seed lasts, pushes a seed
    /// byte, pops its echo and returns the seed byte; after that, pops a symbol,
    /// pushes it back and returns it.
    pub fn next_byte(&mut self) -> (b: u8)
        requires
            old(self).wf(),
        ensures
            final(self).wf(),
            final(self).emitted() == old(self).emitted() + 1,
            b == fixpoint_byte(old(self).emitted()),
    {
        let ghost k = self.emitted@;
        if self.seeded < 3 {
            let byte = seed_byte(self.seeded);
            proof {
                lemma_seed_state(k);
            }
            self.queue.push(byte);
            let popped = self.queue.pop();
            assert(popped == Some(byte));
            self.seeded = self.seeded + 1;
            self.emitted = Ghost(k + 1);
            proof {
                if k + 1 == 3 {
                    lemma_seed_state(3);
                }
            }
            byte
        } else {
            proof {
                lemma_steady_state(k);
            }
            // A byte is always pending past the seed, so the pop produces a symbol.
            let byte = match self.queue.pop() {
                Some(c) => c,
                None => 0,
            };
            self.queue.push(byte);
            self.emitted = Ghost(k + 1);
            byte
        }
    }
}

/// The first `n` bytes of the stream.
pub fn base64_fixpoint(n: usize) -> (r: Vec<u8>)
    ensures
        r@ == fixpoint_prefix(n as nat),
{
    let mut driver = FixpointDriver::new();
    let mut out: Vec<u8> = Vec::new();
    while out.len() < n
        invariant
            out.len() <= n,
            driver.wf(),
            driver.emitted() == out.len(),
            out@ == fixpoint_prefix(out.len() as nat),
        decreases n - out.len(),
    {
        let b = driver.next_byte();
        out.push(b);
        assert(out@ =~= fixpoint_prefix(out.len() as nat));
    }
    out
}

/// The stream opens with the seed, and every byte after it is one of the 64
/// symbols: never the padding character, since the queue never runs dry.
pub proof fn lemma_stream_shape(n: nat)
    requires
        n >= 3,
    ensures
        fixpoint_prefix(n).subrange(0, 3) == seed(),
        forall|i: int| 3 <= i < n ==> is_symbol(#[trigger] fixpoint_prefix(n)[i]),
{
    assert(fixpoint_prefix(n).subrange(0, 3) =~= seed());
    assert forall|i: int| 3 <= i < n implies is_symbol(#[trigger] fixpoint_prefix(n)[i]) by {
        lemma_steady_state(i as nat);
    }
}

/// The stream depends on nothing but the seed: any two runs agree on every byte
/// that both produce.
pub proof fn lemma_stream_deterministic(n: nat, m: nat)
    requires
        m <= n,
    ensures
        fixpoint_prefix(n).subrange(0, m as int) == fixpoint_prefix(m),
{
    assert(fixpoint_prefix(n).subrange(0, m as int) =~= fixpoint_prefix(m));
}

} // verus!
