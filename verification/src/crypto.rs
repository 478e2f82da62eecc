//! Nonce schedule for the per-resource AEAD keys.
//!
//! Every resource is sealed under a key of its own, so one deterministic
//! nonce per key is enough. The schedule yields 96-bit nonces that hold a
//! big-endian counter and a flag on the last nonce of the sequence.

use crate::endian::{be_bytes, u64_be_bytes};
use vstd::prelude::*;

verus! {

/// The nonce with the given counter: three zero bytes, the counter as eight
/// big-endian bytes, and one byte that is 1 on the last nonce of a sequence.
pub open spec fn nonce_layout(counter: nat, last: bool) -> Seq<u8> {
    seq![0u8, 0u8, 0u8] + be_bytes(counter, 8) + seq![if last { 1u8 } else { 0u8 }]
}

/// The only nonce of a sequence of length one.
pub open spec fn single_nonce() -> Seq<u8> {
    nonce_layout(0, true)
}

/// A finite sequence of nonces for one key.
pub struct NonceSeq {
    counter: usize,
    len: usize,
}

impl NonceSeq {
    /// Number of nonces already handed out.
    pub closed spec fn issued(&self) -> nat {
        self.counter as nat
    }

    /// Number of nonces the sequence yields in total.
    pub closed spec fn capacity(&self) -> nat {
        self.len as nat
    }

    /// A sequence that yields `len` nonces, starting with counter 0.
    pub fn new(len: usize) -> (s: Self)
        ensures
            s.issued() == 0,
            s.capacity() == len,
    {
        NonceSeq { counter: 0, len }
    }

    /// Hands out the next nonce, or `None` once `capacity()` nonces were
    /// handed out. An exhausted sequence stays as it is.
    pub fn advance(&mut self) -> (nonce: Option<[u8; 12]>)
        ensures
            final(self).capacity() == old(self).capacity(),
            match nonce {
                Some(n) => {
                    &&& old(self).issued() < old(self).capacity()
                    &&& final(self).issued() == old(self).issued() + 1
                    &&& n@ == nonce_layout(
                        old(self).issued(),
                        old(self).issued() + 1 == old(self).capacity(),
                    )
                },
                None => {
                    &&& old(self).issued() >= old(self).capacity()
                    &&& final(self).issued() == old(self).issued()
                },
            },
    {
        if self.counter >= self.len {
            return None;
        }
        let last: bool = self.counter == self.len - 1;
        let counter_bytes: [u8; 8] = u64_be_bytes(self.counter as u64);
        let mut nonce: [u8; 12] = [0u8; 12];
        let mut i: usize = 0;
        while i < 8
            invariant
                i <= 8,
                nonce@[0] == 0 && nonce@[1] == 0 && nonce@[2] == 0,
                forall|j: int| 0 <= j < i ==> nonce@[3 + j] == counter_bytes@[j],
            decreases 8 - i,
        {
            nonce[3 + i] = counter_bytes[i];
            i = i + 1;
        }
        nonce[11] = if last { 1u8 } else { 0u8 };
        self.counter = self.counter + 1;
        Some(nonce)
    }
}

} // verus!
