//! Equipment flags packed one per bit.
use crate::profile::Equipment;
use vstd::prelude::*;

verus! {

/// Number of equipment kinds the editor shows, one per low bit.
pub const EQUIPMENT_KINDS: usize = 9;

/// Bit `k` of `bits` is set.
pub open spec fn flag(bits: u32, k: u32) -> bool {
    (bits >> k) & 1u32 == 1u32
}

proof fn lemma_set_bit(b: u32, k: u32, j: u32)
    requires
        k < 32,
        j < 32,
    ensures
        ((b | (1u32 << k)) >> j) & 1u32 == (if j == k {
            1u32
        } else {
            (b >> j) & 1u32
        }),
{
    assert(((b | (1u32 << k)) >> j) & 1u32 == (if j == k {
        1u32
    } else {
        (b >> j) & 1u32
    })) by (bit_vector)
        requires
            k < 32,
            j < 32,
    ;
}

proof fn lemma_clear_bit(b: u32, k: u32, j: u32)
    requires
        k < 32,
        j < 32,
    ensures
        ((b & !(1u32 << k)) >> j) & 1u32 == (if j == k {
            0u32
        } else {
            (b >> j) & 1u32
        }),
{
    assert(((b & !(1u32 << k)) >> j) & 1u32 == (if j == k {
        0u32
    } else {
        (b >> j) & 1u32
    })) by (bit_vector)
        requires
            k < 32,
            j < 32,
    ;
}

/// `bits` with bit `k` set to `on`.
pub open spec fn switched(bits: u32, k: u32, on: bool) -> u32 {
    if on {
        bits | (1u32 << k)
    } else {
        bits & !(1u32 << k)
    }
}

impl Equipment {
    /// Whether equipment kind `k` is on.
    pub fn check(&self, k: u32) -> (r: bool)
        requires
            k < 32,
        ensures
            r == flag(self.bits, k),
    {
        (self.bits >> k) & 1 == 1
    }

    /// Turns equipment kind `k` on or off and keeps every other bit.
    pub fn switch(&mut self, k: u32, on: bool)
        requires
            k < 32,
        ensures
            final(self).bits == switched(old(self).bits, k, on),
            flag(final(self).bits, k) == on,
            forall|j: u32| j < 32 && j != k ==> flag(final(self).bits, j) == flag(old(self).bits, j),
    {
        let b = self.bits;
        if on {
            self.bits = b | (1u32 << k);
            proof {
                lemma_set_bit(b, k, k);
                assert forall|j: u32| j < 32 && j != k implies flag(b | (1u32 << k), j) == flag(
                    b,
                    j,
                ) by {
                    lemma_set_bit(b, k, j);
                }
            }
        } else {
            self.bits = b & !(1u32 << k);
            proof {
                lemma_clear_bit(b, k, k);
                assert forall|j: u32| j < 32 && j != k implies flag(b & !(1u32 << k), j) == flag(
                    b,
                    j,
                ) by {
                    lemma_clear_bit(b, k, j);
                }
            }
        }
    }
}

} // verus!
