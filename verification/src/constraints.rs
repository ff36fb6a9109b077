//! The range of constraint values at a security level.

use vstd::prelude::*;
use vstd::arithmetic::power2::{lemma2_to64, lemma_pow2_pos, lemma_pow2_strictly_increases, pow2};
use vstd::bits::lemma_u64_shl_is_mul;

verus! {

/// Largest exponent that the modulus of constraint values ever takes.
pub const MAX_MODULUS_BITS: u32 = 32;

/// The modulus of constraint values at a security level: two to the power
/// of the level, the exponent capped at `MAX_MODULUS_BITS`.
pub open spec fn constraint_modulus(level: u32) -> nat {
    pow2(
        if level < MAX_MODULUS_BITS {
            level as nat
        } else {
            MAX_MODULUS_BITS as nat
        },
    )
}

/// Every value lies below the modulus of the level.
pub open spec fn within_modulus(values: Seq<u64>, level: u32) -> bool {
    forall|i: int| 0 <= i < values.len() ==> (#[trigger] values[i] as nat) < constraint_modulus(level)
}

/// The modulus is positive and no larger than two to the cap.
pub proof fn lemma_modulus_bounds(level: u32)
    ensures
        0 < constraint_modulus(level) <= 0x1_0000_0000,
{
    lemma2_to64();
    if level < MAX_MODULUS_BITS {
        lemma_pow2_strictly_increases(level as nat, MAX_MODULUS_BITS as nat);
        lemma_pow2_pos(level as nat);
    }
}

/// Computes the modulus of constraint values at a security level.
pub fn modulus_at(level: u32) -> (m: u64)
    ensures
        m as nat == constraint_modulus(level),
        0 < m <= 0x1_0000_0000,
{
    let k: u64 = if level < MAX_MODULUS_BITS {
        level as u64
    } else {
        MAX_MODULUS_BITS as u64
    };
    proof {
        lemma_modulus_bounds(level);
        lemma_u64_shl_is_mul(1, k);
    }
    1u64 << k
}

} // verus!
