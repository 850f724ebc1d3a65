//! Small numeric helpers shared by the packing algorithm.

use vstd::prelude::*;

verus! {

use vstd::arithmetic::power2::{pow2, lemma2_to64, lemma_pow2_strictly_increases, lemma_pow2_unfold, lemma_pow2_pos};

/// `n` is an integral power of two.
pub open spec fn is_pot(n: int) -> bool {
    exists|e: nat| n == pow2(e)
}

/// Perform some operation *with* a value, then drop it.
pub fn with<T, R, F: FnOnce(T) -> R>(val: T, f: F) -> (r: R)
    requires
        f.requires((val,)),
    ensures
        f.ensures((val,), r),
{
    f(val)
}

/// For numbers: the exponent of the smallest power of two reaching the value.
pub trait NextPot: Sized {
    fn next_pot(&self) -> Self;
}

impl NextPot for u32 {
    fn next_pot(&self) -> u32 {
        next_pot_exp(*self)
    }
}

/// Smallest exponent `e` with `2^e >= x`.
pub fn next_pot_exp(x: u32) -> (e: u32)
    ensures
        pow2(e as nat) >= x,
        e > 0 ==> pow2((e - 1) as nat) < x,
        e <= 32,
{
    let mut e: u32 = 0;
    let mut v: u64 = 1;
    proof {
        lemma2_to64();
    }
    while v < x as u64
        invariant
            v == pow2(e as nat),
            e > 0 ==> pow2((e - 1) as nat) < x,
            1 <= v <= 0x1_0000_0000u64,
            e <= 32,
        decreases 32 - e,
    {
        proof {
            lemma2_to64();
            if e >= 32 {
                assert(pow2(e as nat) >= pow2(32)) by {
                    if e > 32 {
                        lemma_pow2_strictly_increases(32, e as nat);
                    }
                }
                assert(false);
            }
            lemma_pow2_unfold((e + 1) as nat);
            if e + 1 > 32 {
                assert(false);
            } else {
                assert(pow2((e + 1) as nat) <= pow2(32)) by {
                    if e + 1 < 32 {
                        lemma_pow2_strictly_increases((e + 1) as nat, 32);
                    }
                }
            }
        }
        v = v * 2;
        e = e + 1;
    }
    proof {
        lemma_pow2_pos(e as nat);
    }
    e
}

} // verus!
