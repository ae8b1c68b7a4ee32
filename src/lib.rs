//! Unsigned 32-bit exponentiation with wraparound, computed by repeated
//! squaring and proved equal to the exact power reduced modulo 2^32.
use vstd::prelude::*;

pub mod lemmas;

verus! {

use vstd::arithmetic::power::pow;

/// The number of distinct `u32` values; every result is reduced modulo it.
pub open spec fn modulus() -> int {
    0x1_0000_0000
}

/// `base` raised to `exp` in exact arithmetic, then reduced modulo 2^32.
pub open spec fn wrapped_pow(base: int, exp: nat) -> int {
    pow(base, exp) % modulus()
}

/// Raises `base` to the power `exp`; a result past `u32::MAX` wraps around.
///
/// The function is total: it never panics, whatever the inputs, and runs
/// one loop iteration per binary digit of `exp`.
pub fn exponentiate(base: u32, exp: u32) -> (r: u32)
    ensures
        r == wrapped_pow(base as int, exp as nat),
        exp == 0 ==> r == 1,
        base == 0 && exp > 0 ==> r == 0,
        base == 1 ==> r == 1,
{
    let mut acc: u32 = 1;
    let mut square: u32 = base;
    let mut e: u32 = exp;
    while e > 0
        invariant
            (acc * pow(square as int, e as nat)) % modulus() == wrapped_pow(base as int, exp as nat),
        decreases e,
    {
        proof {
            lemmas::lemma_squaring_step(acc as int, square as int, e as nat);
        }
        if e % 2 == 1 {
            acc = acc.wrapping_mul(square);
        }
        square = square.wrapping_mul(square);
        e = e / 2;
    }
    proof {
        lemmas::lemma_exponent_zero(base);
        lemmas::lemma_zero_base(exp);
        lemmas::lemma_unit_base(exp);
        vstd::arithmetic::power::lemma_pow0(square as int);
    }
    acc
}

} // verus!
