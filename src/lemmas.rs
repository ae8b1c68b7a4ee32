//! Facts about `wrapped_pow`: the step that repeated squaring takes, and the
//! laws that exponentiation modulo 2^32 obeys.
use vstd::prelude::*;

verus! {

use vstd::arithmetic::power::{
    pow,
    lemma_pow0,
    lemma_pow1,
    lemma0_pow,
    lemma1_pow,
    lemma_pow_adds,
    lemma_pow_multiplies,
    lemma_pow_mod_noop,
    lemma_square_is_pow2,
};
use vstd::arithmetic::div_mod::lemma_mul_mod_noop_general;
use crate::{modulus, wrapped_pow};

/// One round of repeated squaring keeps `acc * square^e` unchanged modulo
/// 2^32: when the low digit of `e` is set `acc` takes one factor `square`,
/// then `square` is squared and `e` halved, all products reduced.
pub proof fn lemma_squaring_step(acc: int, square: int, e: nat)
    requires
        e > 0,
    ensures
        e % 2 == 1 ==> ((acc * square) % modulus() * pow((square * square) % modulus(), e / 2))
            % modulus() == (acc * pow(square, e)) % modulus(),
        e % 2 == 0 ==> (acc * pow((square * square) % modulus(), e / 2)) % modulus() == (acc * pow(
            square,
            e,
        )) % modulus(),
{
    let m = modulus();
    let h: nat = e / 2;
    let q = pow((square * square) % m, h);
    let even = pow(square, 2 * h);
    lemma_pow_mod_noop(square * square, h, m);
    lemma_square_is_pow2(square);
    lemma_pow_multiplies(square, 2, h);
    assert(q % m == even % m);
    if e % 2 == 1 {
        lemma_pow_adds(square, 1, 2 * h);
        lemma_pow1(square);
        assert(pow(square, e) == square * even);
        lemma_mul_mod_noop_general(acc * square, q, m);
        lemma_mul_mod_noop_general(acc * square, even, m);
        assert(acc * square * even == acc * (square * even)) by (nonlinear_arith);
    } else {
        assert(e == 2 * h);
        lemma_mul_mod_noop_general(acc, q, m);
        lemma_mul_mod_noop_general(acc, even, m);
    }
}

/// Any base to the power zero is one, zero itself included.
pub proof fn lemma_exponent_zero(base: u32)
    ensures
        wrapped_pow(base as int, 0) == 1,
{
    lemma_pow0(base as int);
}

/// Zero to any positive power is zero.
pub proof fn lemma_zero_base(exp: u32)
    ensures
        exp > 0 ==> wrapped_pow(0, exp as nat) == 0,
{
    if exp > 0 {
        lemma0_pow(exp as nat);
    }
}

/// One to any power is one.
pub proof fn lemma_unit_base(exp: u32)
    ensures
        wrapped_pow(1, exp as nat) == 1,
{
    lemma1_pow(exp as nat);
}

/// Adding exponents multiplies powers: `base^(e1 + e2)` is the wrapping
/// product of `base^e1` and `base^e2`, wherever `e1 + e2` is itself a `u32`.
pub proof fn lemma_exponents_add(base: u32, e1: u32, e2: u32)
    requires
        e1 + e2 <= u32::MAX,
    ensures
        wrapped_pow(base as int, (e1 + e2) as nat) == (wrapped_pow(base as int, e1 as nat)
            * wrapped_pow(base as int, e2 as nat)) % modulus(),
{
    let b = base as int;
    lemma_pow_adds(b, e1 as nat, e2 as nat);
    lemma_mul_mod_noop_general(pow(b, e1 as nat), pow(b, e2 as nat), modulus());
}

} // verus!
