//! Wrapping arithmetic on 32-bit signed integers.
//!
//! Every operation of the language is computed on mathematical integers and
//! then reduced to the 32-bit value that is congruent to the exact result
//! modulo 2^32.
use vstd::arithmetic::div_mod::lemma_mul_mod_noop_general;
use vstd::arithmetic::power::{lemma_pow_mod_noop, lemma_pow_multiplies, pow};
use vstd::prelude::*;

verus! {

/// The 32-bit signed integer that is congruent to `x` modulo 2^32.
pub open spec fn wrap(x: int) -> int {
    let r = x % 0x1_0000_0000;
    if r >= 0x8000_0000 {
        r - 0x1_0000_0000
    } else {
        r
    }
}

/// `x` and `y` leave the same remainder modulo 2^32.
pub open spec fn congruent(x: int, y: int) -> bool {
    x % 0x1_0000_0000 == y % 0x1_0000_0000
}

/// `wrap` lands in the range of `i32`, leaves values of that range alone,
/// and stays congruent to its argument.
pub proof fn lemma_wrap(x: int)
    ensures
        i32::MIN <= wrap(x) <= i32::MAX,
        i32::MIN <= x <= i32::MAX ==> wrap(x) == x,
        congruent(wrap(x), x),
{
}

/// Congruent integers wrap to the same value.
pub proof fn lemma_wrap_congruent(x: int, y: int)
    requires
        congruent(x, y),
    ensures
        wrap(x) == wrap(y),
{
}

/// Congruence is preserved by multiplication.
pub proof fn lemma_congruent_mul(a: int, b: int, c: int, d: int)
    requires
        congruent(a, c),
        congruent(b, d),
    ensures
        congruent(a * b, c * d),
{
    lemma_mul_mod_noop_general(a, b, 0x1_0000_0000);
    lemma_mul_mod_noop_general(c, d, 0x1_0000_0000);
}

/// Congruence is preserved by exponentiation.
pub proof fn lemma_congruent_pow(a: int, b: int, e: nat)
    requires
        congruent(a, b),
    ensures
        congruent(pow(a, e), pow(b, e)),
{
    lemma_pow_mod_noop(a, e, 0x1_0000_0000);
    lemma_pow_mod_noop(b, e, 0x1_0000_0000);
}

/// Squaring the base halves the exponent.
pub proof fn lemma_pow_square(b: int, k: nat)
    ensures
        pow(b, 2 * k) == pow(b * b, k),
        pow(b, 2 * k + 1) == b * pow(b * b, k),
{
    reveal(pow);
    assert(pow(b, 2) == b * b) by {
        assert(pow(b, 2) == b * pow(b, 1));
        assert(pow(b, 1) == b * pow(b, 0));
        assert(pow(b, 0) == 1);
        assert(b * 1 == b);
    }
    lemma_pow_multiplies(b, 2, k);
    assert(pow(b, 2 * k + 1) == b * pow(b, (2 * k) as nat));
}

/// `base` raised to `exp`, wrapped to 32 bits.
pub fn wrapping_pow(base: i32, exp: u32) -> (r: i32)
    ensures
        r == wrap(pow(base as int, exp as nat)),
{
    let mut acc: i32 = 1;
    let mut b: i32 = base;
    let mut e: u32 = exp;
    proof {
        assert(1 * pow(base as int, exp as nat) == pow(base as int, exp as nat));
    }
    while e > 0
        invariant
            congruent(acc * pow(b as int, e as nat), pow(base as int, exp as nat)),
        decreases e,
    {
        let ghost k: nat = (e / 2) as nat;
        let ghost old_acc: int = acc as int;
        let ghost old_b: int = b as int;
        let ghost old_e: nat = e as nat;
        let odd: bool = e % 2 == 1;
        if odd {
            acc = acc.wrapping_mul(b);
        }
        e = e / 2;
        b = b.wrapping_mul(b);
        proof {
            lemma_pow_square(old_b, k);
            lemma_wrap(old_b * old_b);
            lemma_congruent_pow(b as int, old_b * old_b, k);
            if odd {
                lemma_wrap(old_acc * old_b);
                assert(old_e == 2 * k + 1);
                lemma_congruent_mul(acc as int, pow(b as int, k), old_acc * old_b, pow(old_b * old_b, k));
                assert(old_acc * old_b * pow(old_b * old_b, k) == old_acc * (old_b * pow(
                    old_b * old_b,
                    k,
                ))) by (nonlinear_arith);
            } else {
                assert(old_e == 2 * k);
                lemma_congruent_mul(acc as int, pow(b as int, k), old_acc, pow(old_b * old_b, k));
            }
        }
    }
    proof {
        reveal(pow);
        assert(pow(b as int, 0) == 1);
        assert(acc * 1 == acc);
        lemma_wrap(acc as int);
        lemma_wrap_congruent(acc as int, pow(base as int, exp as nat));
    }
    acc
}

} // verus!
