//! Wrapping (two's-complement) arithmetic on `i64`, modelled as reduction of
//! an unbounded integer modulo 2^64 into the `i64` range.

use vstd::arithmetic::div_mod::{lemma_fundamental_div_mod, lemma_mod_multiples_vanish};
use vstd::prelude::*;

verus! {

/// The number of distinct `i64` values: 2^64.
pub open spec fn two_to_64() -> int {
    0x1_0000_0000_0000_0000
}

/// The unique `i64` congruent to `x` modulo 2^64: the value a wrapping
/// computation whose exact integer result is `x` leaves in an `i64`.
pub open spec fn wrap_i64(x: int) -> i64 {
    if x % two_to_64() > i64::MAX as int {
        (x % two_to_64() - two_to_64()) as i64
    } else {
        (x % two_to_64()) as i64
    }
}

/// How many multiples of 2^64 the reduction of `x` removes.
spec fn wrap_count(x: int) -> int {
    if x % two_to_64() > i64::MAX as int {
        x / two_to_64() + 1
    } else {
        x / two_to_64()
    }
}

/// `wrap_i64(x)` and `x` differ by `wrap_count(x)` multiples of 2^64.
proof fn lemma_wrap_i64_congruence(x: int)
    ensures
        wrap_i64(x) == x - wrap_count(x) * two_to_64(),
{
    lemma_fundamental_div_mod(x, two_to_64());
    if x % two_to_64() > i64::MAX as int {
        assert(wrap_i64(x) == x - (x / two_to_64() + 1) * two_to_64()) by (nonlinear_arith)
            requires
                x % two_to_64() > i64::MAX as int,
                x == two_to_64() * (x / two_to_64()) + x % two_to_64(),
                wrap_i64(x) == x % two_to_64() - two_to_64(),
        ;
    } else {
        assert(wrap_i64(x) == x - (x / two_to_64()) * two_to_64()) by (nonlinear_arith)
            requires
                x == two_to_64() * (x / two_to_64()) + x % two_to_64(),
                wrap_i64(x) == x % two_to_64(),
        ;
    }
}

/// Reduction is the identity on values already in the `i64` range.
pub proof fn lemma_wrap_i64_in_range(x: int)
    requires
        i64::MIN <= x <= i64::MAX,
    ensures
        wrap_i64(x) == x,
{
    if x >= 0 {
        assert(x % two_to_64() == x) by (nonlinear_arith)
            requires 0 <= x < two_to_64(),
        ;
    } else {
        lemma_mod_multiples_vanish(1, x, two_to_64());
        assert((two_to_64() * 1 + x) % two_to_64() == x % two_to_64());
        assert((x + two_to_64()) % two_to_64() == x + two_to_64()) by (nonlinear_arith)
            requires 0 <= x + two_to_64() < two_to_64(),
        ;
    }
}

/// Reducing one addend before the sum does not change the reduced sum.
pub proof fn lemma_wrap_i64_add(a: int, b: int)
    ensures
        wrap_i64(wrap_i64(a) + b) == wrap_i64(a + b),
{
    lemma_wrap_i64_congruence(a);
    let k = wrap_count(a);
    assert(wrap_i64(a) + b == two_to_64() * (-k) + (a + b)) by (nonlinear_arith)
        requires wrap_i64(a) == a - k * two_to_64(),
    ;
    lemma_mod_multiples_vanish(-k, a + b, two_to_64());
}

/// `i64::wrapping_add` computes the reduced exact sum.
pub proof fn lemma_wrapping_add_is_wrap(x: i64, y: i64)
    ensures
        vstd::wrapping::i64_specs::wrapping_add(x, y) == wrap_i64(x + y),
{
    let s = x + y;
    if s > i64::MAX {
        assert(s % two_to_64() == s) by (nonlinear_arith)
            requires 0 <= s < two_to_64(),
        ;
    } else if s < i64::MIN {
        lemma_mod_multiples_vanish(1, s, two_to_64());
        assert((s + two_to_64()) % two_to_64() == s + two_to_64()) by (nonlinear_arith)
            requires 0 <= s + two_to_64() < two_to_64(),
        ;
    } else {
        lemma_wrap_i64_in_range(s);
    }
}

/// `i64::wrapping_mul` computes the reduced exact product.
pub proof fn lemma_wrapping_mul_is_wrap(x: i64, y: i64)
    ensures
        vstd::wrapping::i64_specs::wrapping_mul(x, y) == wrap_i64(x * y),
{
}

} // verus!
