//! Arithmetic support for the allocator: rounding to powers of two and
//! divisibility facts used to keep block addresses and sizes aligned to the
//! header granularity.

use vstd::prelude::*;

verus! {

use vstd::arithmetic::power2::{
    pow2, is_pow2, is_pow2_equiv, lemma_pow2_unfold, lemma_pow2_adds,
    lemma_pow2_strictly_increases,
};
use vstd::arithmetic::power::pow;
use vstd::arithmetic::div_mod::{
    lemma_fundamental_div_mod, lemma_mod_multiples_basic, lemma_mod_mod,
};

/// The smallest power of two that is at least `v`, for `v >= 1`
/// (and `1` for `v == 0`).
pub open spec fn pow2_ceil(v: nat) -> nat
    decreases v,
{
    if v <= 1 {
        1
    } else {
        2 * pow2_ceil((v + 1) / 2)
    }
}

/// `pow2_ceil(v)` is a power of two, is at least `v`, and overshoots by
/// less than a factor of two.
pub proof fn lemma_pow2_ceil_properties(v: nat)
    requires
        v >= 1,
    ensures
        is_pow2(pow2_ceil(v) as int),
        pow2_ceil(v) >= v,
        v == 1 ==> pow2_ceil(v) == 1,
        v >= 2 ==> pow2_ceil(v) <= 2 * v - 2,
    decreases v,
{
    reveal(is_pow2);
    if v <= 1 {
    } else {
        let w = (v + 1) / 2;
        lemma_pow2_ceil_properties(w);
        let p = pow2_ceil(w);
        assert(pow2_ceil(v) == 2 * p);
        assert((2 * p) % 2 == 0) by {
            lemma_mod_multiples_basic(p as int, 2);
        }
        assert(is_pow2((2 * p) as int));
        assert(2 * w >= v);
    }
}

/// Between two distinct powers of two there is at least a factor of two.
pub proof fn lemma_pow2_double_gap(a: nat, b: nat)
    requires
        is_pow2(a as int),
        is_pow2(b as int),
        a < b,
    ensures
        2 * a <= b,
{
    is_pow2_equiv(a as int);
    is_pow2_equiv(b as int);
    let ea = choose|i: nat| pow(2, i) == a as int;
    let eb = choose|i: nat| pow(2, i) == b as int;
    assert(pow2(ea) == a && pow2(eb) == b);
    if eb <= ea {
        if eb < ea {
            lemma_pow2_strictly_increases(eb, ea);
        }
        assert(b <= a);
        assert(false);
    }
    lemma_pow2_unfold(ea + 1);
    assert(pow2(ea + 1) == 2 * a);
    if ea + 1 < eb {
        lemma_pow2_strictly_increases(ea + 1, eb);
    }
}

/// `pow2_ceil(v)` is the least power of two at or above `v`.
pub proof fn lemma_pow2_ceil_minimal(v: nat, q: nat)
    requires
        v >= 1,
        is_pow2(q as int),
        q >= v,
    ensures
        q >= pow2_ceil(v),
{
    lemma_pow2_ceil_properties(v);
    let p = pow2_ceil(v);
    if q < p {
        lemma_pow2_double_gap(q, p);
        assert(2 * q <= p);
        if v == 1 {
            reveal(is_pow2);
            assert(q >= 1);
            assert(false);
        } else {
            assert(p <= 2 * v - 2);
            assert(q <= v - 1);
            assert(false);
        }
    }
}

/// A smaller power of two divides a larger one.
pub proof fn lemma_pow2_divides(p: nat, q: nat)
    requires
        is_pow2(p as int),
        is_pow2(q as int),
        p <= q,
    ensures
        q % p == 0,
{
    reveal(is_pow2);
    assert(p >= 1 && q >= 1);
    is_pow2_equiv(p as int);
    is_pow2_equiv(q as int);
    let ep = choose|i: nat| pow(2, i) == p as int;
    let eq = choose|i: nat| pow(2, i) == q as int;
    assert(pow2(ep) == p && pow2(eq) == q);
    if eq < ep {
        lemma_pow2_strictly_increases(eq, ep);
        assert(q < p);
        assert(false);
    }
    lemma_pow2_adds(ep, (eq - ep) as nat);
    let k = pow2((eq - ep) as nat) as int;
    assert(q as int == p as int * k);
    lemma_mod_multiples_basic(k, p as int);
    assert((k * p as int) % (p as int) == 0);
    assert(q as int == k * p as int) by (nonlinear_arith)
        requires q as int == p as int * k;
}

/// Reducing modulo a multiple of `d` preserves divisibility by `d`.
pub proof fn lemma_mod_multiple_divisor(x: int, a: int, d: int)
    requires
        d > 0,
        a > 0,
        a % d == 0,
        x % d == 0,
    ensures
        (x % a) % d == 0,
{
    lemma_fundamental_div_mod(a, d);
    let m = a / d;
    assert(a == d * m);
    assert(m > 0) by (nonlinear_arith)
        requires a == d * m, a > 0, d > 0;
    lemma_mod_mod(x, d, m);
    assert((x % (d * m)) % d == x % d);
}

/// A multiple of a multiple of `d` is a multiple of `d`.
pub proof fn lemma_mod_transitive(x: int, a: int, d: int)
    requires
        a > 0,
        d > 0,
        x % a == 0,
        a % d == 0,
    ensures
        x % d == 0,
{
    lemma_fundamental_div_mod(x, a);
    lemma_fundamental_div_mod(a, d);
    let k = (a / d) * (x / a);
    assert(x == k * d) by (nonlinear_arith)
        requires x == a * (x / a), a == d * (a / d), k == (a / d) * (x / a);
    lemma_mod_multiples_basic(k, d);
}

/// A difference of two multiples of `d` is a multiple of `d`.
pub proof fn lemma_mod_sub_zero(x: int, y: int, d: int)
    requires
        d > 0,
        x % d == 0,
        y % d == 0,
    ensures
        (x - y) % d == 0,
{
    lemma_fundamental_div_mod(x, d);
    lemma_fundamental_div_mod(y, d);
    let k = x / d - y / d;
    assert(x - y == k * d) by (nonlinear_arith)
        requires x == d * (x / d), y == d * (y / d), k == x / d - y / d;
    lemma_mod_multiples_basic(k, d);
}

/// A sum of two multiples of `d` is a multiple of `d`.
pub proof fn lemma_mod_add_zero(x: int, y: int, d: int)
    requires
        d > 0,
        x % d == 0,
        y % d == 0,
    ensures
        (x + y) % d == 0,
{
    lemma_fundamental_div_mod(x, d);
    lemma_fundamental_div_mod(y, d);
    let k = x / d + y / d;
    assert(x + y == k * d) by (nonlinear_arith)
        requires x == d * (x / d), y == d * (y / d), k == x / d + y / d;
    lemma_mod_multiples_basic(k, d);
}

} // verus!
