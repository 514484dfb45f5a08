//! Whole parts of quotients and square roots.

use vstd::prelude::*;

verus! {

/// The quotient of two numbers, rounded down; the divisor is positive.
pub fn divide_down(a: i128, b: i128) -> (quotient: i128)
    requires
        b > 0,
    ensures
        quotient == a as int / b as int,
{
    proof {
        vstd::arithmetic::div_mod::lemma_fundamental_div_mod(a as int, b as int);
        vstd::arithmetic::div_mod::lemma_mod_bound(a as int, b as int);
        let q = a as int / b as int;
        assert(-0x8000_0000_0000_0000_0000_0000_0000_0000 <= q
            <= 0x7fff_ffff_ffff_ffff_ffff_ffff_ffff_ffff) by (nonlinear_arith)
            requires
                a == b * q + a as int % b as int,
                0 <= a as int % (b as int) < b,
                b >= 1,
                -0x8000_0000_0000_0000_0000_0000_0000_0000 <= a,
                a <= 0x7fff_ffff_ffff_ffff_ffff_ffff_ffff_ffff,
        ;
    }
    match a.checked_div_euclid(b) {
        Some(quotient) => quotient,
        None => 0,
    }
}

/// Whether a number is the whole part of a square root.
pub open spec fn is_root(root: int, n: int) -> bool {
    0 <= root && root * root <= n < (root + 1) * (root + 1)
}

/// The whole part of the square root of a number that is not negative.
pub open spec fn whole_root(n: int) -> int {
    choose|root: int| is_root(root, n)
}

/// There is no more than one whole part of a square root.
pub proof fn lemma_one_root(a: int, b: int, n: int)
    requires
        is_root(a, n),
        is_root(b, n),
    ensures
        a == b,
{
    assert(a == b) by (nonlinear_arith)
        requires
            0 <= a,
            0 <= b,
            a * a <= n,
            n < (a + 1) * (a + 1),
            b * b <= n,
            n < (b + 1) * (b + 1),
    ;
}

/// Every number that is not negative has a whole part of its square root.
pub proof fn lemma_whole_root(n: int)
    requires
        n >= 0,
    ensures
        is_root(whole_root(n), n),
    decreases n,
{
    if n == 0 {
        assert(is_root(0, 0)) by (nonlinear_arith);
    } else {
        lemma_whole_root(n - 1);
        let r = whole_root(n - 1);
        if (r + 1) * (r + 1) <= n {
            assert(n < (r + 2) * (r + 2)) by (nonlinear_arith)
                requires
                    n - 1 < (r + 1) * (r + 1),
                    r >= 0,
            ;
            assert(is_root(r + 1, n));
        } else {
            assert(is_root(r, n));
        }
    }
}

/// Computes the whole part of a square root.
pub fn square_root(n: u128) -> (root: u64)
    requires
        n < 0x4000_0000_0000_0000_0000_0000_0000_0000,
    ensures
        is_root(root as int, n as int),
        root == whole_root(n as int),
{
    let mut low: u128 = 0;
    let mut high: u128 = 0x8000_0000_0000_0000;
    assert(0x8000_0000_0000_0000 * 0x8000_0000_0000_0000
        == 0x4000_0000_0000_0000_0000_0000_0000_0000) by (nonlinear_arith);
    while high - low > 1
        invariant
            low < high <= 0x8000_0000_0000_0000,
            low * low <= n < high * high,
        decreases high - low,
    {
        let middle: u128 = (low + high) / 2;
        assert(middle * middle <= 0x8000_0000_0000_0000u128 * 0x8000_0000_0000_0000u128)
            by (nonlinear_arith)
            requires
                0 <= middle <= 0x8000_0000_0000_0000,
        ;
        if middle * middle <= n {
            low = middle;
        } else {
            high = middle;
        }
    }
    assert(high == low + 1);
    proof {
        assert(is_root(low as int, n as int));
        lemma_one_root(low as int, whole_root(n as int), n as int);
    }
    low as u64
}

/// A quotient times the divisor is at most the number, and less than a divisor short of it; a root
/// squared is at most the number, and the next one's square is above it.
pub proof fn law_quotients_and_roots(a: i128, b: i128, quotient: i128, n: u128, root: u64)
    requires
        b > 0,
        call_ensures(divide_down, (a, b), quotient),
        call_ensures(square_root, (n,), root),
    ensures
        quotient * b <= a < (quotient + 1) * b,
        root * root <= n < (root + 1) * (root + 1),
{
    vstd::arithmetic::div_mod::lemma_fundamental_div_mod(a as int, b as int);
    let q = quotient as int;
    let d = b as int;
    assert(q * d == d * q && (q + 1) * d == d * q + d) by (nonlinear_arith);
}

} // verus!
