//! Rounding and saturating arithmetic.
use vstd::prelude::*;

verus! {

/// The quotient rounded up.
pub open spec fn ceil_div(a: int, b: int) -> int {
    if a % b == 0 {
        a / b
    } else {
        a / b + 1
    }
}

/// The quotient rounded up is the least number of parts of size `b` that hold `a`.
pub proof fn law_ceil_div_is_least(a: int, b: int)
    requires
        a >= 0,
        b > 0,
    ensures
        ceil_div(a, b) * b >= a,
        a > 0 ==> (ceil_div(a, b) - 1) * b < a,
        0 <= ceil_div(a, b) <= a,
{
    let q = a / b;
    let r = a % b;
    assert(a == q * b + r && 0 <= r < b) by (nonlinear_arith)
        requires
            b > 0,
            q == a / b,
            r == a % b,
    ;
    assert((q + 1) * b == q * b + b) by (nonlinear_arith);
    assert((q - 1) * b == q * b - b) by (nonlinear_arith);
    assert(0 <= q) by (nonlinear_arith)
        requires
            a >= 0,
            b > 0,
            q == a / b,
    ;
    assert(q <= q * b) by (nonlinear_arith)
        requires
            q >= 0,
            b >= 1,
    ;
}

pub fn div_ceil(a: u64, b: u64) -> (quotient: u64)
    requires
        b > 0,
    ensures
        quotient == ceil_div(a as int, b as int),
        quotient <= a,
{
    proof {
        law_ceil_div_is_least(a as int, b as int);
    }
    if a % b == 0 {
        a / b
    } else {
        a / b + 1
    }
}

/// One, or more where the number is more.
pub open spec fn at_least_one(n: int) -> int {
    if n < 1 {
        1
    } else {
        n
    }
}

pub fn max_one(n: u64) -> (result: u64)
    ensures
        result == at_least_one(n as int),
{
    if n < 1 {
        1
    } else {
        n
    }
}

/// The product, or the largest 32-bit number where the product is larger.
pub open spec fn saturating_product(a: int, b: int) -> int {
    if a * b > u32::MAX {
        u32::MAX as int
    } else {
        a * b
    }
}

pub fn saturating_mul(a: u32, b: u32) -> (product: u32)
    ensures
        product == saturating_product(a as int, b as int),
{
    assert(0 <= a * b <= u32::MAX * u32::MAX) by (nonlinear_arith)
        requires
            0 <= a <= u32::MAX,
            0 <= b <= u32::MAX,
    ;
    let product: u64 = a as u64 * b as u64;
    if product > u32::MAX as u64 {
        u32::MAX
    } else {
        product as u32
    }
}

/// A product that saturates is the product as far as 32 bits reach, grows with its factors,
/// and is zero only where a factor is.
pub proof fn law_saturating_products_are_nearest(a: int, b: int, c: int)
    requires
        0 <= a <= u32::MAX,
        0 <= b <= c <= u32::MAX,
    ensures
        0 <= saturating_product(a, b) <= u32::MAX,
        a * b <= u32::MAX ==> saturating_product(a, b) == a * b,
        saturating_product(a, b) <= saturating_product(a, c),
        saturating_product(a, b) == saturating_product(b, a),
        saturating_product(a, b) == 0 <==> a == 0 || b == 0,
{
    assert(0 <= a * b <= a * c && a * b == b * a && (a * b == 0 <==> a == 0 || b == 0))
        by (nonlinear_arith)
        requires
            0 <= a,
            0 <= b <= c,
    ;
}

/// One is the least, and all above it stays as it is.
pub proof fn law_at_least_one(n: int)
    ensures
        at_least_one(n) >= 1,
        at_least_one(n) >= n,
        at_least_one(n) == n || at_least_one(n) == 1,
        n >= 1 ==> at_least_one(n) == n,
{
}

} // verus!
