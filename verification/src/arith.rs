//! Signed division rounded towards zero.

use vstd::prelude::*;

verus! {

/// Signed division rounded towards zero.
pub open spec fn trunc_div(n: int, d: int) -> int {
    if n >= 0 {
        n / d
    } else {
        -((-n) / d)
    }
}

/// The size of a number.
pub open spec fn magnitude(n: int) -> int {
    if n >= 0 {
        n
    } else {
        -n
    }
}

/// The remainder of that division; it has the sign of `n`.
pub open spec fn trunc_rem(n: int, d: int) -> int {
    if n >= 0 {
        n % magnitude(d)
    } else {
        -((-n) % magnitude(d))
    }
}

/// `n / d` rounded towards zero.
pub fn div_toward_zero(n: i32, d: i32) -> (r: i32)
    requires
        d != 0,
        !(n == i32::MIN && d == -1),
    ensures
        r == trunc_div(n as int, d as int),
{
    match n.checked_div(d) {
        Some(q) => {
            proof {
                let (x, y) = (n as int, d as int);
                if x > 0 && y < 0 {
                    assert(x / y == -(x / (-y))) by (nonlinear_arith)
                        requires
                            x > 0,
                            y < 0,
                    ;
                } else if x < 0 && y < 0 {
                    assert((-x) / y == -((-x) / (-y))) by (nonlinear_arith)
                        requires
                            x < 0,
                            y < 0,
                    ;
                } else if x == 0 {
                    assert(0int / y == 0) by (nonlinear_arith)
                        requires
                            y != 0,
                    ;
                }
            }
            q
        },
        None => {
            proof {
                lemma_quotient_in_range(n as int, d as int);
            }
            0
        },
    }
}

proof fn lemma_quotient_in_range(x: int, y: int)
    by (nonlinear_arith)
    requires
        -0x8000_0000 <= x <= 0x7FFF_FFFF,
        y != 0,
        !(x == -0x8000_0000 && y == -1),
    ensures
        x > 0 && y > 0 ==> 0 <= x / y <= x,
        x < 0 && y < 0 ==> 0 <= (x * -1) / (y * -1) <= 0x7FFF_FFFF,
        x < 0 && y > 0 ==> 0 <= (x * -1) / y <= -x,
        x > 0 && y < 0 ==> 0 <= x / (y * -1) <= x,
{
}

/// The remainder of `n / d` rounded towards zero.
pub fn rem_toward_zero(n: i32, d: i32) -> (r: i32)
    requires
        d != 0,
        !(n == i32::MIN && d == -1),
    ensures
        r == trunc_rem(n as int, d as int),
{
    match n.checked_rem(d) {
        Some(r) => r,
        None => 0,
    }
}

/// Quotient and remainder make up the dividend.
pub proof fn law_division(n: int, d: int)
    requires
        d != 0,
    ensures
        trunc_div(n, d) * d + trunc_rem(n, d) == n,
{
    let m = magnitude(n);
    let e = magnitude(d);
    vstd::arithmetic::div_mod::lemma_fundamental_div_mod(m, e);
    let q = m / e;
    assert(m == e * q + m % e);
    if d < 0 {
        lemma_negative_divisor(m, d);
        assert(m / d == -q);
        assert((-q) * d == e * q && q * d == -(e * q)) by (nonlinear_arith)
            requires
                e == -d,
        ;
    } else {
        assert(q * d == e * q && (-q) * d == -(e * q)) by (nonlinear_arith)
            requires
                e == d,
        ;
    }
}

/// Dividing by a negative number is dividing by its size, negated.
proof fn lemma_negative_divisor(x: int, y: int)
    requires
        x >= 0,
        y < 0,
    ensures
        x / y == -(x / (-y)),
{
    if x == 0 {
        assert(0int / y == 0) by (nonlinear_arith)
            requires
                y != 0,
        ;
    } else {
        assert(x / y == -(x / (-y))) by (nonlinear_arith)
            requires
                x > 0,
                y < 0,
        ;
    }
}

/// How a 32-bit word reads as a signed number.
pub proof fn lemma_signed_word(u: u32)
    ensures
        u as i32 == (if u < 0x8000_0000 {
            u as int
        } else {
            u - 0x1_0000_0000
        }),
{
    crate::bits::lemma_signed_of(u, 0, 0);
}

} // verus!
