//! Integer arithmetic that the fixed-point computations rest on: magnitudes,
//! quotients rounded down, and the bounds that products and quotients keep.

use vstd::prelude::*;

verus! {

/// Absolute value.
pub open spec fn magnitud(x: int) -> int {
    if x < 0 {
        -x
    } else {
        x
    }
}

/// The quotient rounded down of a number by a positive divisor.
pub fn dividir_abajo(x: i128, d: i128) -> (q: i128)
    requires
        d > 0,
        x > i128::MIN,
    ensures
        q == x / d,
{
    if x >= 0 {
        x / d
    } else {
        let y = -x;
        let c = y / d;
        let r = y % d;
        proof {
            vstd::arithmetic::div_mod::lemma_fundamental_div_mod(y as int, d as int);
            vstd::arithmetic::div_mod::lemma_mod_bound(y as int, d as int);
            assert(y == d * c + r);
            if r == 0 {
                assert(x == d * (-c)) by (nonlinear_arith)
                    requires
                        x == -y,
                        y == d * c + r,
                        r == 0,
                ;
                vstd::arithmetic::div_mod::lemma_fundamental_div_mod_converse(
                    x as int,
                    d as int,
                    -(c as int),
                    0,
                );
            } else {
                assert(x == d * (-c - 1) + (d - r)) by (nonlinear_arith)
                    requires
                        x == -y,
                        y == d * c + r,
                ;
                vstd::arithmetic::div_mod::lemma_fundamental_div_mod_converse(
                    x as int,
                    d as int,
                    -(c as int) - 1,
                    d - r,
                );
            }
        }
        if r == 0 {
            -c
        } else {
            -c - 1
        }
    }
}

/// A weight times a bounded number is bounded by the weight times the bound.
pub proof fn lema_producto_acotado(p: int, v: int, c: int)
    requires
        0 <= p,
        -c <= v <= c,
    ensures
        -(p * c) <= p * v <= p * c,
{
    assert(-(p * c) <= p * v <= p * c) by (nonlinear_arith)
        requires
            0 <= p,
            -c <= v <= c,
    ;
}

/// A number between `-t * d` and `t * d` has a quotient by `d`, rounded down,
/// between `-t` and `t`.
pub proof fn lema_cociente_acotado(x: int, d: int, t: int)
    requires
        d > 0,
        -t * d <= x <= t * d,
    ensures
        -t <= x / d <= t,
{
    vstd::arithmetic::div_mod::lemma_fundamental_div_mod(x, d);
    vstd::arithmetic::div_mod::lemma_mod_bound(x, d);
    let q = x / d;
    let r = x % d;
    assert(-t <= q <= t) by (nonlinear_arith)
        requires
            x == d * q + r,
            0 <= r < d,
            d > 0,
            -t * d <= x <= t * d,
    ;
}

/// Quotients rounded down of two numbers no further apart than `c * d` are no
/// further apart than `c`.
pub proof fn lema_piso_cercano(x: int, y: int, d: int, c: int)
    requires
        d > 0,
        magnitud(x - y) <= c * d,
    ensures
        magnitud(x / d - y / d) <= c,
{
    vstd::arithmetic::div_mod::lemma_fundamental_div_mod(x, d);
    vstd::arithmetic::div_mod::lemma_fundamental_div_mod(y, d);
    vstd::arithmetic::div_mod::lemma_mod_bound(x, d);
    vstd::arithmetic::div_mod::lemma_mod_bound(y, d);
    let q1 = x / d;
    let q2 = y / d;
    let r1 = x % d;
    let r2 = y % d;
    assert(q1 - q2 <= c && q2 - q1 <= c) by (nonlinear_arith)
        requires
            x == d * q1 + r1,
            y == d * q2 + r2,
            0 <= r1 < d,
            0 <= r2 < d,
            d > 0,
            x - y <= c * d,
            y - x <= c * d,
    ;
}

} // verus!
