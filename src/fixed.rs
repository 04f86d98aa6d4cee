//! Integer division rounded toward zero, as the fixed-point arithmetic uses it.

use vstd::prelude::*;

verus! {

/// `a / n`, rounded toward zero.
pub open spec fn div_toward_zero(a: int, n: int) -> int {
    if a >= 0 {
        a / n
    } else {
        -((-a) / n)
    }
}

/// Absolute value.
pub open spec fn abs(x: int) -> int {
    if x < 0 {
        -x
    } else {
        x
    }
}

pub(crate) proof fn lemma_quotient_bound(a: int, n: int)
    requires
        n > 0,
    ensures
        0 <= abs(div_toward_zero(a, n)) * n <= abs(a),
        abs(div_toward_zero(a, n)) <= abs(a),
        abs(a) < n * (abs(div_toward_zero(a, n)) + 1),
{
    let b = abs(a);
    vstd::arithmetic::div_mod::lemma_fundamental_div_mod(b, n);
    vstd::arithmetic::div_mod::lemma_mod_bound(b, n);
    vstd::arithmetic::div_mod::lemma_div_pos_is_pos(b, n);
    let q = b / n;
    let r = b % n;
    assert(abs(div_toward_zero(a, n)) == q);
    assert(0 <= q * n <= b && q <= b && b < n * (q + 1)) by (nonlinear_arith)
        requires
            n >= 1,
            q >= 0,
            b == n * q + r,
            0 <= r < n,
    ;
}

/// `a / n` rounded toward zero.
pub(crate) fn quot(a: i128, n: i128) -> (r: i128)
    requires
        n > 0,
        a > i128::MIN,
    ensures
        r == div_toward_zero(a as int, n as int),
{
    if a >= 0 {
        a / n
    } else {
        -((-a) / n)
    }
}

} // verus!
