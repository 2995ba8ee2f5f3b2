//! Integer division as the machine performs it, stated over `int`.

use vstd::prelude::*;

verus! {

/// Quotient rounded toward zero, as Rust's `/` on signed integers.
pub open spec fn tdiv(a: int, b: int) -> int {
    if a >= 0 {
        a / b
    } else {
        -((-a) / b)
    }
}

/// Remainder that goes with [`tdiv`], as Rust's `%` on signed integers.
pub open spec fn trem(a: int, b: int) -> int {
    if a >= 0 {
        a % b
    } else {
        -((-a) % b)
    }
}

/// The machine quotient and remainder against the floored ones.
pub proof fn lemma_trunc_floor(a: int, b: int)
    requires
        b > 0,
    ensures
        a == b * tdiv(a, b) + trem(a, b),
        trem(a, b) >= 0 ==> tdiv(a, b) == a / b && trem(a, b) == a % b,
        trem(a, b) < 0 ==> tdiv(a, b) == a / b + 1 && trem(a, b) + b == a % b,
        -b < trem(a, b) < b,
{
    vstd::arithmetic::div_mod::lemma_fundamental_div_mod(a, b);
    vstd::arithmetic::div_mod::lemma_fundamental_div_mod(-a, b);
    if a < 0 {
        let q = (-a) / b;
        let r = (-a) % b;
        assert(a == b * (-q) + (-r)) by (nonlinear_arith)
            requires -a == b * q + r;
        if r > 0 {
            assert(a == b * (-q - 1) + (b - r)) by (nonlinear_arith)
                requires a == b * (-q) + (-r);
            assert(a == (-q - 1) * b + (b - r)) by (nonlinear_arith)
                requires a == b * (-q - 1) + (b - r);
            vstd::arithmetic::div_mod::lemma_fundamental_div_mod_converse(a, b, -q - 1, b - r);
        } else {
            assert(a == (-q) * b + 0) by (nonlinear_arith)
                requires a == b * (-q) + (-r), r == 0;
            vstd::arithmetic::div_mod::lemma_fundamental_div_mod_converse(a, b, -q, 0);
        }
    }
}

} // verus!
