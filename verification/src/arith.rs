//! Integer division.

use vstd::prelude::*;

verus! {

/// Quotient rounded down.
pub fn floor_div(x: i64, d: i64) -> (r: i64)
    requires
        d > 0,
    ensures
        r == x as int / d as int,
{
    if x >= 0 {
        x / d
    } else {
        let y: i64 = -(x + 1);
        let q: i64 = y / d;
        proof {
            let a = y as int;
            let b = d as int;
            let k = a / b;
            let m = a % b;
            vstd::arithmetic::div_mod::lemma_fundamental_div_mod(a, b);
            vstd::arithmetic::div_mod::lemma_mod_bound(a, b);
            assert(x as int == b * (-1 - k) + (b - 1 - m)) by (nonlinear_arith)
                requires
                    a == b * k + m,
                    x as int == -a - 1,
            ;
            vstd::arithmetic::div_mod::lemma_fundamental_div_mod_converse(
                x as int,
                b,
                -1 - k,
                b - 1 - m,
            );
            assert(0 <= k <= a) by (nonlinear_arith)
                requires
                    a == b * k + m,
                    0 <= m < b,
                    a >= 0,
                    b > 0,
            ;
        }
        -1 - q
    }
}

} // verus!
