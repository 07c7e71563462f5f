//! Facts about division that the timer and the fixed-step groups share.

use vstd::arithmetic::div_mod::{lemma_fundamental_div_mod_converse, lemma_small_mod};
use vstd::prelude::*;

verus! {

/// How the quotient and the rest of a sum by `d` come from those of its
/// first term: adding `b` to `a` passes a multiple of `d` exactly when the
/// rest of `a` plus `b` reaches `d`.
pub proof fn lemma_carry(a: int, b: int, d: int)
    requires
        0 <= a,
        0 <= b,
        0 < d,
    ensures
        (a + b) % d == (a % d + b) % d,
        (a + b) / d == a / d + (a % d + b) / d,
        (a / d < (a + b) / d) == (a % d + b >= d),
        a % d + b < d ==> (a + b) % d == a % d + b,
{
    let q = a / d;
    let r = a % d;
    vstd::arithmetic::div_mod::lemma_fundamental_div_mod(a, d);
    vstd::arithmetic::div_mod::lemma_mod_bound(a, d);
    let s = r + b;
    let q2 = s / d;
    let r2 = s % d;
    vstd::arithmetic::div_mod::lemma_fundamental_div_mod(s, d);
    vstd::arithmetic::div_mod::lemma_mod_bound(s, d);
    vstd::arithmetic::div_mod::lemma_div_pos_is_pos(s, d);
    assert(a + b == (q + q2) * d + r2) by (nonlinear_arith)
        requires
            a == d * q + r,
            s == d * q2 + r2,
            s == r + b,
    ;
    lemma_fundamental_div_mod_converse(a + b, d, q + q2, r2);
    if s < d {
        lemma_small_mod(s as nat, d as nat);
        vstd::arithmetic::div_mod::lemma_basic_div(s, d);
    } else {
        assert(q2 >= 1) by (nonlinear_arith)
            requires
                s == d * q2 + r2,
                s >= d,
                0 <= r2 < d,
                0 < d,
        ;
    }
}

} // verus!
