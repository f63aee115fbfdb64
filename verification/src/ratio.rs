//! Exact comparison of non-negative fractions.
//!
//! The significance rule and the variance-jump filter compare ratios whose
//! cross products would overflow 128-bit integers.  [`frac_lt`] compares
//! `a / b` with `c / d` exactly, using only division and remainders, the way
//! continued fractions are compared: equal integer parts are stripped off and
//! the remaining fractional parts are compared with the sides flipped.

use vstd::prelude::*;
use vstd::arithmetic::div_mod::lemma_fundamental_div_mod;

verus! {

/// Exact test `a / b < c / d` for non-negative fractions, that is `a*d < c*b`,
/// without forming either product.
pub fn frac_lt(a: u128, b: u128, c: u128, d: u128) -> (r: bool)
    requires
        b > 0,
        d > 0,
    ensures
        r <==> a * d < c * b,
    decreases b + d,
{
    let qa = a / b;
    let ra = a % b;
    let qc = c / d;
    let rc = c % d;
    proof {
        lemma_fundamental_div_mod(a as int, b as int);
        lemma_fundamental_div_mod(c as int, d as int);
        assert(a == b * qa + ra);
        assert(c == d * qc + rc);
        assert(0 <= ra < b);
        assert(0 <= rc < d);
    }
    if qa < qc {
        proof {
            assert(a * d < c * b) by (nonlinear_arith)
                requires
                    a == b * qa + ra,
                    c == d * qc + rc,
                    0 <= ra < b,
                    0 <= rc,
                    qa + 1 <= qc,
                    b > 0,
                    d > 0,
                    qa >= 0,
            ;
        }
        true
    } else if qc < qa {
        proof {
            assert(c * b < a * d) by (nonlinear_arith)
                requires
                    a == b * qa + ra,
                    c == d * qc + rc,
                    0 <= ra,
                    0 <= rc < d,
                    qc + 1 <= qa,
                    b > 0,
                    d > 0,
                    qc >= 0,
            ;
        }
        false
    } else {
        proof {
            assert((a * d < c * b) <==> (ra * d < rc * b)) by (nonlinear_arith)
                requires
                    a == b * qa + ra,
                    c == d * qa + rc,
                    b > 0,
                    d > 0,
            ;
        }
        if ra == 0 {
            proof {
                assert((0 * d < rc * b) <==> rc > 0) by (nonlinear_arith)
                    requires
                        b > 0,
                        d > 0,
                        rc >= 0,
                ;
            }
            rc > 0
        } else if rc == 0 {
            proof {
                assert(!(ra * d < 0 * b)) by (nonlinear_arith)
                    requires
                        b > 0,
                        d > 0,
                        ra > 0,
                ;
            }
            false
        } else {
            let r = frac_lt(d, rc, b, ra);
            proof {
                assert((d * ra < b * rc) <==> (ra * d < rc * b)) by (nonlinear_arith);
            }
            r
        }
    }
}

/// Exact test `a / b >= c / d` for non-negative fractions, that is
/// `a*d >= c*b`.
pub fn frac_ge(a: u128, b: u128, c: u128, d: u128) -> (r: bool)
    requires
        b > 0,
        d > 0,
    ensures
        r <==> a * d >= c * b,
{
    let lt = frac_lt(a, b, c, d);
    !lt
}

} // verus!
