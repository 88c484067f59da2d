//! Scaling between whole token quantities and base units.

use vstd::arithmetic::power::{lemma_pow0, lemma_pow_increases, lemma_pow_positive, pow};
use vstd::prelude::*;

verus! {

/// The number of base units in one whole token: ten to the power `decimals`.
pub open spec fn unit(decimals: u8) -> int {
    pow(10, decimals as nat)
}

/// One more factor of ten.
proof fn lemma_pow10_step(e: nat)
    ensures
        pow(10, e + 1) == 10 * pow(10, e),
{
    reveal(pow);
}

/// Ten to the power `decimals`, where that fits in 64 bits.
pub fn checked_unit(decimals: u8) -> (r: Option<u64>)
    ensures
        r is Some <==> unit(decimals) <= u64::MAX,
        r matches Some(p) ==> p == unit(decimals),
{
    let mut p: u64 = 1;
    let mut i: u8 = 0;
    proof {
        lemma_pow0(10);
    }
    while i < decimals
        invariant
            i <= decimals,
            p == pow(10, i as nat),
        decreases decimals - i,
    {
        proof {
            lemma_pow10_step(i as nat);
            lemma_pow_increases(10, (i + 1) as nat, decimals as nat);
        }
        if p > u64::MAX / 10 {
            return None;
        }
        p = p * 10;
        i = i + 1;
    }
    Some(p)
}

/// Converts a whole quantity to base units: `num * 10^decimals`.
pub fn to_decimals(num: u64, decimals: u8) -> (r: u64)
    requires
        num * unit(decimals) <= u64::MAX,
    ensures
        r == num * unit(decimals),
{
    if num == 0 {
        return 0;
    }
    proof {
        lemma_pow_positive(10, decimals as nat);
        assert(unit(decimals) <= num * unit(decimals)) by (nonlinear_arith)
            requires
                num >= 1,
                unit(decimals) > 0,
        ;
    }
    match checked_unit(decimals) {
        Some(p) => num * p,
        None => unreached(),
    }
}

/// Converts a whole quantity to base units, or returns `None` where the
/// product `num * 10^decimals` does not fit in 64 bits.
pub fn checked_to_decimals(num: u64, decimals: u8) -> (r: Option<u64>)
    ensures
        r is Some <==> num * unit(decimals) <= u64::MAX,
        r matches Some(v) ==> v == num * unit(decimals),
{
    if num == 0 {
        return Some(0);
    }
    proof {
        lemma_pow_positive(10, decimals as nat);
    }
    match checked_unit(decimals) {
        Some(p) => {
            if p > u64::MAX / num {
                proof {
                    assert(num * p > u64::MAX) by (nonlinear_arith)
                        requires
                            num >= 1,
                            p > (u64::MAX as int) / (num as int),
                    ;
                }
                None
            } else {
                proof {
                    assert(num * p <= u64::MAX) by (nonlinear_arith)
                        requires
                            num >= 1,
                            p <= (u64::MAX as int) / (num as int),
                    ;
                }
                Some(num * p)
            }
        },
        None => {
            proof {
                assert(num * unit(decimals) > u64::MAX) by (nonlinear_arith)
                    requires
                        num >= 1,
                        unit(decimals) > u64::MAX,
                ;
            }
            None
        },
    }
}

/// Converts base units to whole tokens, discarding the remainder:
/// `num / 10^decimals`.
pub fn from_decimals(num: u64, decimals: u8) -> (r: u64)
    ensures
        r == (num as int) / unit(decimals),
{
    proof {
        lemma_pow_positive(10, decimals as nat);
    }
    match checked_unit(decimals) {
        Some(p) => num / p,
        None => {
            proof {
                vstd::arithmetic::div_mod::lemma_basic_div(num as int, unit(decimals));
            }
            0
        },
    }
}

} // verus!
