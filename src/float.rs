use vstd::prelude::*;
use vstd::arithmetic::power2::{
    pow2, lemma2_to64, lemma2_to64_rest, lemma_pow2_unfold, lemma_pow2_strictly_increases,
};

verus! {

/// 2^52: the weight of the lowest exponent bit, and the implicit leading bit.
pub open spec fn frac_unit() -> int {
    0x10_0000_0000_0000
}

/// The biased exponent of a double's bit pattern.
pub open spec fn exponent_field(b: u64) -> int {
    (b as int / frac_unit()) % 2048
}

/// The 52 stored fraction bits of a double's bit pattern.
pub open spec fn fraction_field(b: u64) -> int {
    b as int % frac_unit()
}

pub open spec fn sign_negative(b: u64) -> bool {
    b as int >= 0x8000_0000_0000_0000
}

pub open spec fn signed(neg: bool, mag: int) -> int {
    if neg { -mag } else { mag }
}

/// The integer that the double with bit pattern `b` equals, if it equals one.
/// Infinities and NaNs equal none; both zeros equal 0; a nonzero subnormal
/// lies strictly between -1 and 1.
pub open spec fn float_integer(b: u64) -> Option<int> {
    let e = exponent_field(b);
    let m = fraction_field(b) + frac_unit();
    if e == 2047 {
        None
    } else if e == 0 {
        if fraction_field(b) == 0 { Some(0) } else { None }
    } else if e >= 1075 {
        Some(signed(sign_negative(b), m * pow2((e - 1075) as nat)))
    } else if m % (pow2((1075 - e) as nat) as int) == 0 {
        Some(signed(sign_negative(b), m / (pow2((1075 - e) as nat) as int)))
    } else {
        None
    }
}

pub open spec fn in_i64(v: int) -> bool {
    i64::MIN <= v <= i64::MAX
}

/// The `i64` that the double with bit pattern `b` equals, if there is one.
pub open spec fn float_to_i64_spec(b: u64) -> Option<i64> {
    match float_integer(b) {
        Some(v) => if in_i64(v) { Some(v as i64) } else { None },
        None => None,
    }
}

fn pow2_u64(k: u64) -> (r: u64)
    requires
        k <= 62,
    ensures
        r as int == pow2(k as nat),
{
    let mut p: u64 = 1;
    let mut i: u64 = 0;
    proof {
        lemma2_to64();
    }
    while i < k
        invariant
            i <= k <= 62,
            p as int == pow2(i as nat),
        decreases k - i,
    {
        proof {
            lemma_pow2_unfold((i + 1) as nat);
            lemma_pow2_strictly_increases((i + 1) as nat, 63);
            lemma2_to64_rest();
        }
        p = p * 2;
        i = i + 1;
    }
    p
}

/// Reads a double's bit pattern as an integer: `Some` exactly when the double
/// is an integer that fits in `i64`, so no fraction is ever cut off.
pub fn float_to_i64(b: u64) -> (r: Option<i64>)
    ensures
        r == float_to_i64_spec(b),
{
    let e: u64 = (b / 0x10_0000_0000_0000) % 2048;
    let f: u64 = b % 0x10_0000_0000_0000;
    let neg: bool = b >= 0x8000_0000_0000_0000;
    if e == 2047 {
        return None;
    }
    if e == 0 {
        return if f == 0 { Some(0) } else { None };
    }
    let m: u64 = f + 0x10_0000_0000_0000;
    proof {
        lemma2_to64();
        lemma2_to64_rest();
    }
    if e >= 1075 {
        let sh: u64 = e - 1075;
        if sh > 11 {
            proof {
                if sh > 12 {
                    lemma_pow2_strictly_increases(12, sh as nat);
                }
                assert(m * pow2(sh as nat) >= 0x10_0000_0000_0000 * 0x1000) by (nonlinear_arith)
                    requires m >= 0x10_0000_0000_0000, pow2(sh as nat) >= 0x1000;
            }
            None
        } else if sh == 11 {
            if neg && m == 0x10_0000_0000_0000 {
                Some(i64::MIN)
            } else {
                assert(m * 0x800 >= 0x8000_0000_0000_0000) by (nonlinear_arith)
                    requires m >= 0x10_0000_0000_0000;
                assert(!neg ==> m * 0x800 > 0x7fff_ffff_ffff_ffff);
                if neg {
                    assert(m > 0x10_0000_0000_0000);
                    assert(m * 0x800 > 0x8000_0000_0000_0000) by (nonlinear_arith)
                        requires m > 0x10_0000_0000_0000;
                }
                None
            }
        } else {
            let p = pow2_u64(sh);
            proof {
                if sh < 10 {
                    lemma_pow2_strictly_increases(sh as nat, 10);
                }
                assert(m * p < 0x8000_0000_0000_0000) by (nonlinear_arith)
                    requires m < 0x20_0000_0000_0000, p <= 0x400;
            }
            let mag: u64 = m * p;
            if neg { Some(-(mag as i64)) } else { Some(mag as i64) }
        }
    } else {
        let k: u64 = 1075 - e;
        if k > 52 {
            proof {
                if k > 53 {
                    lemma_pow2_strictly_increases(53, k as nat);
                }
                vstd::arithmetic::div_mod::lemma_small_mod(m as nat, pow2(k as nat));
            }
            None
        } else {
            let p = pow2_u64(k);
            if m % p != 0 {
                None
            } else {
                let mag: u64 = m / p;
                proof {
                    assert(mag <= m) by (nonlinear_arith)
                        requires mag == m / p, p >= 1;
                }
                if neg { Some(-(mag as i64)) } else { Some(mag as i64) }
            }
        }
    }
}

} // verus!
