use vstd::prelude::*;
use vstd::arithmetic::div_mod::lemma_fundamental_div_mod_converse;

verus! {

/// Division rounded toward negative infinity.
pub open spec fn floor_div(a: int, b: int) -> int {
    if b > 0 {
        a / b
    } else {
        (-a) / (-b)
    }
}

/// The remainder that goes with `floor_div`: zero or of the divisor's sign.
pub open spec fn floor_mod(a: int, b: int) -> int {
    if b > 0 {
        a % b
    } else {
        -((-a) % (-b))
    }
}

fn magnitude(a: i64) -> (r: u64)
    ensures
        r as int == if a < 0 { -(a as int) } else { a as int },
{
    if a < 0 {
        (-(a + 1)) as u64 + 1
    } else {
        a as u64
    }
}

proof fn lemma_neg_div(ua: int, ub: int)
    requires
        ua >= 0,
        ub > 0,
    ensures
        (-ua) / ub == if ua % ub == 0 { -(ua / ub) } else { -(ua / ub) - 1 },
        (-ua) % ub == if ua % ub == 0 { 0 } else { ub - ua % ub },
{
    let q = ua / ub;
    let r = ua % ub;
    assert(ua == q * ub + r) by {
        vstd::arithmetic::div_mod::lemma_fundamental_div_mod(ua, ub);
    }
    if r == 0 {
        assert(-ua == (-q) * ub + 0) by (nonlinear_arith)
            requires ua == q * ub + r, r == 0;
        lemma_fundamental_div_mod_converse(-ua, ub, -q, 0);
    } else {
        assert(-ua == (-q - 1) * ub + (ub - r)) by (nonlinear_arith)
            requires ua == q * ub + r;
        lemma_fundamental_div_mod_converse(-ua, ub, -q - 1, ub - r);
    }
}

/// Floor division and modulo split the dividend exactly, and the remainder is
/// zero or carries the divisor's sign and is smaller than it: so the quotient
/// is the dividend over the divisor rounded toward negative infinity.
pub proof fn lemma_floor_div_mod(a: int, b: int)
    requires
        b != 0,
    ensures
        a == b * floor_div(a, b) + floor_mod(a, b),
        b > 0 ==> 0 <= floor_mod(a, b) < b,
        b < 0 ==> b < floor_mod(a, b) <= 0,
{
    if b > 0 {
        vstd::arithmetic::div_mod::lemma_fundamental_div_mod(a, b);
    } else {
        vstd::arithmetic::div_mod::lemma_fundamental_div_mod(-a, -b);
        assert(a == b * floor_div(a, b) + floor_mod(a, b)) by (nonlinear_arith)
            requires -a == (-b) * ((-a) / (-b)) + (-a) % (-b),
                floor_div(a, b) == (-a) / (-b), floor_mod(a, b) == -((-a) % (-b));
    }
}

/// Integer floor division; `None` on a zero divisor. The one quotient out of
/// range, `i64::MIN / -1`, wraps to `i64::MIN`.
pub fn floor_div_i64(a: i64, b: i64) -> (r: Option<i64>)
    ensures
        b == 0 ==> r is None,
        b != 0 ==> r == Some(crate::value::wrap(floor_div(a as int, b as int))),
{
    if b == 0 {
        return None;
    }
    let ua = magnitude(a);
    let ub = magnitude(b);
    let q = ua / ub;
    let rem = ua % ub;
    proof {
        lemma_neg_div(ua as int, ub as int);
        vstd::arithmetic::div_mod::lemma_fundamental_div_mod(ua as int, ub as int);
        assert(q <= ua) by (nonlinear_arith)
            requires q == ua / ub, ub >= 1;
        assert(rem != 0 ==> q + 1 <= ua) by (nonlinear_arith)
            requires ua == q * ub + rem, ub >= 1, q >= 0;
        assert(ua <= 0x8000_0000_0000_0000);
        crate::value::lemma_wrap_in_range(q as int);
        crate::value::lemma_wrap_in_range(-(q as int));
        crate::value::lemma_wrap_in_range(-(q as int) - 1);
        crate::value::lemma_wrap_in_range(0x8000_0000_0000_0000);
    }
    if (a < 0) == (b < 0) {
        if q == 0x8000_0000_0000_0000u64 {
            Some(i64::MIN)
        } else {
            Some(q as i64)
        }
    } else {
        let c: u64 = if rem == 0 { q } else { q + 1 };
        if c == 0x8000_0000_0000_0000u64 {
            Some(i64::MIN)
        } else {
            Some(-(c as i64))
        }
    }
}

/// Integer floor modulo; `None` on a zero divisor.
pub fn floor_mod_i64(a: i64, b: i64) -> (r: Option<i64>)
    ensures
        b == 0 ==> r is None,
        b != 0 ==> r == Some(floor_mod(a as int, b as int) as i64),
{
    if b == 0 {
        return None;
    }
    let ua = magnitude(a);
    let ub = magnitude(b);
    let rem = ua % ub;
    proof {
        lemma_neg_div(ua as int, ub as int);
    }
    if a >= 0 && b > 0 {
        Some(rem as i64)
    } else if a < 0 && b < 0 {
        Some(-(rem as i64))
    } else if rem == 0 {
        Some(0)
    } else if b > 0 {
        Some((ub - rem) as i64)
    } else {
        Some(-((ub - rem) as i64))
    }
}

} // verus!
