use vstd::prelude::*;

verus! {

pub open spec fn is_digit(c: u8) -> bool {
    48 <= c <= 57
}

pub open spec fn all_digits(s: Seq<u8>) -> bool {
    s.len() > 0 && forall|i: int| 0 <= i < s.len() ==> is_digit(#[trigger] s[i])
}

/// The value of a run of decimal digits.
pub open spec fn digits_value(s: Seq<u8>) -> int
    decreases s.len(),
{
    if s.len() == 0 {
        0
    } else {
        digits_value(s.drop_last()) * 10 + (s.last() - 48)
    }
}

/// The integer that a decimal numeral denotes: digits with an optional
/// leading minus sign.
pub open spec fn numeral_value(s: Seq<u8>) -> Option<int> {
    if s.len() > 0 && s[0] == 45 && all_digits(s.drop_first()) {
        Some(-digits_value(s.drop_first()))
    } else if all_digits(s) {
        Some(digits_value(s))
    } else {
        None
    }
}

pub open spec fn numeral_to_i64(s: Seq<u8>) -> Option<i64> {
    match numeral_value(s) {
        Some(v) => if i64::MIN <= v <= i64::MAX { Some(v as i64) } else { None },
        None => None,
    }
}

proof fn lemma_digits_nonneg(s: Seq<u8>)
    requires
        forall|i: int| 0 <= i < s.len() ==> is_digit(#[trigger] s[i]),
    ensures
        digits_value(s) >= 0,
    decreases s.len(),
{
    if s.len() > 0 {
        lemma_digits_nonneg(s.drop_last());
    }
}

/// The magnitude of the digits in `s` from `start`, capped at 2^64; `None`
/// if a byte there is not a digit or there are none.
fn digits_capped(s: &[u8], start: usize) -> (r: Option<u128>)
    requires
        start <= s@.len(),
    ensures
        match r {
            Some(m) => all_digits(s@.skip(start as int))
                && m == if digits_value(s@.skip(start as int)) >= 0x1_0000_0000_0000_0000 {
                    0x1_0000_0000_0000_0000
                } else {
                    digits_value(s@.skip(start as int))
                },
            None => !all_digits(s@.skip(start as int)),
        },
{
    let cap: u128 = 0x1_0000_0000_0000_0000;
    if start == s.len() {
        return None;
    }
    let mut acc: u128 = 0;
    let mut i: usize = start;
    while i < s.len()
        invariant
            start <= i <= s@.len(),
            forall|k: int| start <= k < i ==> is_digit(#[trigger] s@[k]),
            cap == 0x1_0000_0000_0000_0000u128,
            acc <= cap,
            acc == if digits_value(s@.subrange(start as int, i as int)) >= cap {
                cap as int
            } else {
                digits_value(s@.subrange(start as int, i as int))
            },
        decreases s@.len() - i,
    {
        let c = s[i];
        if c < 48 || c > 57 {
            proof {
                assert(s@.skip(start as int)[i - start] == c);
            }
            return None;
        }
        proof {
            let pre = s@.subrange(start as int, i as int);
            let next = s@.subrange(start as int, i + 1);
            assert(next.drop_last() =~= pre);
            assert(next.last() == c);
            assert forall|k: int| 0 <= k < pre.len() implies is_digit(#[trigger] pre[k]) by {
                assert(pre[k] == s@[start + k]);
            }
            lemma_digits_nonneg(pre);
        }
        if acc >= cap {
            acc = cap;
        } else {
            let v = acc * 10 + (c - 48) as u128;
            acc = if v >= cap { cap } else { v };
        }
        i = i + 1;
    }
    proof {
        assert(s@.subrange(start as int, s@.len() as int) =~= s@.skip(start as int));
        assert forall|k: int| 0 <= k < s@.skip(start as int).len() implies is_digit(#[trigger] s@.skip(start as int)[k]) by {
            assert(s@.skip(start as int)[k] == s@[start + k]);
        }
    }
    Some(acc)
}

/// Reads a decimal numeral as an `i64`; `None` if `s` is not one or its value
/// does not fit.
pub fn parse_integer(s: &[u8]) -> (r: Option<i64>)
    ensures
        r == numeral_to_i64(s@),
{
    if s.len() > 0 && s[0] == 45 {
        proof {
            assert(s@.skip(1) =~= s@.drop_first());
            assert(!all_digits(s@));
        }
        match digits_capped(s, 1) {
            Some(m) => {
                if m <= 0x8000_0000_0000_0000 {
                    if m == 0x8000_0000_0000_0000 {
                        Some(i64::MIN)
                    } else {
                        Some(-(m as i64))
                    }
                } else {
                    None
                }
            },
            None => None,
        }
    } else {
        proof {
            assert(s@.skip(0) =~= s@);
        }
        match digits_capped(s, 0) {
            Some(m) => {
                if m <= 0x7fff_ffff_ffff_ffff {
                    Some(m as i64)
                } else {
                    None
                }
            },
            None => None,
        }
    }
}

/// The decimal digits of `n`, most significant first, with no leading zero.
pub open spec fn digits_of(n: nat) -> Seq<u8>
    decreases n,
{
    if n < 10 {
        seq![(48 + n) as u8]
    } else {
        digits_of(n / 10).push((48 + n % 10) as u8)
    }
}

proof fn lemma_digits_len(n: nat)
    ensures
        digits_of(n).len() >= 1,
        n >= 10 ==> digits_of(n).len() >= 2,
    decreases n,
{
    if n >= 10 {
        lemma_digits_len(n / 10);
    }
}

/// A numeral is made of digits only.
pub proof fn lemma_digits_are_digits(n: nat)
    ensures
        forall|i: int| 0 <= i < digits_of(n).len() ==> is_digit(#[trigger] digits_of(n)[i]),
    decreases n,
{
    lemma_digits_len(n);
    if n >= 10 {
        lemma_digits_are_digits(n / 10);
        let d = (48 + n % 10) as u8;
        assert(d as int == 48 + n % 10);
        assert forall|i: int| 0 <= i < digits_of(n).len() implies is_digit(#[trigger] digits_of(n)[i]) by {
            if i < digits_of(n / 10).len() {
                assert(digits_of(n)[i] == digits_of(n / 10)[i]);
            } else {
                assert(digits_of(n)[i] == d);
            }
        }
    } else {
        let d = (48 + n) as u8;
        assert(d as int == 48 + n);
        assert(digits_of(n) == seq![d]);
    }
}

/// Distinct numbers have distinct numerals.
pub proof fn lemma_digits_injective(a: nat, b: nat)
    requires
        digits_of(a) == digits_of(b),
    ensures
        a == b,
    decreases a,
{
    lemma_digits_len(a);
    lemma_digits_len(b);
    if a >= 10 && b >= 10 {
        assert(digits_of(a).drop_last() =~= digits_of(a / 10));
        assert(digits_of(b).drop_last() =~= digits_of(b / 10));
        lemma_digits_injective(a / 10, b / 10);
        assert(digits_of(a).last() == (48 + a % 10) as u8);
        assert(digits_of(b).last() == (48 + b % 10) as u8);
        assert(((48 + a % 10) as u8) as int == 48 + a % 10);
        assert(((48 + b % 10) as u8) as int == 48 + b % 10);
        assert(a % 10 == b % 10);
        assert(a == 10 * (a / 10) + a % 10);
        assert(b == 10 * (b / 10) + b % 10);
        assert(a == b);
    } else if a < 10 && b < 10 {
        assert(digits_of(a) == seq![(48 + a) as u8]);
        assert(digits_of(b) == seq![(48 + b) as u8]);
        let ca = (48 + a) as u8;
        let cb = (48 + b) as u8;
        assert(digits_of(a)[0] == ca);
        assert(digits_of(b)[0] == cb);
        assert(ca as int == 48 + a);
        assert(cb as int == 48 + b);
    } else {
        assert(digits_of(a).len() != digits_of(b).len());
    }
}

/// The decimal numeral of `i`, with a minus sign when it is negative.
pub open spec fn decimal(i: int) -> Seq<u8> {
    if i < 0 {
        seq![45u8] + digits_of((-i) as nat)
    } else {
        digits_of(i as nat)
    }
}

fn push_digits(n: u64, out: &mut Vec<u8>)
    ensures
        final(out)@ == old(out)@ + digits_of(n as nat),
    decreases n,
{
    if n >= 10 {
        push_digits(n / 10, out);
    }
    out.push((48 + n % 10) as u8);
    proof {
        assert(final(out)@ =~= old(out)@ + digits_of(n as nat));
    }
}

/// Renders a handle or a count as its decimal numeral.
pub fn format_unsigned(n: usize) -> (r: Vec<u8>)
    ensures
        r@ == digits_of(n as nat),
{
    let mut out: Vec<u8> = Vec::new();
    push_digits(n as u64, &mut out);
    proof {
        assert(out@ =~= digits_of(n as nat));
    }
    out
}

/// Renders an integer as its decimal numeral.
pub fn format_integer(i: i64) -> (r: Vec<u8>)
    ensures
        r@ == decimal(i as int),
{
    let mut out: Vec<u8> = Vec::new();
    if i < 0 {
        out.push(45u8);
        let m: u64 = (-(i + 1)) as u64 + 1;
        push_digits(m, &mut out);
        proof {
            assert(out@ =~= seq![45u8] + digits_of((-(i as int)) as nat));
        }
    } else {
        push_digits(i as u64, &mut out);
        proof {
            assert(out@ =~= digits_of(i as nat));
        }
    }
    out
}

} // verus!
