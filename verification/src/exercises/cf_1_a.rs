//! Theatre square: how many `a` by `a` flagstones cover an `n` by `m`
//! square.
use vstd::prelude::*;
use vstd::arithmetic::div_mod::{lemma_fundamental_div_mod, lemma_fundamental_div_mod_converse, lemma_div_plus_one};
use crate::exercises::cf_71_a::spec_decimal;
use crate::exercises::text::{parse_i32, spec_parse_i32, split, split_on, trim, trimmed, SPACE};

verus! {

/// `x / a` rounded up, for positive `x` and `a`.
pub open spec fn ceil_div(x: int, a: int) -> int {
    (x + a - 1) / a
}

/// The number of flagstones: as many rows as `n` takes and as many columns
/// as `m` takes.
pub open spec fn spec_flagstones(n: int, m: int, a: int) -> int {
    ceil_div(n, a) * ceil_div(m, a)
}

/// Rounding up a quotient adds one exactly when the remainder is not zero.
proof fn lemma_ceil_div(x: int, a: int)
    requires
        x >= 1,
        a >= 1,
    ensures
        ceil_div(x, a) == (if x % a > 0 { x / a + 1 } else { x / a }),
        1 <= ceil_div(x, a) <= x,
{
    lemma_fundamental_div_mod(x, a);
    let q = x / a;
    let rem = x % a;
    assert(q >= 0 && (rem > 0 ==> q + 1 <= x) && (rem == 0 ==> 1 <= q <= x)) by (nonlinear_arith)
        requires
            x == a * q + rem,
            0 <= rem < a,
            x >= 1,
            a >= 1,
    {
    }
    if rem > 0 {
        assert(x + a - 1 == (q + 1) * a + (rem - 1)) by (nonlinear_arith)
            requires
                x == a * q + rem,
        {
        }
        lemma_fundamental_div_mod_converse(x + a - 1, a, q + 1, rem - 1);
    } else {
        assert(x + a - 1 == q * a + (a - 1)) by (nonlinear_arith)
            requires
                x == a * q + rem,
                rem == 0,
        {
        }
        lemma_fundamental_div_mod_converse(x + a - 1, a, q, a - 1);
    }
}

/// `x / a` rounded up, for `x >= 1` and `a >= 1`, computed as a quotient
/// and a remainder.
fn ceil_div_i32(x: i32, a: i32) -> (r: i32)
    requires
        x >= 1,
        a >= 1,
    ensures
        r == ceil_div(x as int, a as int),
        1 <= r <= x,
{
    proof {
        lemma_ceil_div(x as int, a as int);
    }
    let q = x / a;
    if x % a > 0 {
        q + 1
    } else {
        q
    }
}

/// The number of `a` by `a` flagstones that cover an `n` by `m` square.
/// The rows are counted once; the columns after the first are added per
/// row, a count that is zero when `m` is below `a`.
pub fn solve(n: i32, m: i32, a: i32) -> (r: i64)
    requires
        n >= 1,
        m >= 1,
        a >= 1,
    ensures
        r == spec_flagstones(n as int, m as int, a as int),
{
    let rows = ceil_div_i32(n, a);
    let mut res: i64 = rows as i64;
    let extra: i32 = if m > a {
        ceil_div_i32(m - a, a)
    } else {
        0
    };
    proof {
        if m > a {
            assert(ceil_div(m - a, a as int) + 1 == ceil_div(m as int, a as int)) by {
                assert((m - a + a - 1) + a == m + a - 1);
                lemma_div_plus_one(m - 1, a as int);
            }
        } else {
            assert(ceil_div(m as int, a as int) == 1) by (nonlinear_arith)
                requires
                    1 <= m <= a,
            {
                assert(a <= m + a - 1 < 2 * a);
            }
        }
        assert(rows * extra <= 0x7FFF_FFFF * 0x7FFF_FFFF) by (nonlinear_arith)
            requires
                0 <= rows <= 0x7FFF_FFFF,
                0 <= extra <= 0x7FFF_FFFF,
        {
        }
        assert(rows + rows * extra == rows * (extra + 1)) by (nonlinear_arith);
    }
    res = res + res * (extra as i64);
    res
}

/// The decimal digits of `n`.
pub fn decimal_u64(n: u64) -> (r: Vec<u8>)
    ensures
        r@ == spec_decimal(n as nat),
    decreases n,
{
    if n < 10 {
        vec![0x30u8 + n as u8]
    } else {
        let mut r = decimal_u64(n / 10);
        r.push(0x30u8 + (n % 10) as u8);
        r
    }
}

/// The program's output for `input`: the whole input, trimmed, holds `n`,
/// `m` and `a` separated by single spaces; what follows them is not read.
/// `None` where the program stops (fewer than three fields, one of them no
/// number, `a` zero) and for sides below one, outside the problem's bounds,
/// which this program does not compute.
pub open spec fn spec_program(input: Seq<u8>) -> Option<Seq<u8>> {
    let fs = split_on(trim(input), SPACE);
    if fs.len() < 3 {
        None
    } else {
        match (spec_parse_i32(fs[0]), spec_parse_i32(fs[1]), spec_parse_i32(fs[2])) {
            (Some(n), Some(m), Some(a)) => if n >= 1 && m >= 1 && a >= 1 {
                Some(spec_decimal(spec_flagstones(n as int, m as int, a as int) as nat))
            } else {
                None
            },
            _ => None,
        }
    }
}

/// Counts the flagstones for the square that `input` describes, as the
/// program writes the count.
pub fn program(input: &[u8]) -> (r: Option<Vec<u8>>)
    ensures
        match r {
            Some(v) => spec_program(input@) == Some(v@),
            None => spec_program(input@) is None,
        },
{
    let t = trimmed(input);
    let fields = split(&t, SPACE);
    let ghost fs = fields@.map_values(|v: Vec<u8>| v@);
    if fields.len() < 3 {
        return None;
    }
    assert(fields[0]@ == fs[0] && fields[1]@ == fs[1] && fields[2]@ == fs[2]);
    let n = parse_i32(&fields[0]);
    let m = parse_i32(&fields[1]);
    let a = parse_i32(&fields[2]);
    match (n, m, a) {
        (Some(n), Some(m), Some(a)) => {
            if n >= 1 && m >= 1 && a >= 1 {
                let r = solve(n, m, a);
                proof {
                    assert(ceil_div(n as int, a as int) >= 0 && ceil_div(m as int, a as int) >= 0)
                        by (nonlinear_arith)
                        requires
                            n >= 1,
                            m >= 1,
                            a >= 1,
                    {
                    }
                    assert(spec_flagstones(n as int, m as int, a as int) >= 0) by (nonlinear_arith)
                        requires
                            ceil_div(n as int, a as int) >= 0,
                            ceil_div(m as int, a as int) >= 0,
                    {
                    }
                }
                Some(decimal_u64(r as u64))
            } else {
                None
            }
        },
        _ => None,
    }
}

} // verus!
