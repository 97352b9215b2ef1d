//! Domino piling: how many 2 by 1 dominoes fit on an `m` by `n` board,
//! counted ring by ring from the border inwards.
use vstd::prelude::*;
use crate::exercises::cf_71_a::{decimal, spec_decimal};
use crate::exercises::text::{lines, parse_fields_i32, spec_parse_all_i32, split_lines, split_on, trim, trimmed, SPACE};

verus! {

/// The number of dominoes that fit: half the squares, rounded down.
pub open spec fn spec_dominoes(m: int, n: int) -> int {
    m * n / 2
}

/// Dominoes on an `m` by `n` board: each ring around the board holds
/// `m + n - 2` of them; what is left once a side is down to one square
/// holds half the other side.
pub fn solve(m: i32, n: i32) -> (r: i32)
    requires
        m >= 1,
        n >= 1,
        m * n / 2 <= i32::MAX,
    ensures
        r == spec_dominoes(m as int, n as int),
{
    let ghost m0 = m as int;
    let ghost n0 = n as int;
    let mut m = m;
    let mut n = n;
    let mut res: i32 = 0;
    while m > 1 && n > 1
        invariant
            0 <= m <= m0,
            0 <= n <= n0,
            m0 - m == n0 - n,
            m0 * n0 / 2 <= i32::MAX,
            m0 - m >= 0,
            (m0 - m) % 2 == 0,
            0 <= res,
            res + m * n / 2 == m0 * n0 / 2,
        decreases m,
    {
        proof {
            assert(m * n == (m - 2) * (n - 2) + 2 * (m + n - 2)) by (nonlinear_arith);
            assert(m * n / 2 == (m - 2) * (n - 2) / 2 + (m + n - 2)) by (nonlinear_arith)
                requires
                    m * n == (m - 2) * (n - 2) + 2 * (m + n - 2),
            {
            }
            assert((m - 2) * (n - 2) / 2 >= 0) by (nonlinear_arith)
                requires
                    m >= 2,
                    n >= 2,
            {
            }
        }
        res = res + ((m - 2) + n);
        m = m - 2;
        n = n - 2;
    }
    proof {
        assert(m * n / 2 >= 0) by (nonlinear_arith)
            requires
                m >= 0,
                n >= 0,
        {
        }
    }
    if m > 0 && n > 0 {
        let longer = if m > n { m } else { n };
        proof {
            assert(m == 1 || n == 1);
            if m == 1 {
                assert(m * n / 2 == longer / 2);
            } else {
                assert(m * n / 2 == longer / 2) by (nonlinear_arith)
                    requires
                        n == 1,
                        longer == (if m > n { m } else { n }),
                        m >= 1,
                {
                }
            }
        }
        res = res + longer / 2;
    } else {
        proof {
            assert(m * n / 2 == 0) by (nonlinear_arith)
                requires
                    m == 0 || n == 0,
            {
            }
        }
    }
    res
}

/// The program's output for `input`: its first line holds the board's
/// sides, separated by single spaces. A board with a side below one holds
/// no domino. `None` where the program stops: no line, a field that is no
/// number, fewer than two of them, or a count beyond `i32::MAX`.
pub open spec fn spec_program(input: Seq<u8>) -> Option<Seq<u8>> {
    let ls = lines(input);
    if ls.len() == 0 {
        None
    } else {
        match spec_parse_all_i32(split_on(trim(ls[0]), SPACE)) {
            Some(vs) => if vs.len() < 2 {
                None
            } else if vs[0] < 1 || vs[1] < 1 {
                Some(trim(spec_decimal(0)))
            } else if spec_dominoes(vs[0] as int, vs[1] as int) <= i32::MAX {
                Some(trim(spec_decimal(spec_dominoes(vs[0] as int, vs[1] as int) as nat)))
            } else {
                None
            },
            None => None,
        }
    }
}

/// Counts the dominoes for the board that `input` describes, as the
/// program writes the count.
pub fn program(input: &[u8]) -> (r: Option<Vec<u8>>)
    ensures
        match r {
            Some(v) => spec_program(input@) == Some(v@),
            None => spec_program(input@) is None,
        },
{
    let ls = split_lines(input);
    if ls.len() == 0 {
        return None;
    }
    let vs = match parse_fields_i32(&ls[0], SPACE) {
        Some(vs) => vs,
        None => {
            return None;
        },
    };
    if vs.len() < 2 {
        return None;
    }
    let m = vs[0];
    let n = vs[1];
    if m < 1 || n < 1 {
        return Some(trimmed(&decimal(0)));
    }
    assert(m as int * n as int <= 0x7FFF_FFFF * 0x7FFF_FFFF) by (nonlinear_arith)
        requires
            1 <= m <= 0x7FFF_FFFF,
            1 <= n <= 0x7FFF_FFFF,
    {
    }
    let product: i64 = m as i64 * n as i64;
    if product / 2 > 0x7FFF_FFFF {
        return None;
    }
    let r = solve(m, n);
    Some(trimmed(&decimal(r as usize)))
}

} // verus!
