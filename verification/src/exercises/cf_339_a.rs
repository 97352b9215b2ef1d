//! Helpful maths: rewrites a sum so that its summands come in increasing
//! order.
use vstd::prelude::*;
use crate::exercises::cf_71_a::{decimal, spec_decimal};
use crate::exercises::text::{lines, parse_fields, spec_parse_all, split_lines, split_on, trim, trimmed};

verus! {

/// How many times `x` occurs in `s`.
pub open spec fn count(s: Seq<u8>, x: u8) -> nat
    decreases s.len(),
{
    if s.len() == 0 {
        0
    } else {
        count(s.drop_last(), x) + if s.last() == x {
            1nat
        } else {
            0nat
        }
    }
}

/// In increasing order, ties allowed.
pub open spec fn sorted(s: Seq<u8>) -> bool {
    forall|i: int, j: int| 0 <= i <= j < s.len() ==> s[i] <= s[j]
}

/// The summands written out, separated by `+`.
pub open spec fn spec_sum_text(s: Seq<u8>) -> Seq<u8>
    decreases s.len(),
{
    if s.len() == 0 {
        Seq::empty()
    } else if s.len() == 1 {
        spec_decimal(s[0] as nat)
    } else {
        spec_sum_text(s.drop_last()) + seq![0x2Bu8] + spec_decimal(s.last() as nat)
    }
}

/// The summands in increasing order: each value as many times as it
/// occurs.
pub fn sort_summands(s: &Vec<u8>) -> (r: Vec<u8>)
    ensures
        sorted(r@),
        forall|x: u8| count(r@, x) == count(s@, x),
{
    let mut counts: Vec<usize> = Vec::new();
    let mut v: usize = 0;
    while v < 256
        invariant
            v <= 256,
            counts@.len() == v,
            forall|w: int| 0 <= w < v ==> counts@[w] == 0,
        decreases 256 - v,
    {
        counts.push(0);
        v = v + 1;
    }
    let mut i: usize = 0;
    while i < s.len()
        invariant
            i <= s.len(),
            counts@.len() == 256,
            forall|w: u8| #[trigger] counts@[w as int] == count(s@.take(i as int), w),
            forall|w: u8| #[trigger] counts@[w as int] <= i,
        decreases s.len() - i,
    {
        let x = s[i];
        proof {
            assert(s@.take(i + 1).drop_last() =~= s@.take(i as int));
        }
        counts.set(x as usize, counts[x as usize] + 1);
        i = i + 1;
        proof {
            assert forall|w: u8| #[trigger] counts@[w as int] == count(s@.take(i as int), w) by {
                assert(s@.take(i as int).drop_last() =~= s@.take(i - 1));
            }
        }
    }
    assert(s@.take(s.len() as int) =~= s@);
    let mut out: Vec<u8> = Vec::new();
    let mut v: usize = 0;
    while v < 256
        invariant
            v <= 256,
            counts@.len() == 256,
            forall|w: u8| #[trigger] counts@[w as int] == count(s@, w),
            sorted(out@),
            forall|k: int| 0 <= k < out@.len() ==> (#[trigger] out@[k]) < v,
            forall|w: u8| w < v ==> count(out@, w) == count(s@, w),
            forall|w: u8| w >= v ==> count(out@, w) == 0,
        decreases 256 - v,
    {
        let n = counts[v];
        let mut j: usize = 0;
        let ghost start = out@;
        while j < n
            invariant
                j <= n,
                v < 256,
                sorted(out@),
                out@.len() == start.len() + j,
                forall|k: int| 0 <= k < start.len() ==> out@[k] == start[k],
                forall|k: int| start.len() <= k < out@.len() ==> out@[k] == v as u8,
                forall|k: int| 0 <= k < start.len() ==> (#[trigger] start[k]) < v,
                forall|w: u8| w != v ==> count(out@, w) == count(start, w),
                count(out@, v as u8) == count(start, v as u8) + j,
            decreases n - j,
        {
            let ghost prev = out@;
            out.push(v as u8);
            proof {
                assert(out@.drop_last() =~= prev);
            }
            j = j + 1;
        }
        proof {
            assert forall|k: int| 0 <= k < out@.len() implies (#[trigger] out@[k]) < v + 1 by {
                if k < start.len() {
                    assert(start[k] < v);
                }
            }
            assert forall|w: u8| w >= v + 1 implies count(out@, w) == 0 by {
                assert(count(out@, w) == count(start, w));
            }
            assert forall|w: u8| w < v + 1 implies count(out@, w) == count(s@, w) by {
                if w < v {
                    assert(count(out@, w) == count(start, w));
                } else {
                    assert(count(start, w) == 0);
                }
            }
        }
        v = v + 1;
    }
    out
}

/// The sum with its summands in increasing order.
pub fn solve(summands: &Vec<u8>) -> (r: Vec<u8>)
    ensures
        exists|t: Seq<u8>| sorted(t) && (forall|x: u8| count(t, x) == count(summands@, x)) && r@
            == spec_sum_text(t),
{
    let sorted_summands = sort_summands(summands);
    let mut out: Vec<u8> = Vec::new();
    let mut i: usize = 0;
    while i < sorted_summands.len()
        invariant
            i <= sorted_summands.len(),
            out@ == spec_sum_text(sorted_summands@.take(i as int)),
        decreases sorted_summands.len() - i,
    {
        let digits = decimal(sorted_summands[i] as usize);
        let ghost before = out@;
        if i > 0 {
            out.push(0x2Bu8);
        }
        let mut j: usize = 0;
        let ghost mid = out@;
        while j < digits.len()
            invariant
                j <= digits.len(),
                out@ == mid + digits@.take(j as int),
            decreases digits.len() - j,
        {
            out.push(digits[j]);
            assert(out@ =~= mid + digits@.take(j + 1));
            j = j + 1;
        }
        assert(digits@.take(digits.len() as int) =~= digits@);
        assert(sorted_summands@.take(i + 1).drop_last() =~= sorted_summands@.take(i as int));
        if i == 0 {
            assert(out@ =~= spec_sum_text(sorted_summands@.take(1)));
        } else {
            assert(out@ =~= spec_sum_text(sorted_summands@.take(i + 1)));
        }
        i = i + 1;
    }
    assert(sorted_summands@.take(sorted_summands.len() as int) =~= sorted_summands@);
    out
}

pub const PLUS: u8 = 0x2B;

/// The summands that the first line of `input` writes, separated by plus
/// signs; `None` where the program stops: no line, or a summand that is no
/// number from 0 to 255.
pub open spec fn spec_summands(input: Seq<u8>) -> Option<Seq<u8>> {
    let ls = lines(input);
    if ls.len() == 0 {
        None
    } else {
        match spec_parse_all(split_on(trim(ls[0]), PLUS)) {
            Some(vs) => if forall|i: int| 0 <= i < vs.len() ==> #[trigger] vs[i] <= 255 {
                Some(vs.map_values(|v: u32| v as u8))
            } else {
                None
            },
            None => None,
        }
    }
}

/// Rewrites the sum that `input` holds, as the program writes it.
pub fn program(input: &[u8]) -> (r: Option<Vec<u8>>)
    ensures
        match (r, spec_summands(input@)) {
            (Some(v), Some(xs)) => exists|t: Seq<u8>|
                sorted(t) && (forall|x: u8| count(t, x) == count(xs, x)) && v@ == trim(spec_sum_text(t)),
            (None, None) => true,
            _ => false,
        },
{
    let ls = split_lines(input);
    if ls.len() == 0 {
        return None;
    }
    let vs = match parse_fields(&ls[0], PLUS) {
        Some(vs) => vs,
        None => {
            return None;
        },
    };
    let ghost ll = lines(input@);
    assert(ll[0] == ls[0]@);
    let mut xs: Vec<u8> = Vec::new();
    let mut i: usize = 0;
    while i < vs.len()
        invariant
            i <= vs.len(),
            ll == lines(input@),
            ll.len() >= 1,
            spec_parse_all(split_on(trim(ll[0]), PLUS)) == Some(vs@),
            xs@ == vs@.take(i as int).map_values(|v: u32| v as u8),
            forall|j: int| 0 <= j < i ==> #[trigger] vs@[j] <= 255,
        decreases vs.len() - i,
    {
        let v = vs[i];
        if v > 255 {
            assert(!(forall|j: int| 0 <= j < vs@.len() ==> #[trigger] vs@[j] <= 255));
            return None;
        }
        xs.push(v as u8);
        i = i + 1;
        assert(xs@ =~= vs@.take(i as int).map_values(|v: u32| v as u8));
    }
    assert(vs@.take(i as int) =~= vs@);
    assert(spec_summands(input@) == Some(xs@));
    let out = solve(&xs);
    let r = trimmed(&out);
    assert(exists|t: Seq<u8>|
        sorted(t) && (forall|x: u8| count(t, x) == count(xs@, x)) && r@ == trim(spec_sum_text(t)));
    Some(r)
}

} // verus!
