//! Factorials: one line per number, its factorial.
use vstd::prelude::*;
use crate::exercises::cf_71_a::{decimal, spec_decimal};
use crate::exercises::text::{lines, parse_u32, spec_parse_u32, split_lines, trim, trimmed, NEWLINE};

verus! {

pub open spec fn spec_factorial(n: nat) -> nat
    decreases n,
{
    if n <= 1 {
        1
    } else {
        n * spec_factorial((n - 1) as nat)
    }
}

/// The factorial grows with its argument.
proof fn lemma_factorial_monotone(m: nat, n: nat)
    requires
        m <= n,
    ensures
        1 <= spec_factorial(m) <= spec_factorial(n),
    decreases n,
{
    if n > m {
        lemma_factorial_monotone(m, (n - 1) as nat);
        assert(spec_factorial((n - 1) as nat) <= n * spec_factorial((n - 1) as nat)) by (nonlinear_arith)
            requires
                n >= 1,
                spec_factorial((n - 1) as nat) >= 1,
        {
        }
    } else if n > 1 {
        lemma_factorial_monotone(0, (n - 1) as nat);
        assert(1 <= n * spec_factorial((n - 1) as nat)) by (nonlinear_arith)
            requires
                n >= 1,
                spec_factorial((n - 1) as nat) >= 1,
        {
        }
    }
}

/// The factorial of `n`, the product of the numbers from 2 to `n`.
pub fn factorial(n: u32) -> (r: u32)
    requires
        spec_factorial(n as nat) <= u32::MAX,
    ensures
        r == spec_factorial(n as nat),
{
    let mut acc: u32 = 1;
    let mut y: u32 = 2;
    while y <= n
        invariant
            2 <= y,
            n >= 2 ==> y <= n,
            n < 2 ==> y == 2,
            acc == spec_factorial((y - 1) as nat),
            spec_factorial(n as nat) <= u32::MAX,
        decreases n + 1 - y,
    {
        proof {
            lemma_factorial_monotone(y as nat, n as nat);
            assert(spec_factorial(y as nat) == y * spec_factorial((y - 1) as nat));
            assert(acc * y == y * acc) by (nonlinear_arith);
        }
        acc = acc * y;
        if y == n {
            return acc;
        }
        y = y + 1;
    }
    acc
}

/// The factorial of each number.
pub fn solve(ns: &Vec<u32>) -> (r: Vec<u32>)
    requires
        forall|i: int| 0 <= i < ns.len() ==> spec_factorial(#[trigger] ns[i] as nat) <= u32::MAX,
    ensures
        r@.len() == ns@.len(),
        forall|i: int| 0 <= i < ns.len() ==> r@[i] == spec_factorial(#[trigger] ns[i] as nat),
{
    let mut out: Vec<u32> = Vec::new();
    let mut i: usize = 0;
    while i < ns.len()
        invariant
            i <= ns.len(),
            forall|j: int| 0 <= j < ns.len() ==> spec_factorial(#[trigger] ns[j] as nat) <= u32::MAX,
            out@.len() == i,
            forall|j: int| 0 <= j < i ==> out@[j] == spec_factorial(#[trigger] ns[j] as nat),
        decreases ns.len() - i,
    {
        out.push(factorial(ns[i]));
        i = i + 1;
    }
    out
}

/// The factorial of `n`, or `None` when it does not fit a `u32`.
pub fn factorial_checked(n: u32) -> (r: Option<u32>)
    ensures
        match r {
            Some(f) => f == spec_factorial(n as nat),
            None => spec_factorial(n as nat) > u32::MAX,
        },
{
    let mut acc: u32 = 1;
    let mut y: u32 = 2;
    while y <= n
        invariant
            2 <= y,
            n >= 2 ==> y <= n,
            n < 2 ==> y == 2,
            acc == spec_factorial((y - 1) as nat),
        decreases n + 1 - y,
    {
        assert(spec_factorial(y as nat) == y * spec_factorial((y - 1) as nat));
        assert(acc * y == y * acc) by (nonlinear_arith);
        match acc.checked_mul(y) {
            None => {
                proof {
                    lemma_factorial_monotone(y as nat, n as nat);
                }
                return None;
            },
            Some(next) => {
                acc = next;
            },
        }
        if y == n {
            return Some(acc);
        }
        y = y + 1;
    }
    Some(acc)
}

/// The number that a line of input asks about: the whole line, trimmed.
pub open spec fn spec_line_number(line: Seq<u8>) -> Option<u32> {
    spec_parse_u32(trim(line))
}

/// The factorials that `queries` ask for, one per line; `None` when a line
/// holds no number or its factorial does not fit a `u32`.
pub open spec fn spec_answers(queries: Seq<Seq<u8>>) -> Option<Seq<u8>>
    decreases queries.len(),
{
    if queries.len() == 0 {
        Some(Seq::empty())
    } else {
        match (spec_answers(queries.drop_last()), spec_line_number(queries.last())) {
            (Some(t), Some(n)) => if spec_factorial(n as nat) <= u32::MAX {
                Some(t + spec_decimal(spec_factorial(n as nat)).push(NEWLINE))
            } else {
                None
            },
            _ => None,
        }
    }
}

/// The program's output for `input`: the first line gives the number of
/// questions and is not read; every further line asks for one factorial.
pub open spec fn spec_program(input: Seq<u8>) -> Option<Seq<u8>> {
    let ls = lines(input);
    let queries = if ls.len() == 0 {
        ls
    } else {
        ls.drop_first()
    };
    match spec_answers(queries) {
        Some(t) => Some(trim(t.push(NEWLINE))),
        None => None,
    }
}

proof fn lemma_no_answer_extends(q: Seq<Seq<u8>>, k: int)
    requires
        0 <= k <= q.len(),
        spec_answers(q.take(k)) is None,
    ensures
        spec_answers(q) is None,
    decreases q.len() - k,
{
    if k < q.len() {
        assert(q.take(k + 1).drop_last() =~= q.take(k));
        lemma_no_answer_extends(q, k + 1);
    } else {
        assert(q.take(k) =~= q);
    }
}

/// Answers the questions that `input` asks, as the program writes them.
pub fn program(input: &[u8]) -> (r: Option<Vec<u8>>)
    ensures
        match r {
            Some(v) => spec_program(input@) == Some(v@),
            None => spec_program(input@) is None,
        },
{
    let ls = split_lines(input);
    let ghost all = ls@.map_values(|v: Vec<u8>| v@);
    let ghost queries = if all.len() == 0 {
        all
    } else {
        all.drop_first()
    };
    let start: usize = if ls.len() == 0 {
        0
    } else {
        1
    };
    let mut out: Vec<u8> = Vec::new();
    let mut i: usize = start;
    assert(queries.take(0) =~= Seq::<Seq<u8>>::empty());
    while i < ls.len()
        invariant
            start <= i <= ls.len(),
            all == ls@.map_values(|v: Vec<u8>| v@),
            all == lines(input@),
            start == (if all.len() == 0 { 0usize } else { 1usize }),
            queries == (if all.len() == 0 { all } else { all.drop_first() }),
            spec_answers(queries.take(i - start)) == Some(out@),
        decreases ls.len() - i,
    {
        let ghost q = queries.take(i - start + 1);
        assert(q.drop_last() =~= queries.take(i - start));
        assert(q.last() == ls@[i as int]@);
        let ghost before = out@;
        let t = trimmed(&ls[i]);
        let f = match parse_u32(&t) {
            None => None,
            Some(n) => factorial_checked(n),
        };
        match f {
            None => {
                proof {
                    assert(spec_answers(q) is None);
                    lemma_no_answer_extends(queries, i - start + 1);
                }
                return None;
            },
            Some(v) => {
                let d = decimal(v as usize);
                let mut k: usize = 0;
                while k < d.len()
                    invariant
                        k <= d.len(),
                        out@ == before + d@.take(k as int),
                    decreases d.len() - k,
                {
                    out.push(d[k]);
                    k = k + 1;
                    assert(out@ =~= before + d@.take(k as int));
                }
                out.push(NEWLINE);
                assert(d@.take(d.len() as int) =~= d@);
                assert(out@ =~= before + spec_decimal(v as nat).push(NEWLINE));
            },
        }
        i = i + 1;
    }
    assert(queries.take(i - start) =~= queries);
    out.push(NEWLINE);
    Some(trimmed(&out))
}

} // verus!
