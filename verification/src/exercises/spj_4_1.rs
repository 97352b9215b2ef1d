//! Transform the expression: writes fully parenthesised expressions in
//! reverse Polish notation. Letters are written out, operators wait on a
//! stack until their closing parenthesis. The stack is shared by all the
//! lines.
use vstd::prelude::*;
use crate::exercises::text::{concat, lines, split_lines, trim, trimmed, NEWLINE};

verus! {

/// What one character does to the stack, and what it writes.
pub open spec fn spec_step(stack: Seq<u8>, c: u8) -> (Seq<u8>, Option<u8>) {
    if 0x61 <= c && c <= 0x7A {
        (stack, Some(c))
    } else if c == 0x29 {
        if stack.len() > 0 {
            (stack.drop_last(), Some(stack.last()))
        } else {
            (stack, None)
        }
    } else if c == 0x28 {
        (stack, None)
    } else {
        (stack.push(c), None)
    }
}

/// The stack after the first `n` characters of `line`, and what they wrote.
pub open spec fn spec_line(stack: Seq<u8>, line: Seq<u8>, n: nat) -> (Seq<u8>, Seq<u8>)
    decreases n,
{
    if n == 0 {
        (stack, Seq::empty())
    } else {
        let (st, out) = spec_line(stack, line, (n - 1) as nat);
        let (st2, w) = spec_step(st, line[n - 1]);
        (
            st2,
            match w {
                Some(c) => out.push(c),
                None => out,
            },
        )
    }
}

/// The stack after the first `k` lines, and what each wrote.
pub open spec fn spec_lines(lines: Seq<Seq<u8>>, k: nat) -> (Seq<u8>, Seq<Seq<u8>>)
    decreases k,
{
    if k == 0 {
        (Seq::empty(), Seq::empty())
    } else {
        let (st, outs) = spec_lines(lines, (k - 1) as nat);
        let (st2, out) = spec_line(st, lines[k - 1], lines[k - 1].len());
        (st2, outs.push(out))
    }
}

/// Reads `line` with the operators waiting on `stack`, and gives what it
/// writes.
fn transform_line(stack: &mut Vec<u8>, line: &[u8]) -> (r: Vec<u8>)
    ensures
        (final(stack)@, r@) == spec_line(old(stack)@, line@, line@.len()),
{
    let mut out: Vec<u8> = Vec::new();
    let mut i: usize = 0;
    while i < line.len()
        invariant
            i <= line.len(),
            (stack@, out@) == spec_line(old(stack)@, line@, i as nat),
        decreases line.len() - i,
    {
        let c = line[i];
        if 0x61 <= c && c <= 0x7A {
            out.push(c);
        } else if c == 0x29 {
            if stack.len() > 0 {
                let top = stack.pop();
                match top {
                    Some(t) => out.push(t),
                    None => {},
                }
            }
        } else if c == 0x28 {
        } else {
            stack.push(c);
        }
        i = i + 1;
    }
    out
}

/// What each line of ASCII text writes, in reverse Polish notation.
pub fn solve(lines: &Vec<Vec<u8>>) -> (r: Vec<Vec<u8>>)
    requires
        forall|k: int, i: int|
            0 <= k < lines.len() && 0 <= i < lines[k]@.len() ==> #[trigger] lines[k]@[i] < 0x80,
    ensures
        r@.map_values(|o: Vec<u8>| o@) == spec_lines(
            lines@.map_values(|l: Vec<u8>| l@),
            lines@.len(),
        ).1,
{
    let ghost ls = lines@.map_values(|l: Vec<u8>| l@);
    let mut stack: Vec<u8> = Vec::new();
    let mut outs: Vec<Vec<u8>> = Vec::new();
    let mut k: usize = 0;
    while k < lines.len()
        invariant
            k <= lines.len(),
            ls == lines@.map_values(|l: Vec<u8>| l@),
            (stack@, outs@.map_values(|o: Vec<u8>| o@)) == spec_lines(ls, k as nat),
        decreases lines.len() - k,
    {
        let out = transform_line(&mut stack, lines[k].as_slice());
        let ghost before = outs@.map_values(|o: Vec<u8>| o@);
        outs.push(out);
        assert(outs@.map_values(|o: Vec<u8>| o@) =~= before.push(out@));
        k = k + 1;
    }
    outs
}

/// Whether every line is ASCII text.
pub open spec fn all_ascii(ls: Seq<Seq<u8>>) -> bool {
    forall|k: int, i: int| 0 <= k < ls.len() && 0 <= i < ls[k].len() ==> #[trigger] ls[k][i] < 0x80
}

/// The program's output for `input`: the first line gives the number of
/// expressions and is not read; every further line, trimmed, is one
/// expression, and what it writes goes on a line of its own. `None` for
/// text that is not ASCII, which this program does not read.
pub open spec fn spec_program(input: Seq<u8>) -> Option<Seq<u8>> {
    let ls = lines(input);
    let queries = if ls.len() == 0 {
        ls
    } else {
        ls.drop_first()
    };
    let exprs = queries.map_values(|l: Seq<u8>| trim(l));
    if all_ascii(exprs) {
        Some(
            trim(
                concat(
                    spec_lines(exprs, exprs.len()).1.map_values(|o: Seq<u8>| o.push(NEWLINE)),
                ),
            ),
        )
    } else {
        None
    }
}

/// Transforms the expressions that `input` holds, as the program writes
/// them.
pub fn program(input: &[u8]) -> (r: Option<Vec<u8>>)
    ensures
        match r {
            Some(v) => spec_program(input@) == Some(v@),
            None => spec_program(input@) is None,
        },
{
    let ls = split_lines(input);
    let ghost all = ls@.map_values(|v: Vec<u8>| v@);
    let ghost queries = if all.len() == 0 {
        all
    } else {
        all.drop_first()
    };
    let ghost exprs_spec = queries.map_values(|l: Seq<u8>| trim(l));
    let start: usize = if ls.len() == 0 {
        0
    } else {
        1
    };
    let mut exprs: Vec<Vec<u8>> = Vec::new();
    let mut i: usize = start;
    while i < ls.len()
        invariant
            start <= i <= ls.len(),
            all == ls@.map_values(|v: Vec<u8>| v@),
            all == lines(input@),
            start == (if all.len() == 0 { 0usize } else { 1usize }),
            queries == (if all.len() == 0 { all } else { all.drop_first() }),
            exprs_spec == queries.map_values(|l: Seq<u8>| trim(l)),
            exprs@.map_values(|v: Vec<u8>| v@) == exprs_spec.take(i - start),
        decreases ls.len() - i,
    {
        let t = trimmed(&ls[i]);
        let ghost before = exprs@.map_values(|v: Vec<u8>| v@);
        exprs.push(t);
        assert(exprs_spec.take(i - start + 1) =~= exprs_spec.take(i - start).push(exprs_spec[i - start]));
        assert(exprs@.map_values(|v: Vec<u8>| v@) =~= exprs_spec.take(i - start + 1));
        i = i + 1;
    }
    assert(exprs_spec.take(i - start) =~= exprs_spec);
    let mut k: usize = 0;
    while k < exprs.len()
        invariant
            k <= exprs.len(),
            exprs@.map_values(|v: Vec<u8>| v@) == exprs_spec,
            exprs_spec.len() == exprs.len(),
            all == lines(input@),
            queries == (if all.len() == 0 { all } else { all.drop_first() }),
            exprs_spec == queries.map_values(|l: Seq<u8>| trim(l)),
            forall|k2: int, j: int| 0 <= k2 < k && 0 <= j < exprs_spec[k2].len() ==> #[trigger] exprs_spec[k2][j] < 0x80,
        decreases exprs.len() - k,
    {
        let e = &exprs[k];
        let mut j: usize = 0;
        while j < e.len()
            invariant
                k < exprs.len(),
                exprs_spec.len() == exprs.len(),
                all == lines(input@),
                queries == (if all.len() == 0 { all } else { all.drop_first() }),
                exprs_spec == queries.map_values(|l: Seq<u8>| trim(l)),
                e@ == exprs_spec[k as int],
                j <= e.len(),
                forall|j2: int| 0 <= j2 < j ==> #[trigger] exprs_spec[k as int][j2] < 0x80,
            decreases e.len() - j,
        {
            if e[j] >= 0x80 {
                assert(exprs_spec[k as int][j as int] >= 0x80);
                assert(!all_ascii(exprs_spec));
                return None;
            }
            j = j + 1;
        }
        k = k + 1;
    }
    assert(all_ascii(exprs_spec));
    assert forall|k2: int, j: int| 0 <= k2 < exprs.len() && 0 <= j < exprs[k2]@.len() implies #[trigger] exprs[k2]@[j]
        < 0x80 by {
        assert(exprs[k2]@ == exprs_spec[k2]);
        assert(exprs_spec[k2][j] < 0x80);
    }
    let outs = solve(&exprs);
    let ghost outs_spec = outs@.map_values(|o: Vec<u8>| o@);
    let ghost pieces = outs_spec.map_values(|o: Seq<u8>| o.push(NEWLINE));
    let mut out: Vec<u8> = Vec::new();
    let mut m: usize = 0;
    assert(pieces.take(0) =~= Seq::<Seq<u8>>::empty());
    while m < outs.len()
        invariant
            m <= outs.len(),
            outs_spec == outs@.map_values(|o: Vec<u8>| o@),
            pieces == outs_spec.map_values(|o: Seq<u8>| o.push(NEWLINE)),
            out@ == concat(pieces.take(m as int)),
        decreases outs.len() - m,
    {
        let o = &outs[m];
        let ghost before = out@;
        let mut j: usize = 0;
        while j < o.len()
            invariant
                m < outs.len(),
                o@ == outs_spec[m as int],
                j <= o.len(),
                out@ == before + o@.take(j as int),
            decreases o.len() - j,
        {
            out.push(o[j]);
            j = j + 1;
            assert(out@ =~= before + o@.take(j as int));
        }
        out.push(NEWLINE);
        assert(o@.take(o.len() as int) =~= o@);
        assert(pieces.take(m + 1).drop_last() =~= pieces.take(m as int));
        assert(out@ =~= concat(pieces.take(m + 1)));
        m = m + 1;
    }
    assert(pieces.take(m as int) =~= pieces);
    Some(trimmed(&out))
}

} // verus!
