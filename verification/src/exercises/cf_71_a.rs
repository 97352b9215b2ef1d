//! Way too long words: a word of more than ten letters is written as its
//! first letter, the number of letters in between, and its last letter.
use vstd::prelude::*;
use crate::exercises::text::{concat, lines, parse_i32, spec_parse_i32, split_lines, trim, trimmed};

verus! {

/// The decimal digits of `n`, most significant first.
pub open spec fn spec_decimal(n: nat) -> Seq<u8>
    decreases n,
{
    if n < 10 {
        seq![(0x30 + n) as u8]
    } else {
        spec_decimal(n / 10).push((0x30 + n % 10) as u8)
    }
}

/// A word as it is written: itself up to ten letters, abbreviated beyond.
pub open spec fn spec_abbreviate(w: Seq<u8>) -> Seq<u8> {
    if w.len() <= 10 {
        w
    } else {
        seq![w[0]] + spec_decimal((w.len() - 2) as nat) + seq![w[w.len() - 1]]
    }
}

/// The words as written, one per line, the lines separated by a carriage
/// return and a line feed.
pub open spec fn spec_lines(ws: Seq<Seq<u8>>) -> Seq<u8>
    decreases ws.len(),
{
    if ws.len() == 0 {
        Seq::empty()
    } else if ws.len() == 1 {
        spec_abbreviate(ws[0])
    } else {
        spec_lines(ws.drop_last()) + seq![0x0Du8, 0x0Au8] + spec_abbreviate(ws.last())
    }
}

/// The decimal digits of `n`.
pub fn decimal(n: usize) -> (r: Vec<u8>)
    ensures
        r@ == spec_decimal(n as nat),
    decreases n,
{
    if n < 10 {
        vec![0x30u8 + n as u8]
    } else {
        let mut r = decimal(n / 10);
        r.push(0x30u8 + (n % 10) as u8);
        r
    }
}

/// A word as it is written.
pub fn abbreviate(w: &[u8]) -> (r: Vec<u8>)
    ensures
        r@ == spec_abbreviate(w@),
{
    let mut r: Vec<u8> = Vec::new();
    if w.len() <= 10 {
        let mut i: usize = 0;
        while i < w.len()
            invariant
                i <= w.len(),
                r@ == w@.take(i as int),
            decreases w.len() - i,
        {
            r.push(w[i]);
            assert(r@ =~= w@.take(i + 1));
            i = i + 1;
        }
        assert(w@.take(w.len() as int) =~= w@);
    } else {
        r.push(w[0]);
        let digits = decimal(w.len() - 2);
        let mut i: usize = 0;
        while i < digits.len()
            invariant
                i <= digits.len(),
                r@ == seq![w@[0]] + digits@.take(i as int),
            decreases digits.len() - i,
        {
            r.push(digits[i]);
            assert(r@ =~= seq![w@[0]] + digits@.take(i + 1));
            i = i + 1;
        }
        assert(digits@.take(digits.len() as int) =~= digits@);
        r.push(w[w.len() - 1]);
        assert(r@ =~= spec_abbreviate(w@));
    }
    r
}

/// The words as written, one per line. The words are the input's lines
/// with the white space at their ends cut, none of them empty.
pub fn solve(words: &Vec<Vec<u8>>) -> (r: Vec<u8>)
    requires
        forall|i: int| 0 <= i < words.len() ==> (#[trigger] words[i])@.len() > 0,
    ensures
        r@ == spec_lines(words@.map_values(|w: Vec<u8>| w@)),
{
    let ghost ws = words@.map_values(|w: Vec<u8>| w@);
    let mut out: Vec<u8> = Vec::new();
    let mut i: usize = 0;
    while i < words.len()
        invariant
            i <= words.len(),
            ws == words@.map_values(|w: Vec<u8>| w@),
            out@ == spec_lines(ws.take(i as int)),
        decreases words.len() - i,
    {
        let a = abbreviate(words[i].as_slice());
        if i > 0 {
            out.push(0x0Du8);
            out.push(0x0Au8);
        }
        let mut j: usize = 0;
        let ghost before = out@;
        while j < a.len()
            invariant
                j <= a.len(),
                out@ == before + a@.take(j as int),
            decreases a.len() - j,
        {
            out.push(a[j]);
            assert(out@ =~= before + a@.take(j + 1));
            j = j + 1;
        }
        assert(a@.take(a.len() as int) =~= a@);
        assert(ws.take(i + 1).drop_last() =~= ws.take(i as int));
        assert(ws.take(i + 1).last() == ws[i as int]);
        if i == 0 {
            assert(out@ =~= spec_lines(ws.take(1)));
        } else {
            assert(out@ =~= spec_lines(ws.take(i + 1)));
        }
        i = i + 1;
    }
    assert(ws.take(words.len() as int) =~= ws);
    out
}

/// Whether every line is ASCII text.
pub open spec fn all_ascii(ls: Seq<Seq<u8>>) -> bool {
    forall|k: int, i: int| 0 <= k < ls.len() && 0 <= i < ls[k].len() ==> #[trigger] ls[k][i] < 0x80
}

/// The program's output for `input`: the first line gives the number `n`
/// of words, each further line one word, trimmed; each of the first `n`
/// words is written as abbreviated, followed by a carriage return and a
/// line feed. `None` where the program stops: no first line, a count that
/// is no number, fewer words than the count, and for words that are not
/// ASCII, which this program does not read.
pub open spec fn spec_program(input: Seq<u8>) -> Option<Seq<u8>> {
    let ls = lines(input);
    if ls.len() == 0 {
        None
    } else {
        match spec_parse_i32(trim(ls[0])) {
            None => None,
            Some(n) => {
                let k: int = if n < 0 { 0 } else { n as int };
                if ls.len() < k + 1 {
                    None
                } else {
                    let words = ls.subrange(1, k + 1).map_values(|l: Seq<u8>| trim(l));
                    if all_ascii(words) {
                        Some(
                            trim(
                                concat(
                                    words.map_values(
                                        |w: Seq<u8>| spec_abbreviate(w) + seq![0x0Du8, 0x0Au8],
                                    ),
                                ),
                            ),
                        )
                    } else {
                        None
                    }
                }
            },
        }
    }
}

/// Writes the words that `input` holds, as the program writes them.
pub fn program(input: &[u8]) -> (r: Option<Vec<u8>>)
    ensures
        match r {
            Some(v) => spec_program(input@) == Some(v@),
            None => spec_program(input@) is None,
        },
{
    let ls = split_lines(input);
    if ls.len() == 0 {
        return None;
    }
    let n = match parse_i32(&trimmed(&ls[0])) {
        Some(n) => n,
        None => {
            return None;
        },
    };
    let k: usize = if n < 0 {
        0
    } else {
        n as usize
    };
    if ls.len() - 1 < k {
        return None;
    }
    let ghost all = ls@.map_values(|v: Vec<u8>| v@);
    assert(all[0] == ls[0]@);
    let ghost words = all.subrange(1, k + 1).map_values(|l: Seq<u8>| trim(l));
    let ghost pieces = words.map_values(|w: Seq<u8>| spec_abbreviate(w) + seq![0x0Du8, 0x0Au8]);
    let mut out: Vec<u8> = Vec::new();
    let mut i: usize = 0;
    assert(pieces.take(0) =~= Seq::<Seq<u8>>::empty());
    while i < k
        invariant
            i <= k,
            k + 1 <= ls.len(),
            all == ls@.map_values(|v: Vec<u8>| v@),
            all == lines(input@),
            spec_parse_i32(trim(all[0])) == Some(n),
            k as int == (if n < 0 { 0 } else { n as int }),
            words == all.subrange(1, k + 1).map_values(|l: Seq<u8>| trim(l)),
            pieces == words.map_values(|w: Seq<u8>| spec_abbreviate(w) + seq![0x0Du8, 0x0Au8]),
            out@ == concat(pieces.take(i as int)),
            forall|k2: int, j: int| 0 <= k2 < i && 0 <= j < words[k2].len() ==> #[trigger] words[k2][j] < 0x80,
        decreases k - i,
    {
        let w = trimmed(&ls[i + 1]);
        assert(w@ == words[i as int]);
        let mut j: usize = 0;
        while j < w.len()
            invariant
                i < k,
                w@ == words[i as int],
                words.len() == k,
                k + 1 <= all.len(),
                all == lines(input@),
                spec_parse_i32(trim(all[0])) == Some(n),
                k as int == (if n < 0 { 0 } else { n as int }),
                words == all.subrange(1, k + 1).map_values(|l: Seq<u8>| trim(l)),
                j <= w.len(),
                forall|j2: int| 0 <= j2 < j ==> #[trigger] words[i as int][j2] < 0x80,
            decreases w.len() - j,
        {
            if w[j] >= 0x80 {
                assert(words[i as int][j as int] >= 0x80);
                assert(!all_ascii(words));
                return None;
            }
            j = j + 1;
        }
        let a = abbreviate(&w);
        let ghost before = out@;
        let mut m: usize = 0;
        while m < a.len()
            invariant
                m <= a.len(),
                out@ == before + a@.take(m as int),
            decreases a.len() - m,
        {
            out.push(a[m]);
            m = m + 1;
            assert(out@ =~= before + a@.take(m as int));
        }
        out.push(0x0Du8);
        out.push(0x0Au8);
        assert(a@.take(a.len() as int) =~= a@);
        assert(pieces.take(i + 1).drop_last() =~= pieces.take(i as int));
        assert(out@ =~= concat(pieces.take(i + 1)));
        i = i + 1;
    }
    assert(pieces.take(k as int) =~= pieces);
    Some(trimmed(&out))
}

} // verus!
