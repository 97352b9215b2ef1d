//! Petya and strings: compares two words letter by letter, ignoring case.
use vstd::prelude::*;
use crate::exercises::text::{lines, split_lines, trim, trimmed};

verus! {

/// An ASCII byte in lower case.
pub open spec fn spec_lower(c: u8) -> u8 {
    if 0x41 <= c && c <= 0x5A {
        (c + 0x20) as u8
    } else {
        c
    }
}

/// The comparison of the words from position `i` on, over the length of
/// the shorter one: -1, 0 or 1 as the first differing letter of `a` comes
/// before or after that of `b`, 0 when none differs.
pub open spec fn spec_compare_from(a: Seq<u8>, b: Seq<u8>, i: int) -> i32
    decreases a.len() - i,
{
    if i < 0 || i >= a.len() || i >= b.len() {
        0
    } else if spec_lower(a[i]) > spec_lower(b[i]) {
        1
    } else if spec_lower(a[i]) < spec_lower(b[i]) {
        -1i32
    } else {
        spec_compare_from(a, b, i + 1)
    }
}

fn lower(c: u8) -> (r: u8)
    ensures
        r == spec_lower(c),
{
    if 0x41 <= c && c <= 0x5A {
        c + 0x20
    } else {
        c
    }
}

/// Compares two ASCII words ignoring case, letter by letter over the
/// length of the shorter: 1 when the first word comes after, -1 when it
/// comes before, 0 when they agree.
pub fn solve(a: &[u8], b: &[u8]) -> (r: i32)
    requires
        forall|i: int| 0 <= i < a.len() ==> #[trigger] a[i] < 0x80,
        forall|i: int| 0 <= i < b.len() ==> #[trigger] b[i] < 0x80,
    ensures
        r == spec_compare_from(a@, b@, 0),
{
    let mut i: usize = 0;
    while i < a.len() && i < b.len()
        invariant
            i <= a.len(),
            spec_compare_from(a@, b@, 0) == spec_compare_from(a@, b@, i as int),
        decreases a.len() - i,
    {
        let u1 = lower(a[i]);
        let u2 = lower(b[i]);
        if u1 > u2 {
            return 1;
        } else if u1 < u2 {
            return -1;
        }
        i = i + 1;
    }
    0
}

/// How the program writes a comparison.
pub open spec fn comparison_text(c: i32) -> Seq<u8> {
    if c > 0 {
        seq![0x31u8]
    } else if c < 0 {
        seq![0x2Du8, 0x31u8]
    } else {
        seq![0x30u8]
    }
}

/// Whether every byte is ASCII.
pub open spec fn is_ascii(s: Seq<u8>) -> bool {
    forall|i: int| 0 <= i < s.len() ==> #[trigger] s[i] < 0x80
}

/// The program's output for `input`: the comparison of its first two
/// lines, each trimmed. `None` where the program stops, with fewer than two
/// lines, and for words that are not ASCII, which this program does not
/// read.
pub open spec fn spec_program(input: Seq<u8>) -> Option<Seq<u8>> {
    let ls = lines(input);
    if ls.len() < 2 || !is_ascii(trim(ls[0])) || !is_ascii(trim(ls[1])) {
        None
    } else {
        Some(comparison_text(spec_compare_from(trim(ls[0]), trim(ls[1]), 0)))
    }
}

fn ascii(s: &[u8]) -> (r: bool)
    ensures
        r == is_ascii(s@),
{
    let mut i: usize = 0;
    while i < s.len()
        invariant
            i <= s.len(),
            forall|j: int| 0 <= j < i ==> #[trigger] s@[j] < 0x80,
        decreases s.len() - i,
    {
        if s[i] >= 0x80 {
            return false;
        }
        i = i + 1;
    }
    true
}

/// Compares the two words that `input` holds, as the program writes the
/// comparison.
pub fn program(input: &[u8]) -> (r: Option<Vec<u8>>)
    ensures
        match r {
            Some(v) => spec_program(input@) == Some(v@),
            None => spec_program(input@) is None,
        },
{
    let ls = split_lines(input);
    if ls.len() < 2 {
        return None;
    }
    let a = trimmed(&ls[0]);
    let b = trimmed(&ls[1]);
    if !ascii(&a) || !ascii(&b) {
        return None;
    }
    let c = solve(&a, &b);
    if c > 0 {
        Some(vec![0x31u8])
    } else if c < 0 {
        Some(vec![0x2Du8, 0x31u8])
    } else {
        Some(vec![0x30u8])
    }
}

} // verus!
