//! Next round: `n` contestants, in order of their scores, and a place `k`;
//! everyone whose score is positive and at least the `k`th place's score
//! advances.
use vstd::prelude::*;
use crate::exercises::cf_71_a::{decimal, spec_decimal};
use crate::exercises::text::{lines, parse_fields_i32, spec_parse_all_i32, split_lines, split_on, trim, trimmed, SPACE};

verus! {

/// Whether a contestant with `score` advances past a `k`th place that
/// scored `bar`.
pub open spec fn advances(score: i32, bar: i32) -> bool {
    score > 0 && score >= bar
}

/// How many of the first `n` contestants score above zero and at least
/// `bar`.
pub open spec fn spec_count(scores: Seq<i32>, bar: i32, n: nat) -> nat
    decreases n,
{
    if n == 0 {
        0
    } else {
        spec_count(scores, bar, (n - 1) as nat) + if advances(scores[n - 1], bar) {
            1nat
        } else {
            0nat
        }
    }
}

/// The number of contestants who advance, from the scores in place order,
/// with `k` the place whose score is the bar.
pub fn solve(scores: &Vec<i32>, k: usize) -> (r: usize)
    requires
        1 <= k <= scores.len(),
    ensures
        r == spec_count(scores@, scores@[k - 1], scores@.len()),
{
    let bar = scores[k - 1];
    let mut acc: usize = 0;
    let mut i: usize = 0;
    while i < scores.len()
        invariant
            i <= scores.len(),
            bar == scores@[k - 1],
            acc == spec_count(scores@, bar, i as nat),
            acc <= i,
        decreases scores.len() - i,
    {
        let score = scores[i];
        if score > 0 && score >= bar {
            acc = acc + 1;
        }
        i = i + 1;
    }
    acc
}

/// The program's output for `input`: the first line holds `n` and the
/// place `k`, the second the scores, separated by single spaces. `None`
/// where the program stops: fewer than two lines, a field that is no
/// number, no second field on the first line, or no score at place `k`.
pub open spec fn spec_program(input: Seq<u8>) -> Option<Seq<u8>> {
    let ls = lines(input);
    if ls.len() < 2 {
        None
    } else {
        match (spec_parse_all_i32(split_on(trim(ls[0]), SPACE)), spec_parse_all_i32(split_on(trim(ls[1]), SPACE))) {
            (Some(head), Some(scores)) => if head.len() >= 2 && 1 <= head[1] <= scores.len() {
                Some(trim(spec_decimal(spec_count(scores, scores[head[1] - 1], scores.len()))))
            } else {
                None
            },
            _ => None,
        }
    }
}

/// Counts the contestants who advance, as the program writes the count.
pub fn program(input: &[u8]) -> (r: Option<Vec<u8>>)
    ensures
        match r {
            Some(v) => spec_program(input@) == Some(v@),
            None => spec_program(input@) is None,
        },
{
    let ls = split_lines(input);
    if ls.len() < 2 {
        return None;
    }
    let head = match parse_fields_i32(&ls[0], SPACE) {
        Some(v) => v,
        None => {
            return None;
        },
    };
    let scores = match parse_fields_i32(&ls[1], SPACE) {
        Some(v) => v,
        None => {
            return None;
        },
    };
    if head.len() < 2 {
        return None;
    }
    let k = head[1];
    if k < 1 || k as usize > scores.len() {
        return None;
    }
    let n = solve(&scores, k as usize);
    let d = decimal(n);
    Some(trimmed(&d))
}

} // verus!
