//! Taxi: the fewest cars of four seats that carry groups of one to four
//! children, each group in one car.
use vstd::prelude::*;
use crate::exercises::cf_71_a::{decimal, spec_decimal};
use crate::exercises::text::{lines, parse_fields, spec_parse_all, split_lines, split_on, trim, trimmed, SPACE};

verus! {

/// How many of the first `n` groups have `size` children.
pub open spec fn spec_count(groups: Seq<usize>, size: usize, n: nat) -> nat
    decreases n,
{
    if n == 0 {
        0
    } else {
        spec_count(groups, size, (n - 1) as nat) + if groups[n - 1] == size {
            1nat
        } else {
            0nat
        }
    }
}

/// The cars for `c1` groups of one, `c2` of two, `c3` of three and `c4` of
/// four: a car per group of four or three, groups of one riding along with
/// those of three; groups of two by pairs, a last one with up to two groups
/// of one; the groups of one left by fours.
pub open spec fn spec_taxis(c1: nat, c2: nat, c3: nat, c4: nat) -> nat {
    let ones = if c3 <= c1 { (c1 - c3) as nat } else { 0nat };
    let res = c4 + c3 + c2 / 2;
    let (res, ones) = if c2 % 2 == 1 {
        (res + 1, if ones <= 2 { 0nat } else { (ones - 2) as nat })
    } else {
        (res, ones)
    };
    res + ones / 4 + if ones % 4 != 0 { 1nat } else { 0nat }
}

/// The number of cars for groups of the given sizes, each from one to four.
pub fn solve(groups: &Vec<usize>) -> (r: usize)
    requires
        forall|i: int| 0 <= i < groups.len() ==> 1 <= #[trigger] groups[i] <= 4,
    ensures
        r == spec_taxis(
            spec_count(groups@, 1, groups@.len()),
            spec_count(groups@, 2, groups@.len()),
            spec_count(groups@, 3, groups@.len()),
            spec_count(groups@, 4, groups@.len()),
        ),
{
    let mut lens: [usize; 4] = [0, 0, 0, 0];
    let mut i: usize = 0;
    while i < groups.len()
        invariant
            i <= groups.len(),
            forall|j: int| 0 <= j < groups.len() ==> 1 <= #[trigger] groups[j] <= 4,
            lens[0] == spec_count(groups@, 1, i as nat),
            lens[1] == spec_count(groups@, 2, i as nat),
            lens[2] == spec_count(groups@, 3, i as nat),
            lens[3] == spec_count(groups@, 4, i as nat),
            lens[0] + lens[1] + lens[2] + lens[3] == i,
        decreases groups.len() - i,
    {
        let y = groups[i];
        lens.set(y - 1, lens[y - 1] + 1);
        i = i + 1;
    }
    let mut res = lens[3] + lens[2];
    let mut ones = if lens[2] <= lens[0] { lens[0] - lens[2] } else { 0 };
    res = res + lens[1] / 2;
    if lens[1] % 2 == 1 {
        res = res + 1;
        ones = if ones <= 2 { 0 } else { ones - 2 };
    }
    res = res + ones / 4;
    res = res + if ones % 4 != 0 { 1 } else { 0 };
    res
}

/// Whether every group has one to four children.
pub open spec fn sizes_ok(vs: Seq<u32>) -> bool {
    forall|i: int| 0 <= i < vs.len() ==> 1 <= #[trigger] vs[i] <= 4
}

/// The program's output for `input`: the first line gives the number of
/// groups and is not read; the second holds their sizes, separated by
/// single spaces. `None` where the program stops: no second line, a size
/// that is no number, or one outside one to four.
pub open spec fn spec_program(input: Seq<u8>) -> Option<Seq<u8>> {
    let ls = lines(input);
    if ls.len() < 2 {
        None
    } else {
        match spec_parse_all(split_on(trim(ls[1]), SPACE)) {
            Some(vs) => if sizes_ok(vs) {
                let gs = vs.map_values(|v: u32| v as usize);
                Some(
                    trim(
                        spec_decimal(
                            spec_taxis(
                                spec_count(gs, 1, gs.len()),
                                spec_count(gs, 2, gs.len()),
                                spec_count(gs, 3, gs.len()),
                                spec_count(gs, 4, gs.len()),
                            ),
                        ),
                    ),
                )
            } else {
                None
            },
            None => None,
        }
    }
}

/// Counts the cars for the groups that `input` describes, as the program
/// writes the count.
pub fn program(input: &[u8]) -> (r: Option<Vec<u8>>)
    ensures
        match r {
            Some(v) => spec_program(input@) == Some(v@),
            None => spec_program(input@) is None,
        },
{
    let ls = split_lines(input);
    if ls.len() < 2 {
        return None;
    }
    let vs = match parse_fields(&ls[1], SPACE) {
        Some(vs) => vs,
        None => {
            return None;
        },
    };
    let ghost ll = lines(input@);
    assert(ll[1] == ls[1]@);
    let mut groups: Vec<usize> = Vec::new();
    let mut i: usize = 0;
    while i < vs.len()
        invariant
            i <= vs.len(),
            ll == lines(input@),
            ll.len() >= 2,
            spec_parse_all(split_on(trim(ll[1]), SPACE)) == Some(vs@),
            groups@ == vs@.take(i as int).map_values(|v: u32| v as usize),
            forall|j: int| 0 <= j < i ==> 1 <= #[trigger] vs@[j] <= 4,
        decreases vs.len() - i,
    {
        let v = vs[i];
        if v < 1 || v > 4 {
            assert(!sizes_ok(vs@));
            return None;
        }
        groups.push(v as usize);
        i = i + 1;
        assert(groups@ =~= vs@.take(i as int).map_values(|v: u32| v as usize));
    }
    assert(vs@.take(i as int) =~= vs@);
    assert(sizes_ok(vs@));
    let n = solve(&groups);
    let d = decimal(n);
    Some(trimmed(&d))
}

} // verus!
