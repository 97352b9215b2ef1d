//! Dot products: the input comes in groups of three lines, a length, then
//! two vectors, and each group gives the dot product of its vectors.
use vstd::prelude::*;
use crate::exercises::cf_1_a::decimal_u64;
use crate::exercises::cf_71_a::spec_decimal;
use crate::exercises::text::{
    concat, lines, parse_fields_i32, spec_parse_all_i32, split_lines, split_on, trim, trimmed, NEWLINE,
    SPACE,
};

verus! {

/// The sum of the products of the first `n` pairs of `a` and `b`.
pub open spec fn spec_dot(a: Seq<i32>, b: Seq<i32>, n: nat) -> int
    decreases n,
{
    if n == 0 {
        0
    } else {
        spec_dot(a, b, (n - 1) as nat) + a[n - 1] * b[n - 1]
    }
}

/// The number of pairs: the length of the shorter vector.
pub open spec fn pairs(a: Seq<i32>, b: Seq<i32>) -> nat {
    if a.len() <= b.len() {
        a.len()
    } else {
        b.len()
    }
}

/// Every product and every partial sum of the dot product fits an `i32`.
pub open spec fn dot_fits(a: Seq<i32>, b: Seq<i32>) -> bool {
    forall|k: nat|
        k <= pairs(a, b) ==> (k < pairs(a, b) ==> i32::MIN <= a[k as int] * b[k as int] <= i32::MAX)
            && i32::MIN <= #[trigger] spec_dot(a, b, k) <= i32::MAX
}

/// The dot product of `a` and `b`, over the length of the shorter.
pub fn dot(a: &[i32], b: &[i32]) -> (r: i32)
    requires
        dot_fits(a@, b@),
    ensures
        r == spec_dot(a@, b@, pairs(a@, b@)),
{
    let mut acc: i32 = 0;
    let mut i: usize = 0;
    while i < a.len() && i < b.len()
        invariant
            i <= pairs(a@, b@),
            dot_fits(a@, b@),
            acc == spec_dot(a@, b@, i as nat),
        decreases a.len() - i,
    {
        assert(i < pairs(a@, b@));
        assert(i32::MIN <= a[i as int] * b[i as int] <= i32::MAX);
        assert(i32::MIN <= spec_dot(a@, b@, (i + 1) as nat) <= i32::MAX);
        let p = a[i] * b[i];
        acc = acc + p;
        i = i + 1;
    }
    acc
}

/// The dot products that the input lines after the first give: each group
/// of three lines is a length, a vector `v` and a vector `x`, and gives the
/// dot product of `x` with `v`.
pub open spec fn spec_products(rows: Seq<Seq<i32>>) -> Seq<int> {
    Seq::new(
        (rows.len() / 3) as nat,
        |k: int| spec_dot(rows[3 * k + 2], rows[3 * k + 1], pairs(rows[3 * k + 2], rows[3 * k + 1])),
    )
}

/// The dot product of each group of three lines.
pub fn solve(rows: &Vec<Vec<i32>>) -> (r: Vec<i32>)
    requires
        forall|k: int|
            0 <= k < rows.len() / 3 ==> dot_fits(
                #[trigger] rows[3 * k + 2]@,
                rows[3 * k + 1]@,
            ),
    ensures
        r@.len() == spec_products(rows@.map_values(|v: Vec<i32>| v@)).len(),
        forall|k: int| 0 <= k < r@.len() ==> r@[k] == spec_products(rows@.map_values(|v: Vec<i32>| v@))[k],
{
    let ghost vs = rows@.map_values(|v: Vec<i32>| v@);
    let mut out: Vec<i32> = Vec::new();
    let groups: usize = rows.len() / 3;
    let mut k: usize = 0;
    while k < groups
        invariant
            groups == rows.len() / 3,
            vs == rows@.map_values(|v: Vec<i32>| v@),
            k <= rows.len() / 3,
            forall|j: int|
                0 <= j < rows.len() / 3 ==> dot_fits(#[trigger] rows[3 * j + 2]@, rows[3 * j + 1]@),
            out@.len() == k,
            forall|j: int| 0 <= j < k ==> out@[j] == spec_products(vs)[j],
        decreases groups - k,
    {
        assert(3 * k + 2 < rows.len()) by {
            vstd::arithmetic::div_mod::lemma_fundamental_div_mod(rows.len() as int, 3);
        }
        let d = dot(rows[3 * k + 2].as_slice(), rows[3 * k + 1].as_slice());
        out.push(d);
        k = k + 1;
    }
    out
}

/// The dot product of `a` and `b`, or `None` when a product or a partial
/// sum does not fit an `i32`.
pub fn dot_checked(a: &[i32], b: &[i32]) -> (r: Option<i32>)
    ensures
        match r {
            Some(d) => dot_fits(a@, b@) && d == spec_dot(a@, b@, pairs(a@, b@)),
            None => !dot_fits(a@, b@),
        },
{
    let mut acc: i32 = 0;
    let mut i: usize = 0;
    while i < a.len() && i < b.len()
        invariant
            i <= pairs(a@, b@),
            acc == spec_dot(a@, b@, i as nat),
            forall|k: int| 0 <= k < i ==> i32::MIN <= #[trigger] (a@[k] * b@[k]) <= i32::MAX,
            forall|k: nat| k <= i ==> i32::MIN <= #[trigger] spec_dot(a@, b@, k) <= i32::MAX,
        decreases a.len() - i,
    {
        let p = match a[i].checked_mul(b[i]) {
            Some(p) => p,
            None => {
                assert(spec_dot(a@, b@, i as nat) == acc);
                assert(!(i32::MIN <= a@[i as int] * b@[i as int] <= i32::MAX));
                return None;
            },
        };
        let ghost old_acc = acc;
        match acc.checked_add(p) {
            Some(s) => {
                acc = s;
            },
            None => {
                assert(spec_dot(a@, b@, (i + 1) as nat) == acc + p);
                return None;
            },
        }
        assert(spec_dot(a@, b@, (i + 1) as nat) == old_acc + a@[i as int] * b@[i as int]);
        i = i + 1;
    }
    assert forall|k: nat| k <= pairs(a@, b@) implies (k < pairs(a@, b@) ==> i32::MIN <= a@[k as int]
        * b@[k as int] <= i32::MAX) && i32::MIN <= #[trigger] spec_dot(a@, b@, k) <= i32::MAX by {
        if k < pairs(a@, b@) {
            assert(i32::MIN <= a@[k as int] * b@[k as int] <= i32::MAX);
        }
    }
    Some(acc)
}

/// The numbers of each line, if every line holds numbers separated by
/// single spaces.
pub open spec fn parse_rows(ls: Seq<Seq<u8>>) -> Option<Seq<Seq<i32>>>
    decreases ls.len(),
{
    if ls.len() == 0 {
        Some(Seq::empty())
    } else {
        match (parse_rows(ls.drop_last()), spec_parse_all_i32(split_on(trim(ls.last()), SPACE))) {
            (Some(rows), Some(row)) => Some(rows.push(row)),
            _ => None,
        }
    }
}

proof fn lemma_parse_rows_fails_on(ls: Seq<Seq<u8>>, k: int)
    requires
        0 <= k <= ls.len(),
        parse_rows(ls.take(k)) is None,
    ensures
        parse_rows(ls) is None,
    decreases ls.len() - k,
{
    if k < ls.len() {
        assert(ls.take(k + 1).drop_last() =~= ls.take(k));
        lemma_parse_rows_fails_on(ls, k + 1);
    } else {
        assert(ls.take(k) =~= ls);
    }
}

/// Whether the dot product of group `k` fits an `i32` all the way.
pub open spec fn group_fits(rows: Seq<Seq<i32>>, k: int) -> bool {
    dot_fits(rows[3 * k + 2], rows[3 * k + 1])
}

/// Whether every group's dot product fits an `i32` all the way.
pub open spec fn all_groups_fit(rows: Seq<Seq<i32>>) -> bool {
    forall|k: int| 0 <= k < rows.len() / 3 ==> #[trigger] group_fits(rows, k)
}

/// How the program writes a number.
pub open spec fn int_text(d: int) -> Seq<u8> {
    if d < 0 {
        seq![0x2Du8] + spec_decimal((0 - d) as nat)
    } else {
        spec_decimal(d as nat)
    }
}

/// The program's output for `input`: the first line is not read; the lines
/// after it, every one of them numbers separated by single spaces, come in
/// groups of three, and each group gives its dot product on a line of its
/// own. `None` where the program stops: a line that holds no such numbers,
/// or a dot product that overflows an `i32` on the way.
pub open spec fn spec_program(input: Seq<u8>) -> Option<Seq<u8>> {
    let ls = lines(input);
    let queries = if ls.len() == 0 {
        ls
    } else {
        ls.drop_first()
    };
    match parse_rows(queries) {
        None => None,
        Some(rows) => if all_groups_fit(rows) {
            Some(trim(concat(spec_products(rows).map_values(|d: int| int_text(d).push(NEWLINE)))))
        } else {
            None
        },
    }
}

/// How the program writes `d`.
fn text_of(d: i32) -> (r: Vec<u8>)
    ensures
        r@ == int_text(d as int),
{
    if d < 0 {
        let mag: u64 = (0i64 - d as i64) as u64;
        let digits = decimal_u64(mag);
        let mut r: Vec<u8> = vec![0x2Du8];
        let mut i: usize = 0;
        while i < digits.len()
            invariant
                i <= digits.len(),
                r@ == seq![0x2Du8] + digits@.take(i as int),
            decreases digits.len() - i,
        {
            r.push(digits[i]);
            i = i + 1;
            assert(r@ =~= seq![0x2Du8] + digits@.take(i as int));
        }
        assert(digits@.take(digits.len() as int) =~= digits@);
        r
    } else {
        decimal_u64(d as u64)
    }
}

/// Computes the dot products that `input` asks for, as the program writes
/// them.
pub fn program(input: &[u8]) -> (r: Option<Vec<u8>>)
    ensures
        match r {
            Some(v) => spec_program(input@) == Some(v@),
            None => spec_program(input@) is None,
        },
{
    let ls = split_lines(input);
    let ghost all = ls@.map_values(|v: Vec<u8>| v@);
    let ghost queries = if all.len() == 0 {
        all
    } else {
        all.drop_first()
    };
    let start: usize = if ls.len() == 0 {
        0
    } else {
        1
    };
    let mut rows: Vec<Vec<i32>> = Vec::new();
    let mut i: usize = start;
    assert(queries.take(0) =~= Seq::<Seq<u8>>::empty());
    while i < ls.len()
        invariant
            start <= i <= ls.len(),
            all == ls@.map_values(|v: Vec<u8>| v@),
            all == lines(input@),
            start == (if all.len() == 0 { 0usize } else { 1usize }),
            queries == (if all.len() == 0 { all } else { all.drop_first() }),
            parse_rows(queries.take(i - start)) == Some(rows@.map_values(|v: Vec<i32>| v@)),
        decreases ls.len() - i,
    {
        let ghost q = queries.take(i - start + 1);
        assert(q.drop_last() =~= queries.take(i - start));
        assert(q.last() == ls@[i as int]@);
        match parse_fields_i32(&ls[i], SPACE) {
            None => {
                proof {
                    assert(parse_rows(q) is None);
                    lemma_parse_rows_fails_on(queries, i - start + 1);
                }
                return None;
            },
            Some(row) => {
                let ghost before = rows@.map_values(|v: Vec<i32>| v@);
                rows.push(row);
                assert(rows@.map_values(|v: Vec<i32>| v@) =~= before.push(row@));
            },
        }
        i = i + 1;
    }
    assert(queries.take(i - start) =~= queries);
    let ghost vs = rows@.map_values(|v: Vec<i32>| v@);
    assert(parse_rows(queries) == Some(vs));
    let ghost products = spec_products(vs);
    let ghost pieces = products.map_values(|d: int| int_text(d).push(NEWLINE));
    let groups: usize = rows.len() / 3;
    let mut out: Vec<u8> = Vec::new();
    let mut k: usize = 0;
    assert(pieces.take(0) =~= Seq::<Seq<u8>>::empty());
    while k < groups
        invariant
            groups == rows.len() / 3,
            vs == rows@.map_values(|v: Vec<i32>| v@),
            parse_rows(queries) == Some(vs),
            all == lines(input@),
            queries == (if all.len() == 0 { all } else { all.drop_first() }),
            products == spec_products(vs),
            pieces == products.map_values(|d: int| int_text(d).push(NEWLINE)),
            k <= groups,
            forall|j: int| 0 <= j < k ==> #[trigger] group_fits(vs, j),
            out@ == concat(pieces.take(k as int)),
        decreases groups - k,
    {
        assert(3 * k + 2 < rows.len()) by {
            vstd::arithmetic::div_mod::lemma_fundamental_div_mod(rows.len() as int, 3);
        }
        match dot_checked(rows[3 * k + 2].as_slice(), rows[3 * k + 1].as_slice()) {
            None => {
                assert(!group_fits(vs, k as int));
                assert(vs.len() == rows.len());
                assert(0 <= k < vs.len() / 3);
                assert(!all_groups_fit(vs));
                return None;
            },
            Some(d) => {
                let t = text_of(d);
                let ghost before = out@;
                let mut m: usize = 0;
                while m < t.len()
                    invariant
                        m <= t.len(),
                        out@ == before + t@.take(m as int),
                    decreases t.len() - m,
                {
                    out.push(t[m]);
                    m = m + 1;
                    assert(out@ =~= before + t@.take(m as int));
                }
                out.push(NEWLINE);
                assert(t@.take(t.len() as int) =~= t@);
                assert(products[k as int] == d as int);
                assert(group_fits(vs, k as int));
                assert(pieces.take(k + 1).drop_last() =~= pieces.take(k as int));
                assert(out@ =~= concat(pieces.take(k + 1)));
            },
        }
        k = k + 1;
    }
    assert(pieces.take(k as int) =~= pieces);
    assert(all_groups_fit(vs));
    Some(trimmed(&out))
}

} // verus!
