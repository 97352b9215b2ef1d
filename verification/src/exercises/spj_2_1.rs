//! Prime generator: the primes in a range, from a generator that tests each
//! candidate by the primes it already found.
use vstd::prelude::*;
use vstd::arithmetic::div_mod::{lemma_fundamental_div_mod, lemma_mod_multiples_basic};
use crate::exercises::cf_71_a::{decimal, spec_decimal};
use crate::exercises::text::{
    concat, lines, parse_u32, split, split_lines, split_on, spec_parse_u32, trim, trimmed, NEWLINE,
    SPACE,
};

verus! {

pub open spec fn is_prime(n: int) -> bool {
    n >= 2 && forall|d: int| 2 <= d < n ==> #[trigger] (n % d) != 0
}

/// The least divisor of `y` from `d` on, `y` itself when there is none
/// below it.
pub open spec fn least_divisor_from(y: int, d: int) -> int
    decreases y - d,
{
    if d >= y {
        y
    } else if y % d == 0 {
        d
    } else {
        least_divisor_from(y, d + 1)
    }
}

proof fn lemma_least_divisor_from(y: int, d: int)
    requires
        2 <= d <= y,
        forall|e: int| 2 <= e < d ==> #[trigger] (y % e) != 0,
    ensures
        d <= least_divisor_from(y, d) <= y,
        y % least_divisor_from(y, d) == 0,
        forall|e: int| 2 <= e < least_divisor_from(y, d) ==> #[trigger] (y % e) != 0,
    decreases y - d,
{
    if d >= y {
        lemma_mod_multiples_basic(1, y);
    } else if y % d != 0 {
        lemma_least_divisor_from(y, d + 1);
    }
}

/// `y`'s least divisor above one divides it, no smaller number above one
/// does, and it is prime.
proof fn lemma_least_divisor(y: int)
    requires
        y >= 2,
    ensures
        2 <= least_divisor_from(y, 2) <= y,
        y % least_divisor_from(y, 2) == 0,
        forall|e: int| 2 <= e < least_divisor_from(y, 2) ==> #[trigger] (y % e) != 0,
        is_prime(least_divisor_from(y, 2)),
{
    lemma_least_divisor_from(y, 2);
    let p = least_divisor_from(y, 2);
    assert forall|e: int| 2 <= e < p implies #[trigger] (p % e) != 0 by {
        if p % e == 0 {
            lemma_divides_transitive(y, p, e);
        }
    }
}

/// A divisor of a divisor divides.
proof fn lemma_divides_transitive(y: int, p: int, e: int)
    requires
        y >= 1,
        p >= 1,
        e >= 1,
        y % p == 0,
        p % e == 0,
    ensures
        y % e == 0,
{
    lemma_fundamental_div_mod(y, p);
    lemma_fundamental_div_mod(p, e);
    let a = y / p;
    let b = p / e;
    assert(y == e * (b * a)) by (nonlinear_arith)
        requires
            y == p * a,
            p == e * b,
    {
    }
    lemma_mod_multiples_basic(b * a, e);
    assert((b * a) * e == e * (b * a)) by (nonlinear_arith);
}

/// The least divisor of a number that is not prime is at most its square
/// root.
proof fn lemma_least_divisor_squared(y: int)
    requires
        y >= 2,
        !is_prime(y),
    ensures
        least_divisor_from(y, 2) * least_divisor_from(y, 2) <= y,
        least_divisor_from(y, 2) < y,
{
    lemma_least_divisor(y);
    let p = least_divisor_from(y, 2);
    let d = choose|d: int| 2 <= d < y && #[trigger] (y % d) == 0;
    assert(p <= d);
    lemma_fundamental_div_mod(y, p);
    let k = y / p;
    assert(k >= 2) by (nonlinear_arith)
        requires
            y == p * k,
            2 <= p < y,
    {
    }
    lemma_least_divisor(k);
    let q = least_divisor_from(k, 2);
    lemma_mod_multiples_basic(p, k);
    assert(y == k * p) by (nonlinear_arith)
        requires
            y == p * k,
    {
    }
    assert((p * k) % k == 0) by {
        lemma_mod_multiples_basic(p, k);
        assert(p * k == k * p) by (nonlinear_arith);
    }
    lemma_divides_transitive(y, k, q);
    assert(p <= q);
    assert(p * p <= y) by (nonlinear_arith)
        requires
            y == p * k,
            p <= q <= k,
            p >= 2,
    {
    }
}

/// Strictly increasing.
pub open spec fn increasing(s: Seq<u32>) -> bool {
    forall|i: int, j: int| 0 <= i < j < s.len() ==> s[i] < s[j]
}

/// `s` holds, in increasing order, exactly the primes up to `ultimo`.
pub open spec fn primes_upto(s: Seq<u32>, ultimo: u32) -> bool {
    &&& ultimo >= 1
    &&& increasing(s)
    &&& forall|i: int| 0 <= i < s.len() ==> is_prime(#[trigger] s[i] as int) && s[i] <= ultimo
    &&& forall|p: int| 2 <= p <= ultimo && is_prime(p) ==> #[trigger] s.contains(p as u32)
}

/// `s` lists, in increasing order, exactly the primes below `p`.
pub open spec fn primes_below(s: Seq<int>, p: int) -> bool {
    &&& forall|i: int, j: int| 0 <= i < j < s.len() ==> s[i] < s[j]
    &&& forall|i: int| 0 <= i < s.len() ==> is_prime(#[trigger] s[i]) && s[i] < p
    &&& forall|q: int| 2 <= q < p && is_prime(q) ==> #[trigger] s.contains(q)
}

/// `p` is the `n`th prime: a prime with exactly `n - 1` primes below it.
pub open spec fn is_nth_prime(p: int, n: nat) -> bool {
    &&& is_prime(p)
    &&& exists|below: Seq<int>| below.len() + 1 == n && #[trigger] primes_below(below, p)
}

/// There is at most one `n`th prime.
pub proof fn lemma_nth_prime_unique(p: int, q: int, n: nat)
    requires
        is_nth_prime(p, n),
        is_nth_prime(q, n),
    ensures
        p == q,
{
    if p != q {
        let (lo, hi) = if p < q { (p, q) } else { (q, p) };
        let sl = choose|below: Seq<int>| below.len() + 1 == n && #[trigger] primes_below(below, lo);
        let sh = choose|below: Seq<int>| below.len() + 1 == n && #[trigger] primes_below(below, hi);
        sl.unique_seq_to_set();
        sh.unique_seq_to_set();
        let small = sl.to_set().insert(lo);
        assert(small.subset_of(sh.to_set())) by {
            assert forall|x: int| small.contains(x) implies sh.to_set().contains(x) by {
                if x != lo {
                    let k = choose|k: int| 0 <= k < sl.len() && sl[k] == x;
                    assert(is_prime(sl[k]));
                }
                assert(sh.contains(x));
            }
        }
        assert(!sl.to_set().contains(lo)) by {
            if sl.contains(lo) {
                let k = choose|k: int| 0 <= k < sl.len() && sl[k] == lo;
                assert(sl[k] < lo);
            }
        }
        vstd::set_lib::lemma_len_subset(small, sh.to_set());
    }
}

/// The primes found so far, and the last number tested.
pub struct Primos {
    elementos: Vec<u32>,
    ultimo: u32,
}

pub struct PrimosView {
    pub elementos: Seq<u32>,
    pub ultimo: u32,
}

impl View for Primos {
    type V = PrimosView;

    closed spec fn view(&self) -> PrimosView {
        PrimosView { elementos: self.elementos@, ultimo: self.ultimo }
    }
}

/// Whether `y` passes the test by the primes below it: walking them in
/// order, one that divides `y` fails it, and the walk ends, passing `y`,
/// at the first prime `x` with `y / x <= x`.
fn passes(primes: &Vec<u32>, y: u32) -> (r: bool)
    requires
        y >= 2,
        increasing(primes@),
        forall|i: int| 0 <= i < primes.len() ==> is_prime(#[trigger] primes[i] as int) && primes[i] < y,
        forall|p: int| 2 <= p < y && is_prime(p) ==> #[trigger] primes@.contains(p as u32),
    ensures
        r == is_prime(y as int),
{
    let mut i: usize = 0;
    while i < primes.len()
        invariant
            i <= primes.len(),
            y >= 2,
            increasing(primes@),
            forall|k: int| 0 <= k < primes.len() ==> is_prime(#[trigger] primes[k] as int) && primes[k] < y,
            forall|p: int| 2 <= p < y && is_prime(p) ==> #[trigger] primes@.contains(p as u32),
            forall|k: int| 0 <= k < i ==> #[trigger] (y % primes[k]) != 0,
        decreases primes.len() - i,
    {
        let x = primes[i];
        let v = if y % x == 0 { 1 } else { x };
        if !(y / v > v) {
            proof {
                assert(v == x);
                lemma_passes_at_stop(primes@, y, i as int);
            }
            return true;
        }
        if y % v == 0 {
            proof {
                assert(y % x == 0);
                assert(2 <= x < y);
                assert(!is_prime(y as int));
            }
            return false;
        }
        i = i + 1;
    }
    proof {
        if !is_prime(y as int) {
            lemma_least_divisor_squared(y as int);
            lemma_least_divisor(y as int);
            let p = least_divisor_from(y as int, 2);
            assert(primes@.contains(p as u32));
            let k = choose|k: int| 0 <= k < primes.len() && primes[k] == p as u32;
            assert(y % primes[k] != 0);
        }
    }
    true
}

/// Where the walk stops passing `y`, `y` is prime.
proof fn lemma_passes_at_stop(primes: Seq<u32>, y: u32, i: int)
    requires
        y >= 2,
        0 <= i < primes.len(),
        increasing(primes),
        forall|k: int| 0 <= k < primes.len() ==> is_prime(#[trigger] primes[k] as int) && primes[k] < y,
        forall|p: int| 2 <= p < y && is_prime(p) ==> #[trigger] primes.contains(p as u32),
        forall|k: int| 0 <= k < i ==> #[trigger] (y % primes[k]) != 0,
        y % primes[i] != 0,
        y / primes[i] <= primes[i],
    ensures
        is_prime(y as int),
{
    if !is_prime(y as int) {
        lemma_least_divisor_squared(y as int);
        lemma_least_divisor(y as int);
        let p = least_divisor_from(y as int, 2);
        assert(primes.contains(p as u32));
        let kp = choose|k: int| 0 <= k < primes.len() && primes[k] == p as u32;
        if kp < i {
            assert(y % primes[kp] != 0);
        } else if kp == i {
        } else {
            let x = primes[i] as int;
            let yy = y as int;
            assert(x < p);
            lemma_fundamental_div_mod(yy, x);
            let q = yy / x;
            let r = yy % x;
            assert(q <= x);
            assert(false) by (nonlinear_arith)
                requires
                    yy == x * q + r,
                    0 <= r < x,
                    q <= x,
                    x + 1 <= p,
                    p * p <= yy,
                    x >= 2,
            {
            }
        }
    }
}

impl Primos {
    #[verifier::type_invariant]
    spec fn inv(self) -> bool {
        primes_upto(self.elementos@, self.ultimo)
    }

    /// A generator that found nothing yet.
    pub fn new() -> (r: Primos)
        ensures
            r@.elementos == Seq::<u32>::empty(),
            r@.ultimo == 1,
            primes_upto(r@.elementos, r@.ultimo),
    {
        Primos { elementos: Vec::new(), ultimo: 1 }
    }

    /// The next prime after the last number tested, if one fits a `u32`.
    pub fn next(&mut self) -> (r: Option<u32>)
        ensures
            primes_upto(final(self)@.elementos, final(self)@.ultimo),
            match r {
                Some(p) => {
                    &&& p > old(self)@.ultimo
                    &&& is_prime(p as int)
                    &&& forall|q: int| old(self)@.ultimo < q < p ==> !is_prime(q)
                    &&& final(self)@.ultimo == p
                    &&& final(self)@.elementos == old(self)@.elementos.push(p)
                    &&& is_nth_prime(p as int, final(self)@.elementos.len())
                },
                None => {
                    &&& forall|q: int| old(self)@.ultimo < q <= u32::MAX ==> !is_prime(q)
                    &&& final(self)@ == old(self)@
                },
            },
    {
        let mut cur = Primos::new();
        std::mem::swap(&mut cur, self);
        proof {
            use_type_invariant(&cur);
        }
        let Primos { mut elementos, ultimo } = cur;
        let mut y = ultimo;
        while y < u32::MAX
            invariant
                old(self)@ == (PrimosView { elementos: elementos@, ultimo }),
                primes_upto(elementos@, ultimo),
                ultimo <= y,
                forall|q: int| ultimo < q <= y ==> !is_prime(q),
            decreases u32::MAX - y,
        {
            y = y + 1;
            proof {
                assert forall|p: int| 2 <= p < y && is_prime(p) implies #[trigger] elementos@.contains(
                    p as u32,
                ) by {
                    if p > ultimo {
                        assert(!is_prime(p));
                    }
                }
                assert(y >= 2);
            }
            if passes(&elementos, y) {
                let ghost before = elementos@;
                elementos.push(y);
                proof {
                    assert forall|p: int| 2 <= p <= y && is_prime(p) implies #[trigger] elementos@.contains(
                        p as u32,
                    ) by {
                        if p < y {
                            assert(before.contains(p as u32));
                            let k = choose|k: int| 0 <= k < before.len() && before[k] == p as u32;
                            assert(elementos@[k] == p as u32);
                        } else {
                            assert(elementos@[before.len() as int] == y);
                        }
                    }
                }
                proof {
                    let below = before.map_values(|x: u32| x as int);
                    assert forall|q: int| 2 <= q < y && is_prime(q) implies #[trigger] below.contains(q) by {
                        assert(q <= ultimo);
                        assert(before.contains(q as u32));
                        let k = choose|k: int| 0 <= k < before.len() && before[k] == q as u32;
                        assert(below[k] == q);
                    }
                    assert(primes_below(below, y as int));
                }
                *self = Primos { elementos, ultimo: y };
                return Some(y);
            }
        }
        *self = Primos { elementos, ultimo };
        None
    }
}

/// `s` lists, in increasing order, exactly the primes from `m` to `n`.
pub open spec fn lists_primes_between(s: Seq<u32>, m: u32, n: u32) -> bool {
    &&& increasing(s)
    &&& forall|i: int| 0 <= i < s.len() ==> m <= #[trigger] s[i] <= n && is_prime(s[i] as int)
    &&& forall|q: int| m <= q <= n && is_prime(q) ==> #[trigger] s.contains(q as u32)
}

/// The primes from `m` to `n`, in increasing order.
pub open spec fn primes_between(m: u32, n: u32) -> Seq<u32> {
    choose|s: Seq<u32>| lists_primes_between(s, m, n)
}

/// Two increasing sequences with the same members are the same.
proof fn lemma_increasing_unique(a: Seq<u32>, b: Seq<u32>)
    requires
        increasing(a),
        increasing(b),
        forall|x: u32| a.contains(x) <==> b.contains(x),
    ensures
        a == b,
    decreases a.len(),
{
    if a.len() == 0 {
        if b.len() > 0 {
            assert(b.contains(b[0]));
        }
        assert(a =~= b);
    } else {
        assert(a.contains(a[0]));
        assert(b.contains(a[0]));
        assert(b.len() > 0);
        assert(b.contains(b[0]));
        assert(a.contains(b[0]));
        let j = choose|j: int| 0 <= j < a.len() && a[j] == b[0];
        let k = choose|k: int| 0 <= k < b.len() && b[k] == a[0];
        if j > 0 {
            assert(a[0] < a[j]);
        }
        if k > 0 {
            assert(b[0] < b[k]);
        }
        assert(a[0] == b[0]);
        let a1 = a.drop_first();
        let b1 = b.drop_first();
        assert forall|x: u32| a1.contains(x) implies b1.contains(x) by {
            let i = choose|i: int| 0 <= i < a1.len() && a1[i] == x;
            assert(a[i + 1] == x && a[0] < a[i + 1]);
            assert(b.contains(x));
            let l = choose|l: int| 0 <= l < b.len() && b[l] == x;
            assert(l > 0);
            assert(b1[l - 1] == x);
        }
        assert forall|x: u32| b1.contains(x) implies a1.contains(x) by {
            let i = choose|i: int| 0 <= i < b1.len() && b1[i] == x;
            assert(b[i + 1] == x && b[0] < b[i + 1]);
            assert(a.contains(x));
            let l = choose|l: int| 0 <= l < a.len() && a[l] == x;
            assert(l > 0);
            assert(a1[l - 1] == x);
        }
        lemma_increasing_unique(a1, b1);
        assert(a =~= seq![a[0]] + a1);
        assert(b =~= seq![b[0]] + b1);
    }
}

/// A list of the primes from `m` to `n` is the one that `primes_between`
/// names.
proof fn lemma_primes_between_unique(s: Seq<u32>, m: u32, n: u32)
    requires
        lists_primes_between(s, m, n),
    ensures
        primes_between(m, n) == s,
{
    let c = primes_between(m, n);
    assert(lists_primes_between(c, m, n));
    assert forall|x: u32| c.contains(x) <==> s.contains(x) by {
        if c.contains(x) {
            let i = choose|i: int| 0 <= i < c.len() && c[i] == x;
            assert(m <= c[i] <= n && is_prime(c[i] as int));
            assert(s.contains((x as int) as u32));
        }
        if s.contains(x) {
            let i = choose|i: int| 0 <= i < s.len() && s[i] == x;
            assert(m <= s[i] <= n && is_prime(s[i] as int));
            assert(c.contains((x as int) as u32));
        }
    }
    lemma_increasing_unique(c, s);
}

/// The primes from `m` to `n`, in increasing order.
pub fn solve(m: u32, n: u32) -> (r: Vec<u32>)
    ensures
        increasing(r@),
        forall|i: int| 0 <= i < r.len() ==> m <= #[trigger] r@[i] <= n && is_prime(r@[i] as int),
        forall|q: int| m <= q <= n && is_prime(q) ==> #[trigger] r@.contains(q as u32),
        r@ == primes_between(m, n),
{
    let mut gen = Primos::new();
    let mut out: Vec<u32> = Vec::new();
    loop
        invariant
            primes_upto(gen@.elementos, gen@.ultimo),
            increasing(out@),
            forall|i: int| 0 <= i < out.len() ==> m <= #[trigger] out@[i] <= n && out@[i] <= gen@.ultimo
                && is_prime(out@[i] as int),
            forall|q: int| m <= q <= n && q <= gen@.ultimo && is_prime(q) ==> #[trigger] out@.contains(
                q as u32,
            ),
        decreases u32::MAX - gen@.ultimo,
    {
        let ghost last = gen@.ultimo;
        let ghost before = out@;
        let next = gen.next();
        match next {
            None => {
                assert forall|q: int| m <= q <= n && is_prime(q) implies #[trigger] out@.contains(q as u32) by {
                    assert(q <= last);
                }
                proof {
                    lemma_primes_between_unique(out@, m, n);
                }
                return out;
            },
            Some(p) => {
                if p > n {
                    assert forall|q: int| m <= q <= n && is_prime(q) implies #[trigger] out@.contains(
                        q as u32,
                    ) by {
                        assert(q <= last);
                    }
                    proof {
                        lemma_primes_between_unique(out@, m, n);
                    }
                    return out;
                }
                if p >= m {
                    out.push(p);
                    proof {
                        assert forall|q: int| m <= q <= n && q <= p && is_prime(q) implies #[trigger] out@.contains(
                            q as u32,
                        ) by {
                            if q <= last {
                                assert(before.contains(q as u32));
                                let k = choose|k: int| 0 <= k < before.len() && before[k] == q as u32;
                                assert(out@[k] == q as u32);
                            } else {
                                assert(q == p);
                                assert(out@[before.len() as int] == p);
                            }
                        }
                    }
                } else {
                    assert forall|q: int| m <= q <= n && q <= p && is_prime(q) implies #[trigger] out@.contains(
                        q as u32,
                    ) by {
                        assert(q <= last);
                    }
                }
            },
        }
    }
}

/// Whether every field writes a `u32`.
pub open spec fn all_numbers(fields: Seq<Seq<u8>>) -> bool {
    forall|i: int| 0 <= i < fields.len() ==> spec_parse_u32(#[trigger] fields[i]) is Some
}

/// The value that a field known to write a `u32` writes.
pub open spec fn number(field: Seq<u8>) -> u32 {
    match spec_parse_u32(field) {
        Some(v) => v,
        None => 0,
    }
}

/// The range that a line of input asks for: the line holds numbers
/// separated by single spaces, at least two, and the first two are the
/// range's ends.
pub open spec fn spec_range_line(line: Seq<u8>) -> Option<(u32, u32)> {
    let fields = split_on(trim(line), SPACE);
    if fields.len() >= 2 && all_numbers(fields) {
        Some((number(fields[0]), number(fields[1])))
    } else {
        None
    }
}

/// One prime per line, and an empty line after them.
pub open spec fn primes_text(ps: Seq<u32>) -> Seq<u8> {
    concat(ps.map_values(|p: u32| spec_decimal(p as nat).push(NEWLINE))).push(NEWLINE)
}

/// The answers to the ranges that `queries` ask for, one after the other;
/// `None` when a line asks for no range.
pub open spec fn spec_answers(queries: Seq<Seq<u8>>) -> Option<Seq<u8>>
    decreases queries.len(),
{
    if queries.len() == 0 {
        Some(Seq::empty())
    } else {
        match (spec_answers(queries.drop_last()), spec_range_line(queries.last())) {
            (Some(t), Some((m, n))) => Some(t + primes_text(primes_between(m, n))),
            _ => None,
        }
    }
}

/// The program's output for `input`: the first line gives the number of
/// ranges and is not read; every further line asks for one range. `None`
/// where the program stops on a line that asks for none.
pub open spec fn spec_program(input: Seq<u8>) -> Option<Seq<u8>> {
    let ls = lines(input);
    let queries = if ls.len() == 0 {
        ls
    } else {
        ls.drop_first()
    };
    match spec_answers(queries) {
        Some(t) => Some(trim(t)),
        None => None,
    }
}

/// A line that asks for no range leaves no answer, whatever follows it.
proof fn lemma_no_answer_extends(q: Seq<Seq<u8>>, k: int)
    requires
        0 <= k <= q.len(),
        spec_answers(q.take(k)) is None,
    ensures
        spec_answers(q) is None,
    decreases q.len() - k,
{
    if k < q.len() {
        assert(q.take(k + 1).drop_last() =~= q.take(k));
        lemma_no_answer_extends(q, k + 1);
    } else {
        assert(q.take(k) =~= q);
    }
}

/// The range that `line` asks for, if it asks for one.
fn range_line(line: &[u8]) -> (r: Option<(u32, u32)>)
    ensures
        r == spec_range_line(line@),
{
    let t = trimmed(line);
    let fields = split(&t, SPACE);
    let ghost fs = fields@.map_values(|v: Vec<u8>| v@);
    if fields.len() < 2 {
        return None;
    }
    let mut vals: Vec<u32> = Vec::new();
    let mut k: usize = 0;
    while k < fields.len()
        invariant
            k <= fields.len(),
            fs == fields@.map_values(|v: Vec<u8>| v@),
            fs == split_on(trim(line@), SPACE),
            fs.len() >= 2,
            vals@.len() == k,
            forall|j: int| 0 <= j < k ==> spec_parse_u32(#[trigger] fs[j]) == Some(vals@[j]),
        decreases fields.len() - k,
    {
        match parse_u32(&fields[k]) {
            Some(v) => {
                vals.push(v);
            },
            None => {
                assert(spec_parse_u32(fs[k as int]) is None);
                assert(!all_numbers(fs));
                return None;
            },
        }
        k = k + 1;
    }
    assert(all_numbers(fs));
    assert(number(fs[0]) == vals@[0]);
    assert(number(fs[1]) == vals@[1]);
    Some((vals[0], vals[1]))
}

/// Answers the ranges that `input` asks for, as the program writes them.
pub fn program(input: &[u8]) -> (r: Option<Vec<u8>>)
    ensures
        match r {
            Some(v) => spec_program(input@) == Some(v@),
            None => spec_program(input@) is None,
        },
{
    let ls = split_lines(input);
    let ghost all = ls@.map_values(|v: Vec<u8>| v@);
    let ghost queries = if all.len() == 0 {
        all
    } else {
        all.drop_first()
    };
    let start: usize = if ls.len() == 0 {
        0
    } else {
        1
    };
    let mut out: Vec<u8> = Vec::new();
    let mut i: usize = start;
    assert(queries.take(0) =~= Seq::<Seq<u8>>::empty());
    while i < ls.len()
        invariant
            start <= i <= ls.len(),
            all == ls@.map_values(|v: Vec<u8>| v@),
            all == lines(input@),
            start == (if all.len() == 0 { 0usize } else { 1usize }),
            queries == (if all.len() == 0 { all } else { all.drop_first() }),
            spec_answers(queries.take(i - start)) == Some(out@),
        decreases ls.len() - i,
    {
        let ghost q = queries.take(i - start + 1);
        assert(q.drop_last() =~= queries.take(i - start));
        assert(q.last() == ls@[i as int]@);
        let ghost before = out@;
        match range_line(&ls[i]) {
            None => {
                proof {
                    assert(spec_range_line(q.last()) is None);
                    assert(spec_answers(q) is None);
                    lemma_no_answer_extends(queries, i - start + 1);
                    assert(spec_answers(queries) is None);
                }
                return None;
            },
            Some((m, n)) => {
                let ps = solve(m, n);
                let mut j: usize = 0;
                while j < ps.len()
                    invariant
                        j <= ps.len(),
                        out@ == before + concat(ps@.take(j as int).map_values(|p: u32| spec_decimal(p as nat).push(NEWLINE))),
                    decreases ps.len() - j,
                {
                    let ghost mid = out@;
                    let d = decimal(ps[j] as usize);
                    let mut k: usize = 0;
                    while k < d.len()
                        invariant
                            k <= d.len(),
                            out@ == mid + d@.take(k as int),
                        decreases d.len() - k,
                    {
                        out.push(d[k]);
                        k = k + 1;
                        assert(out@ =~= mid + d@.take(k as int));
                    }
                    out.push(NEWLINE);
                    let ghost pieces = ps@.take(j + 1).map_values(|p: u32| spec_decimal(p as nat).push(NEWLINE));
                    assert(pieces.drop_last() =~= ps@.take(j as int).map_values(|p: u32| spec_decimal(p as nat).push(NEWLINE)));
                    assert(d@.take(d.len() as int) =~= d@);
                    assert(out@ =~= before + concat(pieces));
                    j = j + 1;
                }
                out.push(NEWLINE);
                assert(ps@.take(ps.len() as int) =~= ps@);
                assert(out@ =~= before + primes_text(primes_between(m, n)));
            },
        }
        i = i + 1;
    }
    assert(queries.take(i - start) =~= queries);
    Some(trimmed(&out))
}

} // verus!
