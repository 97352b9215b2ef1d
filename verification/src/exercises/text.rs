//! Reading the exercises' input and writing their output: lines, fields,
//! numbers and whitespace, as the standard library's string methods treat
//! ASCII text.
use vstd::prelude::*;

verus! {

pub const NEWLINE: u8 = 0x0A;

pub const CARRIAGE_RETURN: u8 = 0x0D;

pub const SPACE: u8 = 0x20;

/// The pieces of `s` between the bytes `sep`; there is always one more
/// piece than separators.
pub open spec fn split_on(s: Seq<u8>, sep: u8) -> Seq<Seq<u8>>
    decreases s.len(),
{
    if s.len() == 0 {
        seq![Seq::<u8>::empty()]
    } else {
        let p = split_on(s.drop_last(), sep);
        if s.last() == sep {
            p.push(Seq::<u8>::empty())
        } else {
            p.update(p.len() - 1, p.last().push(s.last()))
        }
    }
}

pub proof fn lemma_split_on_nonempty(s: Seq<u8>, sep: u8)
    ensures
        split_on(s, sep).len() >= 1,
    decreases s.len(),
{
    if s.len() > 0 {
        lemma_split_on_nonempty(s.drop_last(), sep);
    }
}

/// A line without the carriage return that ended it.
pub open spec fn strip_cr(l: Seq<u8>) -> Seq<u8> {
    if l.len() > 0 && l.last() == CARRIAGE_RETURN {
        l.drop_last()
    } else {
        l
    }
}

/// The lines of `s`: the pieces between line feeds, each without the
/// carriage return before its line feed; a final line feed ends the last
/// line and starts none.
pub open spec fn lines(s: Seq<u8>) -> Seq<Seq<u8>> {
    let p = split_on(s, NEWLINE);
    let ended = p.drop_last().map_values(|l: Seq<u8>| strip_cr(l));
    if p.last().len() == 0 {
        ended
    } else {
        ended.push(p.last())
    }
}

/// ASCII whitespace: space, tab, line feed, vertical tab, form feed and
/// carriage return.
pub open spec fn is_space(b: u8) -> bool {
    b == SPACE || (0x09 <= b && b <= 0x0D)
}

pub open spec fn trim_start(s: Seq<u8>) -> Seq<u8>
    decreases s.len(),
{
    if s.len() > 0 && is_space(s[0]) {
        trim_start(s.drop_first())
    } else {
        s
    }
}

pub open spec fn trim_end(s: Seq<u8>) -> Seq<u8>
    decreases s.len(),
{
    if s.len() > 0 && is_space(s.last()) {
        trim_end(s.drop_last())
    } else {
        s
    }
}

/// `s` without the whitespace at either end.
pub open spec fn trim(s: Seq<u8>) -> Seq<u8> {
    trim_end(trim_start(s))
}

pub open spec fn is_digit(b: u8) -> bool {
    0x30 <= b && b <= 0x39
}

/// The number that the decimal digits `s` write.
pub open spec fn digits_value(s: Seq<u8>) -> nat
    decreases s.len(),
{
    if s.len() == 0 {
        0
    } else {
        digits_value(s.drop_last()) * 10 + (s.last() - 0x30) as nat
    }
}

/// Whether every byte of `d` is a decimal digit.
pub open spec fn all_digits(d: Seq<u8>) -> bool {
    forall|i: int| 0 <= i < d.len() ==> is_digit(#[trigger] d[i])
}

/// `s` without the plus sign in front, if it has one.
pub open spec fn unsigned_part(s: Seq<u8>) -> Seq<u8> {
    if s.len() > 0 && s[0] == 0x2B {
        s.drop_first()
    } else {
        s
    }
}

/// The `u32` that `s` writes: an optional plus sign and at least one
/// decimal digit, and nothing else, of a value that fits.
pub open spec fn spec_parse_u32(s: Seq<u8>) -> Option<u32> {
    let d = unsigned_part(s);
    if d.len() > 0 && all_digits(d) && digits_value(d) <= u32::MAX {
        Some(digits_value(d) as u32)
    } else {
        None
    }
}

/// The pieces one after the other.
pub open spec fn concat(ps: Seq<Seq<u8>>) -> Seq<u8>
    decreases ps.len(),
{
    if ps.len() == 0 {
        Seq::empty()
    } else {
        concat(ps.drop_last()) + ps.last()
    }
}

/// The pieces of `s` between the bytes `sep`.
pub fn split(s: &[u8], sep: u8) -> (r: Vec<Vec<u8>>)
    ensures
        r@.map_values(|v: Vec<u8>| v@) == split_on(s@, sep),
{
    let mut pieces: Vec<Vec<u8>> = Vec::new();
    let mut cur: Vec<u8> = Vec::new();
    let mut i: usize = 0;
    assert(s@.take(0) =~= Seq::<u8>::empty());
    assert(pieces@.map_values(|v: Vec<u8>| v@).push(cur@) =~= split_on(s@.take(0), sep));
    while i < s.len()
        invariant
            i <= s.len(),
            pieces@.map_values(|v: Vec<u8>| v@).push(cur@) == split_on(s@.take(i as int), sep),
        decreases s.len() - i,
    {
        let ghost before = pieces@.map_values(|v: Vec<u8>| v@).push(cur@);
        assert(s@.take(i + 1).drop_last() =~= s@.take(i as int));
        if s[i] == sep {
            pieces.push(cur);
            cur = Vec::new();
            assert(pieces@.map_values(|v: Vec<u8>| v@).push(cur@) =~= before.push(Seq::<u8>::empty()));
        } else {
            cur.push(s[i]);
            assert(pieces@.map_values(|v: Vec<u8>| v@).push(cur@) =~= before.update(
                before.len() - 1,
                before.last().push(s[i as int]),
            ));
        }
        i = i + 1;
    }
    assert(s@.take(i as int) =~= s@);
    pieces.push(cur);
    assert(pieces@.map_values(|v: Vec<u8>| v@) =~= split_on(s@, sep));
    pieces
}

/// The lines of `s`.
pub fn split_lines(s: &[u8]) -> (r: Vec<Vec<u8>>)
    ensures
        r@.map_values(|v: Vec<u8>| v@) == lines(s@),
{
    let pieces = split(s, NEWLINE);
    proof {
        lemma_split_on_nonempty(s@, NEWLINE);
    }
    let ghost p = split_on(s@, NEWLINE);
    let n = pieces.len();
    let mut out: Vec<Vec<u8>> = Vec::new();
    let mut i: usize = 0;
    while i + 1 < n
        invariant
            n == pieces.len(),
            n == p.len(),
            n >= 1,
            i + 1 <= n,
            pieces@.map_values(|v: Vec<u8>| v@) == p,
            out@.map_values(|v: Vec<u8>| v@) == p.take(i as int).map_values(|l: Seq<u8>| strip_cr(l)),
        decreases n - i,
    {
        let l = &pieces[i];
        assert(l@ == p[i as int]);
        let mut line: Vec<u8> = Vec::new();
        let k = if l.len() > 0 && l[l.len() - 1] == CARRIAGE_RETURN {
            l.len() - 1
        } else {
            l.len()
        };
        let mut j: usize = 0;
        while j < k
            invariant
                j <= k <= l.len(),
                line@ == l@.take(j as int),
            decreases k - j,
        {
            line.push(l[j]);
            j = j + 1;
            assert(line@ =~= l@.take(j as int));
        }
        assert(line@ =~= strip_cr(l@));
        let ghost before = out@.map_values(|v: Vec<u8>| v@);
        out.push(line);
        assert(out@.map_values(|v: Vec<u8>| v@) =~= before.push(strip_cr(p[i as int])));
        assert(p.take(i + 1) =~= p.take(i as int).push(p[i as int]));
        i = i + 1;
        assert(out@.map_values(|v: Vec<u8>| v@) =~= p.take(i as int).map_values(|l: Seq<u8>| strip_cr(l)));
    }
    assert(p.take(i as int) =~= p.drop_last());
    let last = &pieces[n - 1];
    assert(last@ == p.last());
    if last.len() > 0 {
        let mut line: Vec<u8> = Vec::new();
        let mut j: usize = 0;
        while j < last.len()
            invariant
                j <= last.len(),
                line@ == last@.take(j as int),
            decreases last.len() - j,
        {
            line.push(last[j]);
            j = j + 1;
            assert(line@ =~= last@.take(j as int));
        }
        assert(line@ =~= last@);
        let ghost before = out@.map_values(|v: Vec<u8>| v@);
        out.push(line);
        assert(out@.map_values(|v: Vec<u8>| v@) =~= before.push(p.last()));
    }
    out
}

/// `s` without the whitespace at either end.
pub fn trimmed(s: &[u8]) -> (r: Vec<u8>)
    ensures
        r@ == trim(s@),
{
    let mut i: usize = 0;
    assert(s@.skip(0) =~= s@);
    while i < s.len() && (s[i] == SPACE || (0x09 <= s[i] && s[i] <= 0x0D))
        invariant
            i <= s.len(),
            trim_start(s@) == trim_start(s@.skip(i as int)),
        decreases s.len() - i,
    {
        assert(s@.skip(i as int).drop_first() =~= s@.skip(i + 1));
        i = i + 1;
    }
    let ghost t = s@.skip(i as int);
    assert(trim_start(s@) == t);
    let mut j: usize = s.len();
    assert(t.take(t.len() as int) =~= t);
    while j > i && (s[j - 1] == SPACE || (0x09 <= s[j - 1] && s[j - 1] <= 0x0D))
        invariant
            i <= j <= s.len(),
            t == s@.skip(i as int),
            trim_end(t) == trim_end(t.take(j - i)),
        decreases j,
    {
        assert(t.take(j - i).drop_last() =~= t.take(j - i - 1));
        assert(t.take(j - i).last() == s[j - 1]);
        j = j - 1;
    }
    let mut r: Vec<u8> = Vec::new();
    let mut k: usize = i;
    while k < j
        invariant
            i <= k <= j <= s.len(),
            r@ == s@.subrange(i as int, k as int),
        decreases j - k,
    {
        r.push(s[k]);
        k = k + 1;
        assert(r@ =~= s@.subrange(i as int, k as int));
    }
    assert(t.take(j - i) =~= s@.subrange(i as int, j as int));
    r
}

/// The `u32` that `s` writes, if it writes one.
pub fn parse_u32(s: &[u8]) -> (r: Option<u32>)
    ensures
        r == spec_parse_u32(s@),
{
    let start: usize = if s.len() > 0 && s[0] == 0x2B {
        1
    } else {
        0
    };
    let ghost d = unsigned_part(s@);
    assert(d =~= s@.skip(start as int));
    if start == s.len() {
        return None;
    }
    let mut acc: u64 = 0;
    let mut over = false;
    let mut i: usize = start;
    assert(d.take(0) =~= Seq::<u8>::empty());
    while i < s.len()
        invariant
            start <= i <= s.len(),
            d == s@.skip(start as int),
            d == unsigned_part(s@),
            forall|k: int| 0 <= k < i - start ==> is_digit(#[trigger] d[k]),
            !over ==> acc == digits_value(d.take(i - start)) && acc <= u32::MAX,
            over ==> digits_value(d.take(i - start)) > u32::MAX,
        decreases s.len() - i,
    {
        let b = s[i];
        if !(0x30 <= b && b <= 0x39) {
            proof {
                let k: int = i - start;
                assert(!is_digit(d[k]));
                assert(!all_digits(d));
            }
            return None;
        }
        assert(d.take(i - start + 1).drop_last() =~= d.take(i - start));
        assert(d.take(i - start + 1).last() == b);
        if !over {
            let next = acc * 10 + (b - 0x30) as u64;
            if next > 0xFFFF_FFFF {
                over = true;
            } else {
                acc = next;
            }
        }
        i = i + 1;
    }
    assert(d.take(i - start) =~= d);
    assert(all_digits(d));
    if over {
        None
    } else {
        Some(acc as u32)
    }
}

/// The `u32`s that the fields write, if every one writes one.
pub open spec fn spec_parse_all(fs: Seq<Seq<u8>>) -> Option<Seq<u32>>
    decreases fs.len(),
{
    if fs.len() == 0 {
        Some(Seq::empty())
    } else {
        match (spec_parse_all(fs.drop_last()), spec_parse_u32(fs.last())) {
            (Some(vs), Some(v)) => Some(vs.push(v)),
            _ => None,
        }
    }
}

proof fn lemma_parse_all_fails_on(fs: Seq<Seq<u8>>, k: int)
    requires
        0 <= k <= fs.len(),
        spec_parse_all(fs.take(k)) is None,
    ensures
        spec_parse_all(fs) is None,
    decreases fs.len() - k,
{
    if k < fs.len() {
        assert(fs.take(k + 1).drop_last() =~= fs.take(k));
        lemma_parse_all_fails_on(fs, k + 1);
    } else {
        assert(fs.take(k) =~= fs);
    }
}

/// The numbers in `s`, trimmed, between the bytes `sep`, if every piece
/// writes a `u32`.
pub fn parse_fields(s: &[u8], sep: u8) -> (r: Option<Vec<u32>>)
    ensures
        match r {
            Some(v) => spec_parse_all(split_on(trim(s@), sep)) == Some(v@),
            None => spec_parse_all(split_on(trim(s@), sep)) is None,
        },
{
    let t = trimmed(s);
    let fields = split(&t, sep);
    let ghost fs = fields@.map_values(|v: Vec<u8>| v@);
    let mut vals: Vec<u32> = Vec::new();
    let mut k: usize = 0;
    assert(fs.take(0) =~= Seq::<Seq<u8>>::empty());
    while k < fields.len()
        invariant
            k <= fields.len(),
            fs == fields@.map_values(|v: Vec<u8>| v@),
            fs == split_on(trim(s@), sep),
            spec_parse_all(fs.take(k as int)) == Some(vals@),
        decreases fields.len() - k,
    {
        assert(fs.take(k + 1).drop_last() =~= fs.take(k as int));
        assert(fs.take(k + 1).last() == fields[k as int]@);
        match parse_u32(&fields[k]) {
            Some(v) => {
                vals.push(v);
            },
            None => {
                proof {
                    lemma_parse_all_fails_on(fs, k + 1);
                }
                return None;
            },
        }
        k = k + 1;
    }
    assert(fs.take(k as int) =~= fs);
    Some(vals)
}

/// The `i32` that `s` writes: an optional sign and at least one decimal
/// digit, and nothing else, of a value that fits.
pub open spec fn spec_parse_i32(s: Seq<u8>) -> Option<i32> {
    if s.len() > 0 && s[0] == 0x2D {
        let d = s.drop_first();
        if d.len() > 0 && all_digits(d) && digits_value(d) <= 0x8000_0000 {
            Some((0 - digits_value(d)) as i32)
        } else {
            None
        }
    } else {
        match spec_parse_u32(s) {
            Some(v) => if v <= i32::MAX {
                Some(v as i32)
            } else {
                None
            },
            None => None,
        }
    }
}

/// The `i32` that `s` writes, if it writes one.
pub fn parse_i32(s: &[u8]) -> (r: Option<i32>)
    ensures
        r == spec_parse_i32(s@),
{
    if s.len() > 0 && s[0] == 0x2D {
        let ghost d = s@.drop_first();
        if s.len() == 1 || s[1] == 0x2B {
            if s.len() > 1 {
                assert(!is_digit(d[0]));
                assert(!all_digits(d));
            }
            return None;
        }
        let mut rest: Vec<u8> = Vec::new();
        let mut i: usize = 1;
        while i < s.len()
            invariant
                1 <= i <= s.len(),
                rest@ == s@.subrange(1, i as int),
            decreases s.len() - i,
        {
            rest.push(s[i]);
            i = i + 1;
            assert(rest@ =~= s@.subrange(1, i as int));
        }
        assert(rest@ =~= d);
        assert(unsigned_part(d) == d);
        match parse_u32(&rest) {
            Some(v) => {
                if v <= 0x8000_0000 {
                    let w: i64 = 0i64 - v as i64;
                    Some(w as i32)
                } else {
                    None
                }
            },
            None => None,
        }
    } else {
        match parse_u32(s) {
            Some(v) => {
                if v <= 0x7FFF_FFFF {
                    Some(v as i32)
                } else {
                    None
                }
            },
            None => None,
        }
    }
}

/// The `i32`s that the fields write, if every one writes one.
pub open spec fn spec_parse_all_i32(fs: Seq<Seq<u8>>) -> Option<Seq<i32>>
    decreases fs.len(),
{
    if fs.len() == 0 {
        Some(Seq::empty())
    } else {
        match (spec_parse_all_i32(fs.drop_last()), spec_parse_i32(fs.last())) {
            (Some(vs), Some(v)) => Some(vs.push(v)),
            _ => None,
        }
    }
}

proof fn lemma_parse_all_i32_fails_on(fs: Seq<Seq<u8>>, k: int)
    requires
        0 <= k <= fs.len(),
        spec_parse_all_i32(fs.take(k)) is None,
    ensures
        spec_parse_all_i32(fs) is None,
    decreases fs.len() - k,
{
    if k < fs.len() {
        assert(fs.take(k + 1).drop_last() =~= fs.take(k));
        lemma_parse_all_i32_fails_on(fs, k + 1);
    } else {
        assert(fs.take(k) =~= fs);
    }
}

/// The `i32`s in `s`, trimmed, between the bytes `sep`, if every piece
/// writes one.
pub fn parse_fields_i32(s: &[u8], sep: u8) -> (r: Option<Vec<i32>>)
    ensures
        match r {
            Some(v) => spec_parse_all_i32(split_on(trim(s@), sep)) == Some(v@),
            None => spec_parse_all_i32(split_on(trim(s@), sep)) is None,
        },
{
    let t = trimmed(s);
    let fields = split(&t, sep);
    let ghost fs = fields@.map_values(|v: Vec<u8>| v@);
    let mut vals: Vec<i32> = Vec::new();
    let mut k: usize = 0;
    assert(fs.take(0) =~= Seq::<Seq<u8>>::empty());
    while k < fields.len()
        invariant
            k <= fields.len(),
            fs == fields@.map_values(|v: Vec<u8>| v@),
            fs == split_on(trim(s@), sep),
            spec_parse_all_i32(fs.take(k as int)) == Some(vals@),
        decreases fields.len() - k,
    {
        assert(fs.take(k + 1).drop_last() =~= fs.take(k as int));
        assert(fs.take(k + 1).last() == fields[k as int]@);
        match parse_i32(&fields[k]) {
            Some(v) => {
                vals.push(v);
            },
            None => {
                proof {
                    lemma_parse_all_i32_fails_on(fs, k + 1);
                }
                return None;
            },
        }
        k = k + 1;
    }
    assert(fs.take(k as int) =~= fs);
    Some(vals)
}

} // verus!
