//! The framing of an admin connection: lines ended by a carriage return and
//! a line feed. The connection belongs to the caller, who feeds what it
//! reads and writes what this buffer hands out.
use vstd::prelude::*;
use crate::codec::wire::{push_all, read_upto};

verus! {

pub struct Lines {
    rd: Vec<u8>,
    wr: Vec<u8>,
}

pub struct LinesView {
    pub rd: Seq<u8>,
    pub wr: Seq<u8>,
}

impl View for Lines {
    type V = LinesView;

    closed spec fn view(&self) -> LinesView {
        LinesView { rd: self.rd@, wr: self.wr@ }
    }
}

/// Whether a line end starts at `i`.
pub open spec fn crlf_at(s: Seq<u8>, i: int) -> bool {
    0 <= i && i + 1 < s.len() && s[i] == 0x0Du8 && s[i + 1] == 0x0Au8
}

/// The position of the first line end in `s`.
#[verifier::opaque]
pub open spec fn first_crlf(s: Seq<u8>) -> Option<int> {
    if exists|i: int| crlf_at(s, i) {
        Some(choose|i: int| crlf_at(s, i) && forall|j: int| 0 <= j < i ==> !crlf_at(s, j))
    } else {
        None
    }
}

/// A first line end exists wherever a line end does.
proof fn lemma_first_crlf(s: Seq<u8>, i: int)
    requires
        crlf_at(s, i),
        forall|j: int| 0 <= j < i ==> !crlf_at(s, j),
    ensures
        first_crlf(s) == Some(i),
{
    reveal(first_crlf);
    let k = choose|k: int| crlf_at(s, k) && forall|j: int| 0 <= j < k ==> !crlf_at(s, j);
    assert(crlf_at(s, k) && forall|j: int| 0 <= j < k ==> !crlf_at(s, j));
    if k < i {
        assert(!crlf_at(s, k));
    } else if k > i {
        assert(!crlf_at(s, i));
    }
}

impl Lines {
    pub fn new() -> (r: Lines)
        ensures
            r@.rd == Seq::<u8>::empty(),
            r@.wr == Seq::<u8>::empty(),
    {
        Lines { rd: Vec::new(), wr: Vec::new() }
    }

    /// Queues `bytes` for writing.
    pub fn buffer(&mut self, bytes: &[u8])
        ensures
            final(self)@.wr == old(self)@.wr + bytes@,
            final(self)@.rd == old(self)@.rd,
    {
        push_all(&mut self.wr, bytes);
    }

    /// The bytes queued for writing.
    pub fn pending_write(&self) -> (r: &[u8])
        ensures
            r@ == self@.wr,
    {
        self.wr.as_slice()
    }

    /// Forgets the first `n` queued bytes, once the connection took them.
    pub fn written(&mut self, n: usize)
        requires
            0 < n <= old(self)@.wr.len(),
        ensures
            final(self)@.wr == old(self)@.wr.skip(n as int),
            final(self)@.rd == old(self)@.rd,
    {
        let (rest, _) = read_upto(self.wr.as_slice(), n, self.wr.len() - n);
        assert(rest@ =~= old(self)@.wr.skip(n as int));
        self.wr = rest;
    }

    /// Appends bytes read from the connection.
    pub fn fill_read_buf(&mut self, bytes: &[u8])
        ensures
            final(self)@.rd == old(self)@.rd + bytes@,
            final(self)@.wr == old(self)@.wr,
    {
        push_all(&mut self.rd, bytes);
    }

    /// The next whole line, without its line end, if one is there.
    pub fn poll_line(&mut self) -> (r: Option<Vec<u8>>)
        ensures
            final(self)@.wr == old(self)@.wr,
            match first_crlf(old(self)@.rd) {
                None => r is None && final(self)@.rd == old(self)@.rd,
                Some(i) => {
                    &&& (r matches Some(line) && line@ == old(self)@.rd.take(i))
                    &&& final(self)@.rd == old(self)@.rd.skip(i + 2)
                },
            },
    {
        let found = find_crlf(self.rd.as_slice());
        match found {
            None => None,
            Some(i) => {
                let ghost s = self.rd@;
                assert(i + 2 <= self.rd.len());
                let (line, _) = read_upto(self.rd.as_slice(), 0, i);
                assert(s.skip(0) =~= s);
                assert(line@ =~= s.take(i as int));
                let (rest, _) = read_upto(self.rd.as_slice(), i + 2, self.rd.len() - (i + 2));
                assert(rest@ =~= s.skip(i + 2));
                self.rd = rest;
                Some(line)
            },
        }
    }
}

/// The position of the first line end in `s`.
fn find_crlf(s: &[u8]) -> (r: Option<usize>)
    ensures
        match r {
            None => first_crlf(s@) is None,
            Some(i) => first_crlf(s@) == Some(i as int) && i + 2 <= s@.len(),
        },
{
    let mut i: usize = 0;
    while i < s.len()
        invariant
            i <= s.len(),
            forall|j: int| 0 <= j < i ==> !crlf_at(s@, j),
        decreases s.len() - i,
    {
        if i + 1 < s.len() && s[i] == 0x0Du8 && s[i + 1] == 0x0Au8 {
            proof {
                lemma_first_crlf(s@, i as int);
            }
            return Some(i);
        }
        i = i + 1;
    }
    assert(forall|j: int| !crlf_at(s@, j));
    proof {
        reveal(first_crlf);
    }
    None
}

} // verus!
