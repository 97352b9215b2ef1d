//! The `headers` payload: a list of block headers.
pub mod block_headers;

use vstd::prelude::*;
use crate::codec::wire::{CodecError, outcome, ends_within, spec_decode_list, spec_encode_list, decode_list, encode_list, views, lemma_list_round_trip};
use crate::codec::commons::var_uint::{VarUint, lemma_var_uint_round_trip};
use crate::codec::payload::headers::block_headers::{BlockHeaders, BlockHeadersView};

verus! {

/// A count, then that many block headers.
#[derive(Debug, Clone)]
pub struct Headers {
    pub count: VarUint,
    pub headers: Vec<BlockHeaders>,
}

pub struct HeadersView {
    pub count: VarUint,
    pub headers: Seq<BlockHeadersView>,
}

impl View for Headers {
    type V = HeadersView;

    open spec fn view(&self) -> HeadersView {
        HeadersView { count: self.count, headers: views(self.headers@) }
    }
}

impl HeadersView {
    pub open spec fn spec_bytes(self) -> Seq<u8> {
        self.count.spec_bytes() + spec_encode_list::<BlockHeaders>(self.headers)
    }

    pub open spec fn round_trips(self) -> bool {
        &&& self.count.round_trips()
        &&& self.count.spec_as_usize() matches Some(n) && n as nat == self.headers.len()
        &&& forall|i: int|
            0 <= i < self.headers.len() ==> (#[trigger] self.headers[i]).round_trips()
    }
}

impl Headers {
    pub open spec fn spec_parse(s: Seq<u8>) -> Result<(HeadersView, nat), CodecError> {
        match VarUint::spec_parse(s) {
            Err(e) => Err(e),
            Ok((count, n1)) => match count.spec_as_usize() {
                None => Err(CodecError::LengthTooBig),
                Some(c) => match spec_decode_list::<BlockHeaders>(s.skip(n1 as int), c as nat) {
                    Err(e) => Err(e),
                    Ok((headers, n2)) => Ok((HeadersView { count, headers }, n1 + n2)),
                },
            },
        }
    }

    pub fn new(bytes: &[u8], pos: usize) -> (r: Result<(Headers, usize), CodecError>)
        requires
            pos <= bytes@.len(),
        ensures
            outcome(r, pos) == Headers::spec_parse(bytes@.skip(pos as int)),
            ends_within(r, pos, bytes@.len()),
    {
        let (count, p) = VarUint::new(bytes, pos)?;
        let c = match count.as_usize() {
            Some(c) => c,
            None => {
                return Err(CodecError::LengthTooBig);
            },
        };
        assert(bytes@.skip(p as int) =~= bytes@.skip(pos as int).skip((p - pos) as int));
        let (headers, p) = decode_list::<BlockHeaders>(bytes, p, c)?;
        Ok((Headers { count, headers }, p))
    }

    pub fn into_bytes(&self) -> (r: Result<Vec<u8>, CodecError>)
        ensures
            r matches Ok(v) && v@ == self@.spec_bytes(),
    {
        let mut wtr: Vec<u8> = Vec::new();
        self.write_to(&mut wtr);
        assert(wtr@ =~= self@.spec_bytes());
        Ok(wtr)
    }

    pub fn write_to(&self, out: &mut Vec<u8>)
        ensures
            final(out)@ == old(out)@ + self@.spec_bytes(),
    {
        self.count.write_to(out);
        encode_list(&self.headers, out);
        assert(out@ =~= old(out)@ + self@.spec_bytes());
    }
}

/// Reading back a written `headers` payload that round-trips gives it back
/// and consumes exactly the written bytes, whatever follows them.
pub proof fn lemma_headers_round_trip(v: HeadersView, rest: Seq<u8>)
    requires
        v.round_trips(),
    ensures
        Headers::spec_parse(v.spec_bytes() + rest) == Ok::<(HeadersView, nat), CodecError>(
            (v, v.spec_bytes().len()),
        ),
{
    let a = v.count.spec_bytes();
    let b = spec_encode_list::<BlockHeaders>(v.headers);
    let s = v.spec_bytes() + rest;
    assert(s =~= a + (b + rest));
    lemma_var_uint_round_trip(v.count, b + rest);
    assert(s.skip(a.len() as int) =~= b + rest);
    lemma_list_round_trip::<BlockHeaders>(v.headers, rest);
}

} // verus!
