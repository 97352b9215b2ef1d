//! Byte strings with a variable-length integer in front.
use vstd::prelude::*;
use crate::codec::wire::{CodecError, outcome, ends_within, take_upto, read_upto, push_all};
use crate::codec::commons::var_uint::{VarUint, lemma_var_uint_round_trip, lemma_from_len_records_length};

verus! {

/// A length prefix and the bytes that follow it. When the input ends early,
/// the decoded string holds fewer bytes than its prefix announces.
#[derive(Debug, Clone)]
pub struct VarStr {
    length: VarUint,
    string: Vec<u8>,
}

pub struct VarStrView {
    pub length: VarUint,
    pub string: Seq<u8>,
}

impl View for VarStr {
    type V = VarStrView;

    closed spec fn view(&self) -> VarStrView {
        VarStrView { length: self.length, string: self.string@ }
    }
}

impl VarStrView {
    pub open spec fn spec_bytes(self) -> Seq<u8> {
        self.length.spec_bytes() + self.string
    }

    /// A write and a read give the string back unchanged.
    pub open spec fn round_trips(self) -> bool {
        &&& self.length.round_trips()
        &&& self.length.spec_as_usize() matches Some(l) && l as nat == self.string.len()
    }
}

impl VarStr {
    pub open spec fn spec_parse(s: Seq<u8>) -> Result<(VarStrView, nat), CodecError> {
        match VarUint::spec_parse(s) {
            Err(e) => Err(e),
            Ok((length, n)) => match length.spec_as_usize() {
                None => Err(CodecError::LengthTooBig),
                Some(slen) => {
                    let string = take_upto(s.skip(n as int), slen as nat);
                    Ok((VarStrView { length, string }, n + string.len()))
                },
            },
        }
    }

    /// Decodes the length prefix at `pos`, then takes at most that many bytes.
    pub fn new(bytes: &[u8], pos: usize) -> (r: Result<(VarStr, usize), CodecError>)
        requires
            pos <= bytes@.len(),
        ensures
            outcome(r, pos) == VarStr::spec_parse(bytes@.skip(pos as int)),
            ends_within(r, pos, bytes@.len()),
    {
        let (length, p1) = VarUint::new(bytes, pos)?;
        let slen = match length.as_usize() {
            Some(l) => l,
            None => {
                return Err(CodecError::LengthTooBig);
            },
        };
        let (string, p2) = read_upto(bytes, p1, slen);
        assert(bytes@.skip(p1 as int) =~= bytes@.skip(pos as int).skip((p1 - pos) as int));
        Ok((VarStr { length, string }, p2))
    }

    /// The byte string `bytes` behind its length prefix.
    pub fn from_bytes(bytes: &[u8]) -> (r: Result<VarStr, CodecError>)
        ensures
            r matches Ok(v) && v@ == (VarStrView {
                length: VarUint::spec_from_len(bytes@.len()),
                string: bytes@,
            }),
    {
        let length = VarUint::from_bytes(bytes);
        let mut string: Vec<u8> = Vec::new();
        push_all(&mut string, bytes);
        assert(string@ =~= bytes@);
        Ok(VarStr { length, string })
    }

    pub fn length(&self) -> (r: VarUint)
        ensures
            r == self@.length,
    {
        self.length
    }

    pub fn string(&self) -> (r: &Vec<u8>)
        ensures
            r@ == self@.string,
    {
        &self.string
    }

    pub fn into_bytes(&self) -> (r: Result<Vec<u8>, CodecError>)
        ensures
            r matches Ok(v) && v@ == self@.spec_bytes(),
    {
        let mut wtr: Vec<u8> = Vec::new();
        self.write_to(&mut wtr);
        assert(wtr@ =~= self@.spec_bytes());
        Ok(wtr)
    }

    pub fn write_to(&self, out: &mut Vec<u8>)
        ensures
            final(out)@ == old(out)@ + self@.spec_bytes(),
    {
        self.length.write_to(out);
        push_all(out, self.string.as_slice());
        assert(out@ =~= old(out)@ + self@.spec_bytes());
    }
}

/// Reading back a written string gives the same string and consumes exactly
/// the written bytes, whatever follows them, when its prefix records its
/// length.
pub proof fn lemma_var_str_round_trip(v: VarStrView, rest: Seq<u8>)
    requires
        v.round_trips(),
    ensures
        VarStr::spec_parse(v.spec_bytes() + rest) == Ok::<(VarStrView, nat), CodecError>(
            (v, v.spec_bytes().len()),
        ),
{
    let lb = v.length.spec_bytes();
    lemma_var_uint_round_trip(v.length, v.string + rest);
    assert(v.spec_bytes() + rest =~= lb + (v.string + rest));
    assert((v.spec_bytes() + rest).skip(lb.len() as int) =~= v.string + rest);
    assert(take_upto(v.string + rest, v.string.len()) =~= v.string);
}

/// A string built from bytes, fewer than 2^32 of them, reads back as itself.
pub proof fn lemma_from_bytes_round_trips(bytes: Seq<u8>)
    requires
        bytes.len() <= 0xFFFF_FFFF,
    ensures
        (VarStrView { length: VarUint::spec_from_len(bytes.len()), string: bytes }).round_trips(),
{
    lemma_from_len_records_length(bytes.len());
}

} // verus!
