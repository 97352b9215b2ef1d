//! The `pong` payload: the nonce of the `ping` it answers.
use vstd::prelude::*;
use vstd::bytes::*;
use crate::codec::wire::{CodecError, outcome, ends_within, spec_u64_le, read_u64_le, put_u64_le};

verus! {

#[derive(Debug, Clone, Copy, PartialEq, Eq, Structural)]
pub struct Pong {
    pub nonce: u64,
}

impl View for Pong {
    type V = Pong;

    open spec fn view(&self) -> Pong {
        *self
    }
}

impl Pong {
    pub open spec fn spec_parse(s: Seq<u8>) -> Result<(Pong, nat), CodecError> {
        match spec_u64_le(s) {
            Err(e) => Err(e),
            Ok((nonce, n)) => Ok((Pong { nonce }, n)),
        }
    }

    pub open spec fn spec_bytes(self) -> Seq<u8> {
        spec_u64_to_le_bytes(self.nonce)
    }

    /// Decodes the little-endian nonce at `pos`.
    pub fn new(bytes: &[u8], pos: usize) -> (r: Result<(Pong, usize), CodecError>)
        requires
            pos <= bytes@.len(),
        ensures
            outcome(r, pos) == Pong::spec_parse(bytes@.skip(pos as int)),
            ends_within(r, pos, bytes@.len()),
    {
        let (nonce, p) = read_u64_le(bytes, pos)?;
        Ok((Pong { nonce }, p))
    }

    pub fn into_bytes(&self) -> (r: Result<Vec<u8>, CodecError>)
        ensures
            r matches Ok(v) && v@ == self.spec_bytes(),
    {
        let mut wtr: Vec<u8> = Vec::new();
        put_u64_le(&mut wtr, self.nonce);
        assert(wtr@ =~= self.spec_bytes());
        Ok(wtr)
    }
}

/// Reading back a written pong gives it back and consumes its eight bytes,
/// whatever follows them.
pub proof fn lemma_pong_round_trip(v: Pong, rest: Seq<u8>)
    ensures
        Pong::spec_parse(v.spec_bytes() + rest) == Ok::<(Pong, nat), CodecError>((v, 8)),
{
    lemma_auto_spec_u64_to_from_le_bytes();
    assert(spec_u64_to_le_bytes(v.nonce).len() == 8);
    assert((v.spec_bytes() + rest).take(8) =~= spec_u64_to_le_bytes(v.nonce));
}

} // verus!
