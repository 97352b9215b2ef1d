//! The `ping` payload: a nonce that the `pong` answer echoes.
use vstd::prelude::*;
use vstd::bytes::*;
use crate::codec::wire::{CodecError, outcome, ends_within, spec_u64_le, read_u64_le, put_u64_le};

verus! {

#[derive(Debug, Clone, Copy, PartialEq, Eq, Structural)]
pub struct Ping {
    pub nonce: u64,
}

impl View for Ping {
    type V = Ping;

    open spec fn view(&self) -> Ping {
        *self
    }
}

impl Ping {
    pub open spec fn spec_parse(s: Seq<u8>) -> Result<(Ping, nat), CodecError> {
        match spec_u64_le(s) {
            Err(e) => Err(e),
            Ok((nonce, n)) => Ok((Ping { nonce }, n)),
        }
    }

    pub open spec fn spec_bytes(self) -> Seq<u8> {
        spec_u64_to_le_bytes(self.nonce)
    }

    /// Decodes the little-endian nonce at `pos`.
    pub fn new(bytes: &[u8], pos: usize) -> (r: Result<(Ping, usize), CodecError>)
        requires
            pos <= bytes@.len(),
        ensures
            outcome(r, pos) == Ping::spec_parse(bytes@.skip(pos as int)),
            ends_within(r, pos, bytes@.len()),
    {
        let (nonce, p) = read_u64_le(bytes, pos)?;
        Ok((Ping { nonce }, p))
    }

    pub fn into_bytes(&self) -> (r: Result<Vec<u8>, CodecError>)
        ensures
            r matches Ok(v) && v@ == self.spec_bytes(),
    {
        let mut wtr: Vec<u8> = Vec::new();
        put_u64_le(&mut wtr, self.nonce);
        assert(wtr@ =~= self.spec_bytes());
        Ok(wtr)
    }
}

/// Reading back a written ping gives it back and consumes its eight bytes,
/// whatever follows them.
pub proof fn lemma_ping_round_trip(v: Ping, rest: Seq<u8>)
    ensures
        Ping::spec_parse(v.spec_bytes() + rest) == Ok::<(Ping, nat), CodecError>((v, 8)),
{
    lemma_auto_spec_u64_to_from_le_bytes();
    assert(spec_u64_to_le_bytes(v.nonce).len() == 8);
    assert((v.spec_bytes() + rest).take(8) =~= spec_u64_to_le_bytes(v.nonce));
}

} // verus!
