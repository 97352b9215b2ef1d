//! The `feefilter` payload: the lowest fee rate, in satoshis per kilobyte, of the transactions a peer wants relayed.
use vstd::prelude::*;
use vstd::bytes::*;
use crate::codec::wire::{CodecError, outcome, ends_within, spec_u64_le, read_u64_le, put_u64_le};

verus! {

#[derive(Debug, Clone, Copy, PartialEq, Eq, Structural)]
pub struct FeeFilter {
    pub fee_rate: u64,
}

impl View for FeeFilter {
    type V = FeeFilter;

    open spec fn view(&self) -> FeeFilter {
        *self
    }
}

impl FeeFilter {
    pub open spec fn spec_parse(s: Seq<u8>) -> Result<(FeeFilter, nat), CodecError> {
        match spec_u64_le(s) {
            Err(e) => Err(e),
            Ok((fee_rate, n)) => Ok((FeeFilter { fee_rate }, n)),
        }
    }

    pub open spec fn spec_bytes(self) -> Seq<u8> {
        spec_u64_to_le_bytes(self.fee_rate)
    }

    /// Decodes the little-endian fee rate at `pos`.
    pub fn new(bytes: &[u8], pos: usize) -> (r: Result<(FeeFilter, usize), CodecError>)
        requires
            pos <= bytes@.len(),
        ensures
            outcome(r, pos) == FeeFilter::spec_parse(bytes@.skip(pos as int)),
            ends_within(r, pos, bytes@.len()),
    {
        let (fee_rate, p) = read_u64_le(bytes, pos)?;
        Ok((FeeFilter { fee_rate }, p))
    }

    pub fn into_bytes(&self) -> (r: Result<Vec<u8>, CodecError>)
        ensures
            r matches Ok(v) && v@ == self.spec_bytes(),
    {
        let mut wtr: Vec<u8> = Vec::new();
        put_u64_le(&mut wtr, self.fee_rate);
        assert(wtr@ =~= self.spec_bytes());
        Ok(wtr)
    }
}

/// Reading back a written fee_filter gives it back and consumes its eight bytes,
/// whatever follows them.
pub proof fn lemma_fee_filter_round_trip(v: FeeFilter, rest: Seq<u8>)
    ensures
        FeeFilter::spec_parse(v.spec_bytes() + rest) == Ok::<(FeeFilter, nat), CodecError>((v, 8)),
{
    lemma_auto_spec_u64_to_from_le_bytes();
    assert(spec_u64_to_le_bytes(v.fee_rate).len() == 8);
    assert((v.spec_bytes() + rest).take(8) =~= spec_u64_to_le_bytes(v.fee_rate));
}

} // verus!
