//! Inventory vectors: the type of an object and its 32-byte hash.
use vstd::prelude::*;
use vstd::bytes::*;
use crate::codec::wire::{Wire, RoundTrip, CodecError, outcome, ends_within, take_upto, spec_u32_le, read_u32_le, read_upto, push_all, put_u32_le};

verus! {

/// The type of the hashed object, then its hash. When the input ends early
/// the decoded hash holds fewer than 32 bytes.
#[derive(Debug, Clone)]
pub struct Inventory {
    pub type_identifier: u32,
    pub hash: Vec<u8>,
}

pub struct InventoryView {
    pub type_identifier: u32,
    pub hash: Seq<u8>,
}

impl View for Inventory {
    type V = InventoryView;

    open spec fn view(&self) -> InventoryView {
        InventoryView { type_identifier: self.type_identifier, hash: self.hash@ }
    }
}

pub open spec fn hash_len() -> nat {
    32
}

impl InventoryView {
    pub open spec fn spec_bytes(self) -> Seq<u8> {
        spec_u32_to_le_bytes(self.type_identifier) + self.hash
    }

    pub open spec fn round_trips(self) -> bool {
        self.hash.len() == hash_len()
    }
}

impl Inventory {
    pub open spec fn spec_parse(s: Seq<u8>) -> Result<(InventoryView, nat), CodecError> {
        match spec_u32_le(s) {
            Err(e) => Err(e),
            Ok((type_identifier, n)) => {
                let hash = take_upto(s.skip(n as int), hash_len());
                Ok((InventoryView { type_identifier, hash }, n + hash.len()))
            },
        }
    }

    pub fn new(bytes: &[u8], pos: usize) -> (r: Result<(Inventory, usize), CodecError>)
        requires
            pos <= bytes@.len(),
        ensures
            outcome(r, pos) == Inventory::spec_parse(bytes@.skip(pos as int)),
            ends_within(r, pos, bytes@.len()),
    {
        let (type_identifier, p1) = read_u32_le(bytes, pos)?;
        let (hash, p2) = read_upto(bytes, p1, 32);
        assert(bytes@.skip(p1 as int) =~= bytes@.skip(pos as int).skip((p1 - pos) as int));
        Ok((Inventory { type_identifier, hash }, p2))
    }

    pub fn into_bytes(&self) -> (r: Result<Vec<u8>, CodecError>)
        ensures
            r matches Ok(v) && v@ == self@.spec_bytes(),
    {
        let mut wtr: Vec<u8> = Vec::new();
        self.write_to(&mut wtr);
        assert(wtr@ =~= self@.spec_bytes());
        Ok(wtr)
    }

    pub fn write_to(&self, out: &mut Vec<u8>)
        ensures
            final(out)@ == old(out)@ + self@.spec_bytes(),
    {
        put_u32_le(out, self.type_identifier);
        push_all(out, self.hash.as_slice());
        assert(out@ =~= old(out)@ + self@.spec_bytes());
    }
}

/// Reading back a written inventory vector with a full hash gives it back and
/// consumes exactly the written bytes, whatever follows them.
pub proof fn lemma_inventory_round_trip(v: InventoryView, rest: Seq<u8>)
    requires
        v.round_trips(),
    ensures
        Inventory::spec_parse(v.spec_bytes() + rest) == Ok::<(InventoryView, nat), CodecError>(
            (v, v.spec_bytes().len()),
        ),
{
    lemma_auto_spec_u32_to_from_le_bytes();
    let s = v.spec_bytes() + rest;
    assert(s.take(4) =~= spec_u32_to_le_bytes(v.type_identifier));
    assert(take_upto(s.skip(4), hash_len()) =~= v.hash);
}

impl Wire for Inventory {
    open spec fn spec_decode(s: Seq<u8>) -> Result<(InventoryView, nat), CodecError> {
        Inventory::spec_parse(s)
    }

    open spec fn spec_encode(v: InventoryView) -> Seq<u8> {
        v.spec_bytes()
    }

    fn decode(bytes: &[u8], pos: usize) -> (r: Result<(Inventory, usize), CodecError>) {
        Inventory::new(bytes, pos)
    }

    fn encode_to(&self, out: &mut Vec<u8>) {
        self.write_to(out)
    }
}

impl RoundTrip for Inventory {
    open spec fn spec_round_trips(v: InventoryView) -> bool {
        v.round_trips()
    }

    proof fn lemma_round_trip(v: InventoryView, rest: Seq<u8>) {
        lemma_inventory_round_trip(v, rest);
    }
}

} // verus!
