//! The `notfound` payload: the inventory that a peer could not deliver.
use vstd::prelude::*;
use crate::codec::wire::{CodecError, outcome, ends_within, spec_decode_list, spec_encode_list, decode_list, encode_list, views, lemma_list_round_trip};
use crate::codec::commons::var_uint::{VarUint, lemma_var_uint_round_trip};
use crate::codec::commons::inventory::{Inventory, InventoryView};

verus! {

/// A count, then that many inventory vectors.
#[derive(Debug, Clone)]
pub struct NotFound {
    pub count: VarUint,
    pub inventories: Vec<Inventory>,
}

pub struct NotFoundView {
    pub count: VarUint,
    pub inventories: Seq<InventoryView>,
}

impl View for NotFound {
    type V = NotFoundView;

    open spec fn view(&self) -> NotFoundView {
        NotFoundView { count: self.count, inventories: views(self.inventories@) }
    }
}

impl NotFoundView {
    pub open spec fn spec_bytes(self) -> Seq<u8> {
        self.count.spec_bytes() + spec_encode_list::<Inventory>(self.inventories)
    }

    pub open spec fn round_trips(self) -> bool {
        &&& self.count.round_trips()
        &&& self.count.spec_as_usize() matches Some(n) && n as nat == self.inventories.len()
        &&& forall|i: int| 0 <= i < self.inventories.len() ==> (#[trigger] self.inventories[i]).round_trips()
    }
}

impl NotFound {
    pub open spec fn spec_parse(s: Seq<u8>) -> Result<(NotFoundView, nat), CodecError> {
        match VarUint::spec_parse(s) {
            Err(e) => Err(e),
            Ok((count, n1)) => match count.spec_as_usize() {
                None => Err(CodecError::LengthTooBig),
                Some(c) => match spec_decode_list::<Inventory>(s.skip(n1 as int), c as nat) {
                    Err(e) => Err(e),
                    Ok((inventories, n2)) => Ok((NotFoundView { count, inventories }, n1 + n2)),
                },
            },
        }
    }

    pub fn new(bytes: &[u8], pos: usize) -> (r: Result<(NotFound, usize), CodecError>)
        requires
            pos <= bytes@.len(),
        ensures
            outcome(r, pos) == NotFound::spec_parse(bytes@.skip(pos as int)),
            ends_within(r, pos, bytes@.len()),
    {
        let (count, p) = VarUint::new(bytes, pos)?;
        let c = match count.as_usize() {
            Some(c) => c,
            None => {
                return Err(CodecError::LengthTooBig);
            },
        };
        assert(bytes@.skip(p as int) =~= bytes@.skip(pos as int).skip((p - pos) as int));
        let (inventories, p) = decode_list::<Inventory>(bytes, p, c)?;
        Ok((NotFound { count, inventories }, p))
    }

    pub fn into_bytes(&self) -> (r: Result<Vec<u8>, CodecError>)
        ensures
            r matches Ok(v) && v@ == self@.spec_bytes(),
    {
        let mut wtr: Vec<u8> = Vec::new();
        self.write_to(&mut wtr);
        assert(wtr@ =~= self@.spec_bytes());
        Ok(wtr)
    }

    pub fn write_to(&self, out: &mut Vec<u8>)
        ensures
            final(out)@ == old(out)@ + self@.spec_bytes(),
    {
        self.count.write_to(out);
        encode_list(&self.inventories, out);
        assert(out@ =~= old(out)@ + self@.spec_bytes());
    }
}

/// Reading back a written `notfound` payload that round-trips gives it back
/// and consumes exactly the written bytes, whatever follows them.
pub proof fn lemma_not_found_round_trip(v: NotFoundView, rest: Seq<u8>)
    requires
        v.round_trips(),
    ensures
        NotFound::spec_parse(v.spec_bytes() + rest) == Ok::<(NotFoundView, nat), CodecError>(
            (v, v.spec_bytes().len()),
        ),
{
    let a = v.count.spec_bytes();
    let b = spec_encode_list::<Inventory>(v.inventories);
    let s = v.spec_bytes() + rest;
    assert(s =~= a + (b + rest));
    lemma_var_uint_round_trip(v.count, b + rest);
    assert(s.skip(a.len() as int) =~= b + rest);
    lemma_list_round_trip::<Inventory>(v.inventories, rest);
}

} // verus!
