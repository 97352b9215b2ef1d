//! The `getblocks` payload: a request for the inventory of blocks after the
//! last known one.
use vstd::prelude::*;
use crate::codec::wire::{CodecError, outcome, ends_within, take_upto, spec_i32_le, spec_i32_to_le_bytes, spec_decode_list, spec_encode_list, decode_list, encode_list, views, lemma_list_round_trip, read_i32_le, read_upto, push_all, put_i32_le, lemma_i32_round_trip};
use crate::codec::commons::var_uint::{VarUint, lemma_var_uint_round_trip};

verus! {

/// The protocol version, a count, that many block locator hashes, and the hash
/// to stop at. When the input ends early a hash holds fewer than 32 bytes.
#[derive(Debug, Clone)]
pub struct GetBlocks {
    pub version: i32,
    pub hash_count: VarUint,
    pub block_locator_hashes: Vec<Vec<u8>>,
    pub hash_stop: Vec<u8>,
}

pub struct GetBlocksView {
    pub version: i32,
    pub hash_count: VarUint,
    pub block_locator_hashes: Seq<Seq<u8>>,
    pub hash_stop: Seq<u8>,
}

impl View for GetBlocks {
    type V = GetBlocksView;

    open spec fn view(&self) -> GetBlocksView {
        GetBlocksView {
            version: self.version,
            hash_count: self.hash_count,
            block_locator_hashes: views(self.block_locator_hashes@),
            hash_stop: self.hash_stop@,
        }
    }
}

/// The encoding shared by the `getblocks` and `getheaders` payloads.
pub open spec fn spec_locator_bytes(
    version: i32,
    hash_count: VarUint,
    hashes: Seq<Seq<u8>>,
    hash_stop: Seq<u8>,
) -> Seq<u8> {
    spec_i32_to_le_bytes(version) + hash_count.spec_bytes() + spec_encode_list::<Vec<u8>>(hashes)
        + hash_stop
}

/// Appends the encoding shared by the `getblocks` and `getheaders` payloads.
pub fn write_locator(
    version: i32,
    hash_count: VarUint,
    hashes: &Vec<Vec<u8>>,
    hash_stop: &Vec<u8>,
    out: &mut Vec<u8>,
)
    ensures
        final(out)@ == old(out)@ + spec_locator_bytes(
            version,
            hash_count,
            views(hashes@),
            hash_stop@,
        ),
{
    put_i32_le(out, version);
    hash_count.write_to(out);
    encode_list(hashes, out);
    push_all(out, hash_stop.as_slice());
    assert(out@ =~= old(out)@ + spec_locator_bytes(version, hash_count, views(hashes@), hash_stop@));
}

impl GetBlocksView {
    pub open spec fn spec_bytes(self) -> Seq<u8> {
        spec_locator_bytes(self.version, self.hash_count, self.block_locator_hashes, self.hash_stop)
    }

    pub open spec fn round_trips(self) -> bool {
        &&& self.hash_count.round_trips()
        &&& self.hash_count.spec_as_usize() matches Some(n) && n as nat
            == self.block_locator_hashes.len()
        &&& forall|i: int|
            0 <= i < self.block_locator_hashes.len() ==> (
            #[trigger] self.block_locator_hashes[i]).len() == 32
        &&& self.hash_stop.len() == 32
    }
}

impl GetBlocks {
    pub open spec fn spec_parse(s: Seq<u8>) -> Result<(GetBlocksView, nat), CodecError> {
        match spec_i32_le(s) {
            Err(e) => Err(e),
            Ok((version, _)) => match VarUint::spec_parse(s.skip(4)) {
                Err(e) => Err(e),
                Ok((hash_count, n1)) => match hash_count.spec_as_usize() {
                    None => Err(CodecError::LengthTooBig),
                    Some(c) => {
                        let p1: int = 4int + n1;
                        match spec_decode_list::<Vec<u8>>(s.skip(p1), c as nat) {
                            Err(e) => Err(e),
                            Ok((block_locator_hashes, n2)) => {
                                let p2: int = p1 + n2;
                                let hash_stop = take_upto(s.skip(p2), 32);
                                Ok(
                                    (
                                        GetBlocksView {
                                            version,
                                            hash_count,
                                            block_locator_hashes,
                                            hash_stop,
                                        },
                                        (p2 + hash_stop.len()) as nat,
                                    ),
                                )
                            },
                        }
                    },
                },
            },
        }
    }

    pub fn new(bytes: &[u8], pos: usize) -> (r: Result<(GetBlocks, usize), CodecError>)
        requires
            pos <= bytes@.len(),
        ensures
            outcome(r, pos) == GetBlocks::spec_parse(bytes@.skip(pos as int)),
            ends_within(r, pos, bytes@.len()),
    {
        let ghost s = bytes@.skip(pos as int);
        let (version, p) = read_i32_le(bytes, pos)?;
        assert(bytes@.skip(p as int) =~= s.skip(4));
        let (hash_count, p) = VarUint::new(bytes, p)?;
        let c = match hash_count.as_usize() {
            Some(c) => c,
            None => {
                return Err(CodecError::LengthTooBig);
            },
        };
        assert(bytes@.skip(p as int) =~= s.skip((p - pos) as int));
        let (block_locator_hashes, p) = decode_list::<Vec<u8>>(bytes, p, c)?;
        assert(bytes@.skip(p as int) =~= s.skip((p - pos) as int));
        let (hash_stop, p) = read_upto(bytes, p, 32);
        Ok((GetBlocks { version, hash_count, block_locator_hashes, hash_stop }, p))
    }

    pub fn into_bytes(&self) -> (r: Result<Vec<u8>, CodecError>)
        ensures
            r matches Ok(v) && v@ == self@.spec_bytes(),
    {
        let mut wtr: Vec<u8> = Vec::new();
        self.write_to(&mut wtr);
        assert(wtr@ =~= self@.spec_bytes());
        Ok(wtr)
    }

    pub fn write_to(&self, out: &mut Vec<u8>)
        ensures
            final(out)@ == old(out)@ + self@.spec_bytes(),
    {
        write_locator(
            self.version,
            self.hash_count,
            &self.block_locator_hashes,
            &self.hash_stop,
            out,
        );
    }
}

/// Reading back a written `getblocks` payload that round-trips gives it back
/// and consumes exactly the written bytes, whatever follows them.
pub proof fn lemma_get_blocks_round_trip(v: GetBlocksView, rest: Seq<u8>)
    requires
        v.round_trips(),
    ensures
        GetBlocks::spec_parse(v.spec_bytes() + rest) == Ok::<(GetBlocksView, nat), CodecError>(
            (v, v.spec_bytes().len()),
        ),
{
    lemma_i32_round_trip(v.version);
    let a = spec_i32_to_le_bytes(v.version);
    let b = v.hash_count.spec_bytes();
    let c = spec_encode_list::<Vec<u8>>(v.block_locator_hashes);
    let s = v.spec_bytes() + rest;
    assert(s =~= a + (b + (c + (v.hash_stop + rest))));
    assert(s.take(4) =~= a);
    assert(s.skip(4) =~= b + (c + (v.hash_stop + rest)));
    lemma_var_uint_round_trip(v.hash_count, c + (v.hash_stop + rest));
    let p1: int = 4int + b.len();
    assert(s.skip(p1) =~= c + (v.hash_stop + rest));
    lemma_list_round_trip::<Vec<u8>>(v.block_locator_hashes, v.hash_stop + rest);
    let p2: int = p1 + c.len();
    assert(take_upto(s.skip(p2), 32) =~= v.hash_stop);
}

} // verus!
