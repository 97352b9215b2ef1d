//! Block headers, as the `headers` and `block` payloads carry them.
use vstd::prelude::*;
use vstd::bytes::*;
use crate::codec::wire::{Wire, RoundTrip, CodecError, outcome, ends_within, take_upto, spec_i32_le, spec_u32_le, spec_i32_to_le_bytes, read_i32_le, read_u32_le, read_upto, push_all, put_i32_le, put_u32_le, lemma_i32_round_trip};
use crate::codec::commons::var_uint::{VarUint, lemma_var_uint_round_trip};

verus! {

/// The version, the previous block's hash, the merkle root, the time, the
/// difficulty bits, the nonce and a transaction count. When the input ends
/// early a hash holds fewer than 32 bytes.
#[derive(Debug, Clone)]
pub struct BlockHeaders {
    pub version: i32,
    pub prev_block: Vec<u8>,
    pub markle_root: Vec<u8>,
    pub timestamp: u32,
    pub bits: u32,
    pub nonce: u32,
    pub txn_count: VarUint,
}

pub struct BlockHeadersView {
    pub version: i32,
    pub prev_block: Seq<u8>,
    pub markle_root: Seq<u8>,
    pub timestamp: u32,
    pub bits: u32,
    pub nonce: u32,
    pub txn_count: VarUint,
}

impl View for BlockHeaders {
    type V = BlockHeadersView;

    open spec fn view(&self) -> BlockHeadersView {
        BlockHeadersView {
            version: self.version,
            prev_block: self.prev_block@,
            markle_root: self.markle_root@,
            timestamp: self.timestamp,
            bits: self.bits,
            nonce: self.nonce,
            txn_count: self.txn_count,
        }
    }
}

impl BlockHeadersView {
    pub open spec fn spec_bytes(self) -> Seq<u8> {
        spec_i32_to_le_bytes(self.version) + self.prev_block + self.markle_root
            + spec_u32_to_le_bytes(self.timestamp) + spec_u32_to_le_bytes(self.bits)
            + spec_u32_to_le_bytes(self.nonce) + self.txn_count.spec_bytes()
    }

    pub open spec fn round_trips(self) -> bool {
        &&& self.prev_block.len() == 32
        &&& self.markle_root.len() == 32
        &&& self.txn_count.round_trips()
    }
}

impl BlockHeaders {
    pub open spec fn spec_parse(s: Seq<u8>) -> Result<(BlockHeadersView, nat), CodecError> {
        match spec_i32_le(s) {
            Err(e) => Err(e),
            Ok((version, _)) => {
                let prev_block = take_upto(s.skip(4), 32);
                let p1: int = 4int + prev_block.len();
                let markle_root = take_upto(s.skip(p1), 32);
                let p2: int = p1 + markle_root.len();
                match spec_u32_le(s.skip(p2)) {
                    Err(e) => Err(e),
                    Ok((timestamp, _)) => match spec_u32_le(s.skip(p2 + 4)) {
                        Err(e) => Err(e),
                        Ok((bits, _)) => match spec_u32_le(s.skip(p2 + 8)) {
                            Err(e) => Err(e),
                            Ok((nonce, _)) => match VarUint::spec_parse(s.skip(p2 + 12)) {
                                Err(e) => Err(e),
                                Ok((txn_count, n)) => Ok(
                                    (
                                        BlockHeadersView {
                                            version,
                                            prev_block,
                                            markle_root,
                                            timestamp,
                                            bits,
                                            nonce,
                                            txn_count,
                                        },
                                        (p2 + 12 + n) as nat,
                                    ),
                                ),
                            },
                        },
                    },
                }
            },
        }
    }

    pub fn new(bytes: &[u8], pos: usize) -> (r: Result<(BlockHeaders, usize), CodecError>)
        requires
            pos <= bytes@.len(),
        ensures
            outcome(r, pos) == BlockHeaders::spec_parse(bytes@.skip(pos as int)),
            ends_within(r, pos, bytes@.len()),
    {
        let ghost s = bytes@.skip(pos as int);
        let (version, p) = read_i32_le(bytes, pos)?;
        assert(bytes@.skip(p as int) =~= s.skip(4));
        let (prev_block, p) = read_upto(bytes, p, 32);
        assert(bytes@.skip(p as int) =~= s.skip((p - pos) as int));
        let (markle_root, p) = read_upto(bytes, p, 32);
        assert(bytes@.skip(p as int) =~= s.skip((p - pos) as int));
        let (timestamp, p) = read_u32_le(bytes, p)?;
        assert(bytes@.skip(p as int) =~= s.skip((p - pos) as int));
        let (bits, p) = read_u32_le(bytes, p)?;
        assert(bytes@.skip(p as int) =~= s.skip((p - pos) as int));
        let (nonce, p) = read_u32_le(bytes, p)?;
        assert(bytes@.skip(p as int) =~= s.skip((p - pos) as int));
        let (txn_count, p) = VarUint::new(bytes, p)?;
        Ok(
            (
                BlockHeaders { version, prev_block, markle_root, timestamp, bits, nonce, txn_count },
                p,
            ),
        )
    }

    pub fn into_bytes(&self) -> (r: Result<Vec<u8>, CodecError>)
        ensures
            r matches Ok(v) && v@ == self@.spec_bytes(),
    {
        let mut wtr: Vec<u8> = Vec::new();
        self.write_to(&mut wtr);
        assert(wtr@ =~= self@.spec_bytes());
        Ok(wtr)
    }

    pub fn write_to(&self, out: &mut Vec<u8>)
        ensures
            final(out)@ == old(out)@ + self@.spec_bytes(),
    {
        put_i32_le(out, self.version);
        push_all(out, self.prev_block.as_slice());
        push_all(out, self.markle_root.as_slice());
        put_u32_le(out, self.timestamp);
        put_u32_le(out, self.bits);
        put_u32_le(out, self.nonce);
        self.txn_count.write_to(out);
        assert(out@ =~= old(out)@ + self@.spec_bytes());
    }
}

/// Reading back a written block header that round-trips gives it back and
/// consumes exactly the written bytes, whatever follows them.
#[verifier::spinoff_prover]
pub proof fn lemma_block_headers_round_trip(v: BlockHeadersView, rest: Seq<u8>)
    requires
        v.round_trips(),
    ensures
        BlockHeaders::spec_parse(v.spec_bytes() + rest) == Ok::<(BlockHeadersView, nat), CodecError>(
            (v, v.spec_bytes().len()),
        ),
{
    lemma_auto_spec_u32_to_from_le_bytes();
    lemma_i32_round_trip(v.version);
    assert(spec_u32_to_le_bytes(v.timestamp).len() == 4);
    assert(spec_u32_to_le_bytes(v.bits).len() == 4);
    assert(spec_u32_to_le_bytes(v.nonce).len() == 4);
    let a = spec_i32_to_le_bytes(v.version);
    let t = spec_u32_to_le_bytes(v.timestamp);
    let b = spec_u32_to_le_bytes(v.bits);
    let n = spec_u32_to_le_bytes(v.nonce);
    let c = v.txn_count.spec_bytes();
    let s = v.spec_bytes() + rest;
    assert(s =~= a + (v.prev_block + (v.markle_root + (t + (b + (n + (c + rest)))))));
    assert(s.take(4) =~= a);
    assert(take_upto(s.skip(4), 32) =~= v.prev_block);
    assert(take_upto(s.skip(36), 32) =~= v.markle_root);
    assert(s.skip(68).take(4) =~= t);
    assert(s.skip(72).take(4) =~= b);
    assert(s.skip(76).take(4) =~= n);
    assert(s.skip(80) =~= c + rest);
    lemma_var_uint_round_trip(v.txn_count, rest);
}

impl Wire for BlockHeaders {
    open spec fn spec_decode(s: Seq<u8>) -> Result<(BlockHeadersView, nat), CodecError> {
        BlockHeaders::spec_parse(s)
    }

    open spec fn spec_encode(v: BlockHeadersView) -> Seq<u8> {
        v.spec_bytes()
    }

    fn decode(bytes: &[u8], pos: usize) -> (r: Result<(BlockHeaders, usize), CodecError>) {
        BlockHeaders::new(bytes, pos)
    }

    fn encode_to(&self, out: &mut Vec<u8>) {
        self.write_to(out)
    }
}

impl RoundTrip for BlockHeaders {
    open spec fn spec_round_trips(v: BlockHeadersView) -> bool {
        v.round_trips()
    }

    proof fn lemma_round_trip(v: BlockHeadersView, rest: Seq<u8>) {
        lemma_block_headers_round_trip(v, rest);
    }
}

} // verus!
