//! The `block` payload: a block header and the block's transactions.
use vstd::prelude::*;
use crate::codec::wire::{Wire, CodecError, outcome, ends_within, spec_decode_list, spec_encode_list, decode_list, encode_list, views};
use crate::codec::commons::var_uint::{VarUint, lemma_var_uint_round_trip};
use crate::codec::payload::headers::block_headers::{BlockHeaders, BlockHeadersView, lemma_block_headers_round_trip};
use crate::codec::payload::tx::{Tx, TxView, lemma_tx_round_trip};

verus! {

/// A block header, a transaction count and that many transactions. Since a
/// transaction must end its input, only a block's last transaction can be
/// decoded: a block of two or more transactions is refused.
#[derive(Debug, Clone)]
pub struct Block {
    pub block_header: BlockHeaders,
    pub txn_count: VarUint,
    pub txns: Vec<Tx>,
}

pub struct BlockView {
    pub block_header: BlockHeadersView,
    pub txn_count: VarUint,
    pub txns: Seq<TxView>,
}

impl View for Block {
    type V = BlockView;

    open spec fn view(&self) -> BlockView {
        BlockView {
            block_header: self.block_header@,
            txn_count: self.txn_count,
            txns: views(self.txns@),
        }
    }
}

impl BlockView {
    pub open spec fn spec_bytes(self) -> Seq<u8> {
        self.block_header.spec_bytes() + self.txn_count.spec_bytes() + spec_encode_list::<Tx>(
            self.txns,
        )
    }

    /// A header and a count that round-trip, with at most one transaction,
    /// which round-trips.
    pub open spec fn round_trips(self) -> bool {
        &&& self.block_header.round_trips()
        &&& self.txn_count.round_trips()
        &&& self.txn_count.spec_as_usize() matches Some(n) && n as nat == self.txns.len()
        &&& self.txns.len() <= 1
        &&& forall|i: int| 0 <= i < self.txns.len() ==> (#[trigger] self.txns[i]).round_trips()
    }
}

impl Block {
    pub open spec fn spec_parse(s: Seq<u8>) -> Result<(BlockView, nat), CodecError> {
        match BlockHeaders::spec_parse(s) {
            Err(e) => Err(e),
            Ok((block_header, n1)) => match VarUint::spec_parse(s.skip(n1 as int)) {
                Err(e) => Err(e),
                Ok((txn_count, n2)) => match txn_count.spec_as_usize() {
                    None => Err(CodecError::LengthTooBig),
                    Some(c) => match spec_decode_list::<Tx>(s.skip((n1 + n2) as int), c as nat) {
                        Err(e) => Err(e),
                        Ok((txns, n3)) => Ok((BlockView { block_header, txn_count, txns }, n1 + n2 + n3)),
                    },
                },
            },
        }
    }

    pub fn new(bytes: &[u8], pos: usize) -> (r: Result<(Block, usize), CodecError>)
        requires
            pos <= bytes@.len(),
        ensures
            outcome(r, pos) == Block::spec_parse(bytes@.skip(pos as int)),
            ends_within(r, pos, bytes@.len()),
    {
        let ghost s = bytes@.skip(pos as int);
        let (block_header, p) = BlockHeaders::new(bytes, pos)?;
        assert(bytes@.skip(p as int) =~= s.skip((p - pos) as int));
        let (txn_count, p) = VarUint::new(bytes, p)?;
        let c = match txn_count.as_usize() {
            Some(c) => c,
            None => {
                return Err(CodecError::LengthTooBig);
            },
        };
        assert(bytes@.skip(p as int) =~= s.skip((p - pos) as int));
        let (txns, p) = decode_list::<Tx>(bytes, p, c)?;
        Ok((Block { block_header, txn_count, txns }, p))
    }

    pub fn into_bytes(&self) -> (r: Result<Vec<u8>, CodecError>)
        ensures
            r matches Ok(v) && v@ == self@.spec_bytes(),
    {
        let mut wtr: Vec<u8> = Vec::new();
        self.write_to(&mut wtr);
        assert(wtr@ =~= self@.spec_bytes());
        Ok(wtr)
    }

    pub fn write_to(&self, out: &mut Vec<u8>)
        ensures
            final(out)@ == old(out)@ + self@.spec_bytes(),
    {
        self.block_header.write_to(out);
        self.txn_count.write_to(out);
        encode_list(&self.txns, out);
        assert(out@ =~= old(out)@ + self@.spec_bytes());
    }
}

/// Reading back a written block of at most one transaction that round-trips
/// gives it back and consumes all of it, when nothing follows it.
#[verifier::spinoff_prover]
pub proof fn lemma_block_round_trip(v: BlockView)
    requires
        v.round_trips(),
    ensures
        Block::spec_parse(v.spec_bytes()) == Ok::<(BlockView, nat), CodecError>(
            (v, v.spec_bytes().len()),
        ),
{
    let a = v.block_header.spec_bytes();
    let b = v.txn_count.spec_bytes();
    let c = spec_encode_list::<Tx>(v.txns);
    let s = v.spec_bytes();
    assert(s =~= a + (b + c));
    lemma_block_headers_round_trip(v.block_header, b + c);
    assert(s.skip(a.len() as int) =~= b + c);
    lemma_var_uint_round_trip(v.txn_count, c);
    assert(s.skip((a.len() + b.len()) as int) =~= c);
    if v.txns.len() == 1 {
        lemma_single_tx_list(v.txns);
    } else {
        assert(v.txns =~= Seq::<TxView>::empty());
    }
}

/// The list of a single transaction that round-trips reads back alone.
#[verifier::spinoff_prover]
proof fn lemma_single_tx_list(txns: Seq<TxView>)
    requires
        txns.len() == 1,
        txns[0].round_trips(),
    ensures
        spec_decode_list::<Tx>(spec_encode_list::<Tx>(txns), 1) == Ok::<(Seq<TxView>, nat), CodecError>(
            (txns, spec_encode_list::<Tx>(txns).len()),
        ),
{
    let t = txns[0];
    assert(txns.drop_last() =~= Seq::<TxView>::empty());
    assert(spec_encode_list::<Tx>(txns.drop_last()) =~= Seq::<u8>::empty());
    assert(txns.last() == t);
    let c = spec_encode_list::<Tx>(txns);
    assert(c =~= t.spec_bytes());
    lemma_tx_round_trip(t);
    assert(c.skip(0) =~= c);
    assert(spec_decode_list::<Tx>(c, 0) == Ok::<(Seq<TxView>, nat), CodecError>((Seq::empty(), 0)));
    assert(<Tx as Wire>::spec_decode(c.skip(0)) == Ok::<(TxView, nat), CodecError>((t, c.len())));
    assert(Seq::<TxView>::empty().push(t) =~= txns);
}

} // verus!
