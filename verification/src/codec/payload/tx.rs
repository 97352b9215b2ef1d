//! The `tx` payload: a transaction.
pub mod input;
pub mod output;

use vstd::prelude::*;
use vstd::bytes::*;
use crate::codec::wire::{Wire, CodecError, outcome, ends_within, spec_i32_le, spec_u8, spec_u32_le, spec_i32_to_le_bytes, spec_decode_list, spec_encode_list, decode_list, encode_list, views, lemma_list_round_trip, read_u8, read_i32_le, read_u32_le, put_i32_le, put_u32_le, lemma_i32_round_trip};
use crate::codec::payload::tx::input::{Input, InputView};
use crate::codec::payload::tx::output::{Output, OutputView};

verus! {

/// The version, the inputs behind a one-byte count, the outputs behind a
/// one-byte count, and the lock time. A transaction is the last thing in its
/// input: bytes after the lock time are refused.
#[derive(Debug, Clone)]
pub struct Tx {
    pub version: i32,
    pub inputs_len: u8,
    pub inputs: Vec<Input>,
    pub outputs_len: u8,
    pub outputs: Vec<Output>,
    pub locktime: u32,
}

pub struct TxView {
    pub version: i32,
    pub inputs_len: u8,
    pub inputs: Seq<InputView>,
    pub outputs_len: u8,
    pub outputs: Seq<OutputView>,
    pub locktime: u32,
}

impl View for Tx {
    type V = TxView;

    open spec fn view(&self) -> TxView {
        TxView {
            version: self.version,
            inputs_len: self.inputs_len,
            inputs: views(self.inputs@),
            outputs_len: self.outputs_len,
            outputs: views(self.outputs@),
            locktime: self.locktime,
        }
    }
}

impl TxView {
    pub open spec fn spec_bytes(self) -> Seq<u8> {
        spec_i32_to_le_bytes(self.version) + seq![self.inputs_len] + spec_encode_list::<Input>(
            self.inputs,
        ) + seq![self.outputs_len] + spec_encode_list::<Output>(self.outputs)
            + spec_u32_to_le_bytes(self.locktime)
    }

    /// Counts that match the lists, and inputs and outputs that round-trip.
    pub open spec fn round_trips(self) -> bool {
        &&& self.inputs.len() == self.inputs_len
        &&& self.outputs.len() == self.outputs_len
        &&& forall|i: int| 0 <= i < self.inputs.len() ==> (#[trigger] self.inputs[i]).round_trips()
        &&& forall|i: int|
            0 <= i < self.outputs.len() ==> (#[trigger] self.outputs[i]).round_trips()
    }
}

impl Tx {
    pub open spec fn spec_parse(s: Seq<u8>) -> Result<(TxView, nat), CodecError> {
        match spec_i32_le(s) {
            Err(e) => Err(e),
            Ok((version, _)) => match spec_u8(s.skip(4)) {
                Err(e) => Err(e),
                Ok((inputs_len, _)) => match spec_decode_list::<Input>(s.skip(5), inputs_len as nat) {
                    Err(e) => Err(e),
                    Ok((inputs, n1)) => {
                        let p1: int = 5int + n1;
                        match spec_u8(s.skip(p1)) {
                            Err(e) => Err(e),
                            Ok((outputs_len, _)) => match spec_decode_list::<Output>(
                                s.skip(p1 + 1),
                                outputs_len as nat,
                            ) {
                                Err(e) => Err(e),
                                Ok((outputs, n2)) => {
                                    let p2: int = p1 + 1 + n2;
                                    match spec_u32_le(s.skip(p2)) {
                                        Err(e) => Err(e),
                                        Ok((locktime, _)) => if s.len() > p2 + 4 {
                                            Err(CodecError::TrailingBytes)
                                        } else {
                                            Ok(
                                                (
                                                    TxView {
                                                        version,
                                                        inputs_len,
                                                        inputs,
                                                        outputs_len,
                                                        outputs,
                                                        locktime,
                                                    },
                                                    (p2 + 4) as nat,
                                                ),
                                            )
                                        },
                                    }
                                },
                            },
                        }
                    },
                },
            },
        }
    }

    /// Decodes a transaction at `pos`, which must end the input.
    pub fn new(bytes: &[u8], pos: usize) -> (r: Result<(Tx, usize), CodecError>)
        requires
            pos <= bytes@.len(),
        ensures
            outcome(r, pos) == Tx::spec_parse(bytes@.skip(pos as int)),
            ends_within(r, pos, bytes@.len()),
    {
        let ghost s = bytes@.skip(pos as int);
        let (version, p) = read_i32_le(bytes, pos)?;
        assert(bytes@.skip(p as int) =~= s.skip(4));
        let (inputs_len, p) = read_u8(bytes, p)?;
        assert(bytes@.skip(p as int) =~= s.skip(5));
        let (inputs, p) = decode_list::<Input>(bytes, p, inputs_len as usize)?;
        assert(bytes@.skip(p as int) =~= s.skip((p - pos) as int));
        let (outputs_len, p) = read_u8(bytes, p)?;
        assert(bytes@.skip(p as int) =~= s.skip((p - pos) as int));
        let (outputs, p) = decode_list::<Output>(bytes, p, outputs_len as usize)?;
        assert(bytes@.skip(p as int) =~= s.skip((p - pos) as int));
        let (locktime, p) = read_u32_le(bytes, p)?;
        if p < bytes.len() {
            return Err(CodecError::TrailingBytes);
        }
        Ok((Tx { version, inputs_len, inputs, outputs_len, outputs, locktime }, p))
    }

    pub fn into_bytes(&self) -> (r: Result<Vec<u8>, CodecError>)
        ensures
            r matches Ok(v) && v@ == self@.spec_bytes(),
    {
        let mut wtr: Vec<u8> = Vec::new();
        self.write_to(&mut wtr);
        assert(wtr@ =~= self@.spec_bytes());
        Ok(wtr)
    }

    pub fn write_to(&self, out: &mut Vec<u8>)
        ensures
            final(out)@ == old(out)@ + self@.spec_bytes(),
    {
        put_i32_le(out, self.version);
        out.push(self.inputs_len);
        encode_list(&self.inputs, out);
        out.push(self.outputs_len);
        encode_list(&self.outputs, out);
        put_u32_le(out, self.locktime);
        assert(out@ =~= old(out)@ + self@.spec_bytes());
    }
}

/// Reading back a written transaction that round-trips gives it back and
/// consumes all of it, when nothing follows it.
pub proof fn lemma_tx_round_trip(v: TxView)
    requires
        v.round_trips(),
    ensures
        Tx::spec_parse(v.spec_bytes()) == Ok::<(TxView, nat), CodecError>(
            (v, v.spec_bytes().len()),
        ),
{
    lemma_auto_spec_u32_to_from_le_bytes();
    lemma_i32_round_trip(v.version);
    assert(spec_u32_to_le_bytes(v.locktime).len() == 4);
    let a = spec_i32_to_le_bytes(v.version);
    let b = seq![v.inputs_len];
    let c = spec_encode_list::<Input>(v.inputs);
    let d = seq![v.outputs_len];
    let e = spec_encode_list::<Output>(v.outputs);
    let f = spec_u32_to_le_bytes(v.locktime);
    let s = v.spec_bytes();
    assert(s =~= a + (b + (c + (d + (e + f)))));
    assert(s.take(4) =~= a);
    assert(s.skip(4)[0] == v.inputs_len);
    assert(s.skip(5) =~= c + (d + (e + f)));
    lemma_list_round_trip::<Input>(v.inputs, d + (e + f));
    let p1: int = 5int + c.len();
    assert(s.skip(p1)[0] == v.outputs_len);
    assert(s.skip(p1 + 1) =~= e + f);
    lemma_list_round_trip::<Output>(v.outputs, f);
    let p2: int = p1 + 1 + e.len();
    assert(s.skip(p2).take(4) =~= f);
}

/// Bytes after a transaction are refused.
pub proof fn lemma_tx_trailing_bytes_refused(v: TxView, rest: Seq<u8>)
    requires
        v.round_trips(),
        rest.len() > 0,
    ensures
        Tx::spec_parse(v.spec_bytes() + rest) == Err::<(TxView, nat), CodecError>(
            CodecError::TrailingBytes,
        ),
{
    lemma_auto_spec_u32_to_from_le_bytes();
    lemma_i32_round_trip(v.version);
    assert(spec_u32_to_le_bytes(v.locktime).len() == 4);
    let a = spec_i32_to_le_bytes(v.version);
    let b = seq![v.inputs_len];
    let c = spec_encode_list::<Input>(v.inputs);
    let d = seq![v.outputs_len];
    let e = spec_encode_list::<Output>(v.outputs);
    let f = spec_u32_to_le_bytes(v.locktime);
    let s = v.spec_bytes() + rest;
    assert(s =~= a + (b + (c + (d + (e + (f + rest))))));
    assert(s.take(4) =~= a);
    assert(s.skip(4)[0] == v.inputs_len);
    assert(s.skip(5) =~= c + (d + (e + (f + rest))));
    lemma_list_round_trip::<Input>(v.inputs, d + (e + (f + rest)));
    let p1: int = 5int + c.len();
    assert(s.skip(p1)[0] == v.outputs_len);
    assert(s.skip(p1 + 1) =~= e + (f + rest));
    lemma_list_round_trip::<Output>(v.outputs, f + rest);
    let p2: int = p1 + 1 + e.len();
    assert(s.skip(p2).take(4) =~= f);
}

impl Wire for Tx {
    open spec fn spec_decode(s: Seq<u8>) -> Result<(TxView, nat), CodecError> {
        Tx::spec_parse(s)
    }

    open spec fn spec_encode(v: TxView) -> Seq<u8> {
        v.spec_bytes()
    }

    fn decode(bytes: &[u8], pos: usize) -> (r: Result<(Tx, usize), CodecError>) {
        Tx::new(bytes, pos)
    }

    fn encode_to(&self, out: &mut Vec<u8>) {
        self.write_to(out)
    }
}

} // verus!
