//! Transaction inputs: the output they spend and the script that unlocks it.
use vstd::prelude::*;
use vstd::bytes::*;
use crate::codec::wire::{Wire, RoundTrip, CodecError, outcome, ends_within, take_upto, spec_u32_le, spec_u8, read_u8, read_u32_le, read_upto, push_all, put_u32_le};

verus! {

/// The hash of the previous transaction, the index of the spent output, the
/// script's length, the script and the sequence number. When the input ends
/// early the hash or the script hold fewer bytes than announced.
#[derive(Debug, Clone)]
pub struct Input {
    pub prev_tx: Vec<u8>,
    pub prev_tx_out_index: u32,
    pub script_len: u8,
    pub script_sig: Vec<u8>,
    pub sequence: u32,
}

pub struct InputView {
    pub prev_tx: Seq<u8>,
    pub prev_tx_out_index: u32,
    pub script_len: u8,
    pub script_sig: Seq<u8>,
    pub sequence: u32,
}

impl View for Input {
    type V = InputView;

    open spec fn view(&self) -> InputView {
        InputView {
            prev_tx: self.prev_tx@,
            prev_tx_out_index: self.prev_tx_out_index,
            script_len: self.script_len,
            script_sig: self.script_sig@,
            sequence: self.sequence,
        }
    }
}

impl InputView {
    pub open spec fn spec_bytes(self) -> Seq<u8> {
        self.prev_tx + spec_u32_to_le_bytes(self.prev_tx_out_index) + seq![self.script_len]
            + self.script_sig + spec_u32_to_le_bytes(self.sequence)
    }

    /// A 32-byte hash and a script as long as its length field says.
    pub open spec fn round_trips(self) -> bool {
        &&& self.prev_tx.len() == 32
        &&& self.script_sig.len() == self.script_len
    }
}

impl Input {
    pub open spec fn spec_parse(s: Seq<u8>) -> Result<(InputView, nat), CodecError> {
        let prev_tx = take_upto(s, 32);
        let p1: int = prev_tx.len() as int;
        match spec_u32_le(s.skip(p1 as int)) {
            Err(e) => Err(e),
            Ok((prev_tx_out_index, _)) => match spec_u8(s.skip(p1 + 4)) {
                Err(e) => Err(e),
                Ok((script_len, _)) => {
                    let p2: int = p1 + 5;
                    let script_sig = take_upto(s.skip(p2), script_len as nat);
                    let p3: int = p2 + script_sig.len();
                    match spec_u32_le(s.skip(p3)) {
                        Err(e) => Err(e),
                        Ok((sequence, _)) => Ok(
                            (
                                InputView {
                                    prev_tx,
                                    prev_tx_out_index,
                                    script_len,
                                    script_sig,
                                    sequence,
                                },
                                (p3 + 4) as nat,
                            ),
                        ),
                    }
                },
            },
        }
    }

    pub fn new(bytes: &[u8], pos: usize) -> (r: Result<(Input, usize), CodecError>)
        requires
            pos <= bytes@.len(),
        ensures
            outcome(r, pos) == Input::spec_parse(bytes@.skip(pos as int)),
            ends_within(r, pos, bytes@.len()),
    {
        let ghost s = bytes@.skip(pos as int);
        let (prev_tx, p) = read_upto(bytes, pos, 32);
        assert(bytes@.skip(p as int) =~= s.skip((p - pos) as int));
        let (prev_tx_out_index, p) = read_u32_le(bytes, p)?;
        assert(bytes@.skip(p as int) =~= s.skip((p - pos) as int));
        let (script_len, p) = read_u8(bytes, p)?;
        assert(bytes@.skip(p as int) =~= s.skip((p - pos) as int));
        let (script_sig, p) = read_upto(bytes, p, script_len as usize);
        assert(bytes@.skip(p as int) =~= s.skip((p - pos) as int));
        let (sequence, p) = read_u32_le(bytes, p)?;
        Ok((Input { prev_tx, prev_tx_out_index, script_len, script_sig, sequence }, p))
    }

    pub fn into_bytes(&self) -> (r: Result<Vec<u8>, CodecError>)
        ensures
            r matches Ok(v) && v@ == self@.spec_bytes(),
    {
        let mut wtr: Vec<u8> = Vec::new();
        self.write_to(&mut wtr);
        assert(wtr@ =~= self@.spec_bytes());
        Ok(wtr)
    }

    pub fn write_to(&self, out: &mut Vec<u8>)
        ensures
            final(out)@ == old(out)@ + self@.spec_bytes(),
    {
        push_all(out, self.prev_tx.as_slice());
        put_u32_le(out, self.prev_tx_out_index);
        out.push(self.script_len);
        push_all(out, self.script_sig.as_slice());
        put_u32_le(out, self.sequence);
        assert(out@ =~= old(out)@ + self@.spec_bytes());
    }
}

/// Reading back a written input that round-trips gives it back and consumes
/// exactly the written bytes, whatever follows them.
pub proof fn lemma_input_round_trip(v: InputView, rest: Seq<u8>)
    requires
        v.round_trips(),
    ensures
        Input::spec_parse(v.spec_bytes() + rest) == Ok::<(InputView, nat), CodecError>(
            (v, v.spec_bytes().len()),
        ),
{
    lemma_auto_spec_u32_to_from_le_bytes();
    assert(spec_u32_to_le_bytes(v.prev_tx_out_index).len() == 4);
    assert(spec_u32_to_le_bytes(v.sequence).len() == 4);
    let s = v.spec_bytes() + rest;
    assert(take_upto(s, 32) =~= v.prev_tx);
    assert(s.skip(32).take(4) =~= spec_u32_to_le_bytes(v.prev_tx_out_index));
    assert(s.skip(36)[0] == v.script_len);
    assert(take_upto(s.skip(37), v.script_len as nat) =~= v.script_sig);
    let p3: int = 37int + v.script_sig.len();
    assert(s.skip(p3).take(4) =~= spec_u32_to_le_bytes(v.sequence));
}

impl Wire for Input {
    open spec fn spec_decode(s: Seq<u8>) -> Result<(InputView, nat), CodecError> {
        Input::spec_parse(s)
    }

    open spec fn spec_encode(v: InputView) -> Seq<u8> {
        v.spec_bytes()
    }

    fn decode(bytes: &[u8], pos: usize) -> (r: Result<(Input, usize), CodecError>) {
        Input::new(bytes, pos)
    }

    fn encode_to(&self, out: &mut Vec<u8>) {
        self.write_to(out)
    }
}

impl RoundTrip for Input {
    open spec fn spec_round_trips(v: InputView) -> bool {
        v.round_trips()
    }

    proof fn lemma_round_trip(v: InputView, rest: Seq<u8>) {
        lemma_input_round_trip(v, rest);
    }
}

} // verus!
