//! Transaction outputs: an amount and the script that locks it.
use vstd::prelude::*;
use crate::codec::wire::{Wire, RoundTrip, CodecError, outcome, ends_within, take_upto, spec_i64_le, spec_u8, spec_i64_to_le_bytes, read_u8, read_i64_le, read_upto, push_all, put_i64_le, lemma_i64_round_trip};

verus! {

/// The amount in satoshis, the script's length and the script. When the input
/// ends early the script holds fewer bytes than announced.
#[derive(Debug, Clone)]
pub struct Output {
    pub value: i64,
    pub pk_script_len: u8,
    pub pk_script: Vec<u8>,
}

pub struct OutputView {
    pub value: i64,
    pub pk_script_len: u8,
    pub pk_script: Seq<u8>,
}

impl View for Output {
    type V = OutputView;

    open spec fn view(&self) -> OutputView {
        OutputView {
            value: self.value,
            pk_script_len: self.pk_script_len,
            pk_script: self.pk_script@,
        }
    }
}

impl OutputView {
    pub open spec fn spec_bytes(self) -> Seq<u8> {
        spec_i64_to_le_bytes(self.value) + seq![self.pk_script_len] + self.pk_script
    }

    /// A script as long as its length field says.
    pub open spec fn round_trips(self) -> bool {
        self.pk_script.len() == self.pk_script_len
    }
}

impl Output {
    pub open spec fn spec_parse(s: Seq<u8>) -> Result<(OutputView, nat), CodecError> {
        match spec_i64_le(s) {
            Err(e) => Err(e),
            Ok((value, _)) => match spec_u8(s.skip(8)) {
                Err(e) => Err(e),
                Ok((pk_script_len, _)) => {
                    let pk_script = take_upto(s.skip(9), pk_script_len as nat);
                    Ok((OutputView { value, pk_script_len, pk_script }, 9 + pk_script.len()))
                },
            },
        }
    }

    pub fn new(bytes: &[u8], pos: usize) -> (r: Result<(Output, usize), CodecError>)
        requires
            pos <= bytes@.len(),
        ensures
            outcome(r, pos) == Output::spec_parse(bytes@.skip(pos as int)),
            ends_within(r, pos, bytes@.len()),
    {
        let ghost s = bytes@.skip(pos as int);
        let (value, p) = read_i64_le(bytes, pos)?;
        assert(bytes@.skip(p as int) =~= s.skip(8));
        let (pk_script_len, p) = read_u8(bytes, p)?;
        assert(bytes@.skip(p as int) =~= s.skip(9));
        let (pk_script, p) = read_upto(bytes, p, pk_script_len as usize);
        Ok((Output { value, pk_script_len, pk_script }, p))
    }

    pub fn into_bytes(&self) -> (r: Result<Vec<u8>, CodecError>)
        ensures
            r matches Ok(v) && v@ == self@.spec_bytes(),
    {
        let mut wtr: Vec<u8> = Vec::new();
        self.write_to(&mut wtr);
        assert(wtr@ =~= self@.spec_bytes());
        Ok(wtr)
    }

    pub fn write_to(&self, out: &mut Vec<u8>)
        ensures
            final(out)@ == old(out)@ + self@.spec_bytes(),
    {
        put_i64_le(out, self.value);
        out.push(self.pk_script_len);
        push_all(out, self.pk_script.as_slice());
        assert(out@ =~= old(out)@ + self@.spec_bytes());
    }
}

/// Reading back a written output that round-trips gives it back and consumes
/// exactly the written bytes, whatever follows them.
pub proof fn lemma_output_round_trip(v: OutputView, rest: Seq<u8>)
    requires
        v.round_trips(),
    ensures
        Output::spec_parse(v.spec_bytes() + rest) == Ok::<(OutputView, nat), CodecError>(
            (v, v.spec_bytes().len()),
        ),
{
    lemma_i64_round_trip(v.value);
    let s = v.spec_bytes() + rest;
    assert(s.take(8) =~= spec_i64_to_le_bytes(v.value));
    assert(s.skip(8)[0] == v.pk_script_len);
    assert(take_upto(s.skip(9), v.pk_script_len as nat) =~= v.pk_script);
}

impl Wire for Output {
    open spec fn spec_decode(s: Seq<u8>) -> Result<(OutputView, nat), CodecError> {
        Output::spec_parse(s)
    }

    open spec fn spec_encode(v: OutputView) -> Seq<u8> {
        v.spec_bytes()
    }

    fn decode(bytes: &[u8], pos: usize) -> (r: Result<(Output, usize), CodecError>) {
        Output::new(bytes, pos)
    }

    fn encode_to(&self, out: &mut Vec<u8>) {
        self.write_to(out)
    }
}

impl RoundTrip for Output {
    open spec fn spec_round_trips(v: OutputView) -> bool {
        v.round_trips()
    }

    proof fn lemma_round_trip(v: OutputView, rest: Seq<u8>) {
        lemma_output_round_trip(v, rest);
    }
}

} // verus!
