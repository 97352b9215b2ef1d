//! The `reject` payload: why a peer refused a message.
use vstd::prelude::*;
use crate::codec::wire::{CodecError, outcome, ends_within, take_upto, spec_u8, read_u8, read_upto, push_all};
use crate::codec::commons::var_str::{VarStr, VarStrView, lemma_var_str_round_trip};

verus! {

/// The refused message's command, a code, a reason, and for some codes the
/// 32-byte hash of the refused object. When the input ends early the hash
/// holds fewer than 32 bytes.
#[derive(Debug, Clone)]
pub struct Reject {
    pub message: VarStr,
    pub code: u8,
    pub reason: VarStr,
    pub extra_data: Option<Vec<u8>>,
}

pub struct RejectView {
    pub message: VarStrView,
    pub code: u8,
    pub reason: VarStrView,
    pub extra_data: Option<Seq<u8>>,
}

impl View for Reject {
    type V = RejectView;

    open spec fn view(&self) -> RejectView {
        RejectView {
            message: self.message@,
            code: self.code,
            reason: self.reason@,
            extra_data: match self.extra_data {
                Some(h) => Some(h@),
                None => None,
            },
        }
    }
}

/// The codes whose reject message carries the hash of the refused object.
pub open spec fn spec_code_has_hash(code: u8) -> bool {
    code == 0x10 || code == 0x11 || code == 0x12 || code == 0x40 || code == 0x41 || code == 0x42
        || code == 0x43
}

pub fn code_has_hash(code: u8) -> (r: bool)
    ensures
        r == spec_code_has_hash(code),
        r == set![0x10u8, 0x11u8, 0x12u8, 0x40u8, 0x41u8, 0x42u8, 0x43u8].contains(code),
{
    code == 0x10 || code == 0x11 || code == 0x12 || code == 0x40 || code == 0x41 || code == 0x42
        || code == 0x43
}

impl RejectView {
    pub open spec fn spec_bytes(self) -> Seq<u8> {
        self.message.spec_bytes() + seq![self.code] + self.reason.spec_bytes() + match self.extra_data {
            Some(h) => h,
            None => Seq::empty(),
        }
    }

    pub open spec fn round_trips(self) -> bool {
        &&& self.message.round_trips()
        &&& self.reason.round_trips()
        &&& match self.extra_data {
            Some(h) => spec_code_has_hash(self.code) && h.len() == 32,
            None => !spec_code_has_hash(self.code),
        }
    }
}

impl Reject {
    pub open spec fn spec_parse(s: Seq<u8>) -> Result<(RejectView, nat), CodecError> {
        match VarStr::spec_parse(s) {
            Err(e) => Err(e),
            Ok((message, n1)) => match spec_u8(s.skip(n1 as int)) {
                Err(e) => Err(e),
                Ok((code, _)) => match VarStr::spec_parse(s.skip((n1 + 1) as int)) {
                    Err(e) => Err(e),
                    Ok((reason, n2)) => {
                        let p: int = (n1 + 1 + n2) as int;
                        if spec_code_has_hash(code) {
                            let h = take_upto(s.skip(p), 32);
                            Ok(
                                (
                                    RejectView { message, code, reason, extra_data: Some(h) },
                                    (p + h.len()) as nat,
                                ),
                            )
                        } else {
                            Ok((RejectView { message, code, reason, extra_data: None }, p as nat))
                        }
                    },
                },
            },
        }
    }

    pub fn new(bytes: &[u8], pos: usize) -> (r: Result<(Reject, usize), CodecError>)
        requires
            pos <= bytes@.len(),
        ensures
            outcome(r, pos) == Reject::spec_parse(bytes@.skip(pos as int)),
            ends_within(r, pos, bytes@.len()),
            r matches Ok((rej, _)) ==> (rej.extra_data is Some <==> set![
                0x10u8,
                0x11u8,
                0x12u8,
                0x40u8,
                0x41u8,
                0x42u8,
                0x43u8,
            ].contains(rej.code)),
    {
        proof {
            lemma_reject_hash_codes(bytes@.skip(pos as int));
        }
        let ghost s = bytes@.skip(pos as int);
        let (message, p) = VarStr::new(bytes, pos)?;
        assert(bytes@.skip(p as int) =~= s.skip((p - pos) as int));
        let (code, p) = read_u8(bytes, p)?;
        assert(bytes@.skip(p as int) =~= s.skip((p - pos) as int));
        let (reason, p) = VarStr::new(bytes, p)?;
        assert(bytes@.skip(p as int) =~= s.skip((p - pos) as int));
        if code_has_hash(code) {
            let (h, p) = read_upto(bytes, p, 32);
            Ok((Reject { message, code, reason, extra_data: Some(h) }, p))
        } else {
            Ok((Reject { message, code, reason, extra_data: None }, p))
        }
    }

    pub fn into_bytes(&self) -> (r: Result<Vec<u8>, CodecError>)
        ensures
            r matches Ok(v) && v@ == self@.spec_bytes(),
    {
        let mut wtr: Vec<u8> = Vec::new();
        self.write_to(&mut wtr);
        assert(wtr@ =~= self@.spec_bytes());
        Ok(wtr)
    }

    pub fn write_to(&self, out: &mut Vec<u8>)
        ensures
            final(out)@ == old(out)@ + self@.spec_bytes(),
    {
        self.message.write_to(out);
        out.push(self.code);
        self.reason.write_to(out);
        match &self.extra_data {
            Some(h) => {
                push_all(out, h.as_slice());
            },
            None => {},
        }
        assert(out@ =~= old(out)@ + self@.spec_bytes());
    }
}

/// Reading back a written `reject` payload that round-trips gives it back and
/// consumes exactly the written bytes, whatever follows them.
pub proof fn lemma_reject_round_trip(v: RejectView, rest: Seq<u8>)
    requires
        v.round_trips(),
    ensures
        Reject::spec_parse(v.spec_bytes() + rest) == Ok::<(RejectView, nat), CodecError>(
            (v, v.spec_bytes().len()),
        ),
{
    let a = v.message.spec_bytes();
    let b = v.reason.spec_bytes();
    let h = match v.extra_data {
        Some(h) => h,
        None => Seq::<u8>::empty(),
    };
    let s = v.spec_bytes() + rest;
    assert(s =~= a + (seq![v.code] + (b + (h + rest))));
    lemma_var_str_round_trip(v.message, seq![v.code] + (b + (h + rest)));
    assert(s.skip(a.len() as int)[0] == v.code);
    assert(s.skip((a.len() + 1) as int) =~= b + (h + rest));
    lemma_var_str_round_trip(v.reason, h + rest);
    let p: int = (a.len() + 1 + b.len()) as int;
    assert(s.skip(p) =~= h + rest);
    if spec_code_has_hash(v.code) {
        assert(take_upto(s.skip(p), 32) =~= h);
    }
}

/// The reject codes that carry the 32-byte hash of the refused object are
/// exactly the malformed, invalid, obsolete and duplicate codes (0x10, 0x11,
/// 0x12) and the nonstandard, dust, insufficient-fee and checkpoint codes
/// (0x40 to 0x43). A decoded reject holds a hash exactly for those codes: the
/// 32 bytes after its reason, or as many as there are.
pub proof fn lemma_reject_hash_codes(s: Seq<u8>)
    ensures
        forall|code: u8| spec_code_has_hash(code) <==> #[trigger] set![
            0x10u8,
            0x11u8,
            0x12u8,
            0x40u8,
            0x41u8,
            0x42u8,
            0x43u8,
        ].contains(code),
        Reject::spec_parse(s) matches Ok((r, n)) ==> {
            &&& (r.extra_data is Some <==> set![0x10u8, 0x11u8, 0x12u8, 0x40u8, 0x41u8, 0x42u8, 0x43u8].contains(r.code))
            &&& (r.extra_data matches Some(h) ==> h.len() == (if s.len() - (n - h.len()) >= 32 { 32 } else { s.len() - (n - h.len()) })
                && h == s.subrange(n - h.len(), n as int))
        },
{
    match Reject::spec_parse(s) {
        Ok((r, n)) => {
            if r.extra_data is Some {
                let (message, n1) = VarStr::spec_parse(s).unwrap();
                let (reason, n2) = VarStr::spec_parse(s.skip((n1 + 1) as int)).unwrap();
                let p: int = (n1 + 1 + n2) as int;
                let h = take_upto(s.skip(p), 32);
                assert(h =~= s.subrange(p, p + h.len()));
            }
        },
        Err(_) => {},
    }
}

} // verus!
