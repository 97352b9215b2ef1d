//! The `addr` payload: addresses of known peers.
use vstd::prelude::*;
use crate::codec::wire::{CodecError, outcome, ends_within, spec_decode_list, spec_encode_list, decode_list, encode_list, views, lemma_list_round_trip};
use crate::codec::commons::var_uint::{VarUint, lemma_var_uint_round_trip};
use crate::codec::commons::net_addr_time::{NetAddrTime, NetAddrTimeView};

verus! {

/// A count, then that many stamped addresses.
#[derive(Debug, Clone)]
pub struct Addr {
    pub addr_count: VarUint,
    pub addrs: Vec<NetAddrTime>,
}

pub struct AddrView {
    pub addr_count: VarUint,
    pub addrs: Seq<NetAddrTimeView>,
}

impl View for Addr {
    type V = AddrView;

    open spec fn view(&self) -> AddrView {
        AddrView { addr_count: self.addr_count, addrs: views(self.addrs@) }
    }
}

impl AddrView {
    pub open spec fn spec_bytes(self) -> Seq<u8> {
        self.addr_count.spec_bytes() + spec_encode_list::<NetAddrTime>(self.addrs)
    }

    pub open spec fn round_trips(self) -> bool {
        &&& self.addr_count.round_trips()
        &&& self.addr_count.spec_as_usize() matches Some(n) && n as nat == self.addrs.len()
        &&& forall|i: int| 0 <= i < self.addrs.len() ==> (#[trigger] self.addrs[i]).round_trips()
    }
}

impl Addr {
    pub open spec fn spec_parse(s: Seq<u8>) -> Result<(AddrView, nat), CodecError> {
        match VarUint::spec_parse(s) {
            Err(e) => Err(e),
            Ok((addr_count, n1)) => match addr_count.spec_as_usize() {
                None => Err(CodecError::LengthTooBig),
                Some(c) => match spec_decode_list::<NetAddrTime>(s.skip(n1 as int), c as nat) {
                    Err(e) => Err(e),
                    Ok((addrs, n2)) => Ok((AddrView { addr_count, addrs }, n1 + n2)),
                },
            },
        }
    }

    pub fn new(bytes: &[u8], pos: usize) -> (r: Result<(Addr, usize), CodecError>)
        requires
            pos <= bytes@.len(),
        ensures
            outcome(r, pos) == Addr::spec_parse(bytes@.skip(pos as int)),
            ends_within(r, pos, bytes@.len()),
    {
        let (addr_count, p) = VarUint::new(bytes, pos)?;
        let c = match addr_count.as_usize() {
            Some(c) => c,
            None => {
                return Err(CodecError::LengthTooBig);
            },
        };
        assert(bytes@.skip(p as int) =~= bytes@.skip(pos as int).skip((p - pos) as int));
        let (addrs, p) = decode_list::<NetAddrTime>(bytes, p, c)?;
        Ok((Addr { addr_count, addrs }, p))
    }

    pub fn into_bytes(&self) -> (r: Result<Vec<u8>, CodecError>)
        ensures
            r matches Ok(v) && v@ == self@.spec_bytes(),
    {
        let mut wtr: Vec<u8> = Vec::new();
        self.write_to(&mut wtr);
        assert(wtr@ =~= self@.spec_bytes());
        Ok(wtr)
    }

    pub fn write_to(&self, out: &mut Vec<u8>)
        ensures
            final(out)@ == old(out)@ + self@.spec_bytes(),
    {
        self.addr_count.write_to(out);
        encode_list(&self.addrs, out);
        assert(out@ =~= old(out)@ + self@.spec_bytes());
    }
}

/// Reading back a written `addr` payload that round-trips gives it back
/// and consumes exactly the written bytes, whatever follows them.
pub proof fn lemma_addr_round_trip(v: AddrView, rest: Seq<u8>)
    requires
        v.round_trips(),
    ensures
        Addr::spec_parse(v.spec_bytes() + rest) == Ok::<(AddrView, nat), CodecError>(
            (v, v.spec_bytes().len()),
        ),
{
    let a = v.addr_count.spec_bytes();
    let b = spec_encode_list::<NetAddrTime>(v.addrs);
    let s = v.spec_bytes() + rest;
    assert(s =~= a + (b + rest));
    lemma_var_uint_round_trip(v.addr_count, b + rest);
    assert(s.skip(a.len() as int) =~= b + rest);
    lemma_list_round_trip::<NetAddrTime>(v.addrs, rest);
}

} // verus!
