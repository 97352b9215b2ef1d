//! Network addresses stamped with the time the address was last seen.
use vstd::prelude::*;
use vstd::bytes::*;
use crate::codec::wire::{Wire, RoundTrip, CodecError, outcome, ends_within, spec_u32_le, read_u32_le, put_u32_le};
use crate::codec::commons::net_addr::{NetAddr, NetAddrView, SocketAddress, lemma_net_addr_round_trip};
use crate::codec::commons::clock::utc_now_timestamp;

verus! {

/// A Unix time, then a network address.
#[derive(Debug, Clone)]
pub struct NetAddrTime {
    pub time: u32,
    pub net_addr: NetAddr,
}

pub struct NetAddrTimeView {
    pub time: u32,
    pub net_addr: NetAddrView,
}

impl View for NetAddrTime {
    type V = NetAddrTimeView;

    open spec fn view(&self) -> NetAddrTimeView {
        NetAddrTimeView { time: self.time, net_addr: self.net_addr@ }
    }
}

impl NetAddrTimeView {
    pub open spec fn spec_bytes(self) -> Seq<u8> {
        spec_u32_to_le_bytes(self.time) + self.net_addr.spec_bytes()
    }

    pub open spec fn round_trips(self) -> bool {
        self.net_addr.round_trips()
    }
}

impl NetAddrTime {
    pub open spec fn spec_parse(s: Seq<u8>) -> Result<(NetAddrTimeView, nat), CodecError> {
        match spec_u32_le(s) {
            Err(e) => Err(e),
            Ok((time, n1)) => match NetAddr::spec_parse(s.skip(n1 as int)) {
                Err(e) => Err(e),
                Ok((net_addr, n2)) => Ok((NetAddrTimeView { time, net_addr }, n1 + n2)),
            },
        }
    }

    pub fn new(bytes: &[u8], pos: usize) -> (r: Result<(NetAddrTime, usize), CodecError>)
        requires
            pos <= bytes@.len(),
        ensures
            outcome(r, pos) == NetAddrTime::spec_parse(bytes@.skip(pos as int)),
            ends_within(r, pos, bytes@.len()),
    {
        let (time, p1) = read_u32_le(bytes, pos)?;
        assert(bytes@.skip(p1 as int) =~= bytes@.skip(pos as int).skip((p1 - pos) as int));
        let (net_addr, p2) = NetAddr::new(bytes, p1)?;
        Ok((NetAddrTime { time, net_addr }, p2))
    }

    /// The address of a socket stamped with `timestamp`, truncated to 32 bits.
    pub fn from_socket_addr_at(addr: &SocketAddress, timestamp: i64) -> (r: NetAddrTime)
        ensures
            r@ == (NetAddrTimeView {
                time: timestamp as u32,
                net_addr: NetAddr::spec_from_socket_addr(*addr),
            }),
    {
        let time = timestamp as u32;
        let net_addr = NetAddr::from_socket_addr(addr);
        NetAddrTime { time, net_addr }
    }

    /// The address of a socket stamped with the current time.
    pub fn from_socket_addr(addr: &SocketAddress) -> (r: NetAddrTime)
        ensures
            r@.net_addr == NetAddr::spec_from_socket_addr(*addr),
    {
        let now = utc_now_timestamp();
        NetAddrTime::from_socket_addr_at(addr, now)
    }

    pub fn into_bytes(&self) -> (r: Result<Vec<u8>, CodecError>)
        ensures
            r matches Ok(v) && v@ == self@.spec_bytes(),
    {
        let mut wtr: Vec<u8> = Vec::new();
        self.write_to(&mut wtr);
        assert(wtr@ =~= self@.spec_bytes());
        Ok(wtr)
    }

    pub fn write_to(&self, out: &mut Vec<u8>)
        ensures
            final(out)@ == old(out)@ + self@.spec_bytes(),
    {
        put_u32_le(out, self.time);
        self.net_addr.write_to(out);
        assert(out@ =~= old(out)@ + self@.spec_bytes());
    }
}

/// Reading back a written stamped address with 16 address bytes gives it back
/// and consumes exactly the written bytes, whatever follows them.
pub proof fn lemma_net_addr_time_round_trip(v: NetAddrTimeView, rest: Seq<u8>)
    requires
        v.round_trips(),
    ensures
        NetAddrTime::spec_parse(v.spec_bytes() + rest) == Ok::<(NetAddrTimeView, nat), CodecError>(
            (v, v.spec_bytes().len()),
        ),
{
    lemma_auto_spec_u32_to_from_le_bytes();
    let s = v.spec_bytes() + rest;
    assert(s.take(4) =~= spec_u32_to_le_bytes(v.time));
    assert(s.skip(4) =~= v.net_addr.spec_bytes() + rest);
    lemma_net_addr_round_trip(v.net_addr, rest);
}

impl Wire for NetAddrTime {
    open spec fn spec_decode(s: Seq<u8>) -> Result<(NetAddrTimeView, nat), CodecError> {
        NetAddrTime::spec_parse(s)
    }

    open spec fn spec_encode(v: NetAddrTimeView) -> Seq<u8> {
        v.spec_bytes()
    }

    fn decode(bytes: &[u8], pos: usize) -> (r: Result<(NetAddrTime, usize), CodecError>) {
        NetAddrTime::new(bytes, pos)
    }

    fn encode_to(&self, out: &mut Vec<u8>) {
        self.write_to(out)
    }
}

impl RoundTrip for NetAddrTime {
    open spec fn spec_round_trips(v: NetAddrTimeView) -> bool {
        v.round_trips()
    }

    proof fn lemma_round_trip(v: NetAddrTimeView, rest: Seq<u8>) {
        lemma_net_addr_time_round_trip(v, rest);
    }
}

} // verus!
