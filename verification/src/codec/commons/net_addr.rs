//! Network addresses: services, an IPv6 (or IPv4-mapped) address and a port.
use vstd::prelude::*;
use vstd::bytes::*;
use crate::codec::wire::{CodecError, outcome, ends_within, take_upto, spec_u64_le, spec_u16_be, spec_u16_to_be_bytes, spec_u16_from_be_bytes, read_u64_le, read_upto, read_u16_be, push_all, put_u64_le, put_u16_be};

verus! {

/// A socket address as the node sees it: an IP address and a port.
#[derive(Debug, Clone, Copy, PartialEq, Eq)]
pub enum SocketAddress {
    V4 { ip4: [u8; 4], port: u16 },
    V6 { ip: [u8; 16], port: u16 },
}

/// The services a node offers, the 16 bytes of its address in network order,
/// and its port. When the input ends early the decoded address holds fewer
/// than 16 bytes.
#[derive(Debug, Clone)]
pub struct NetAddr {
    pub service: u64,
    pub ip: Vec<u8>,
    pub port: u16,
}

pub struct NetAddrView {
    pub service: u64,
    pub ip: Seq<u8>,
    pub port: u16,
}

impl View for NetAddr {
    type V = NetAddrView;

    open spec fn view(&self) -> NetAddrView {
        NetAddrView { service: self.service, ip: self.ip@, port: self.port }
    }
}

pub open spec fn ip_len() -> nat {
    16
}

/// The IPv6 address that holds an IPv4 address: ten zero bytes, two `0xFF`
/// bytes, then the four bytes of the IPv4 address.
pub open spec fn spec_ipv4_mapped(ip: Seq<u8>) -> Seq<u8> {
    seq![0u8, 0u8, 0u8, 0u8, 0u8, 0u8, 0u8, 0u8, 0u8, 0u8, 0xFFu8, 0xFFu8] + ip
}

impl NetAddrView {
    pub open spec fn spec_bytes(self) -> Seq<u8> {
        spec_u64_to_le_bytes(self.service) + self.ip + spec_u16_to_be_bytes(self.port)
    }

    pub open spec fn round_trips(self) -> bool {
        self.ip.len() == ip_len()
    }
}

impl NetAddr {
    pub open spec fn spec_parse(s: Seq<u8>) -> Result<(NetAddrView, nat), CodecError> {
        match spec_u64_le(s) {
            Err(e) => Err(e),
            Ok((service, n1)) => {
                let ip = take_upto(s.skip(n1 as int), ip_len());
                let n2 = n1 + ip.len();
                match spec_u16_be(s.skip(n2 as int)) {
                    Err(e) => Err(e),
                    Ok((port, n3)) => Ok((NetAddrView { service, ip, port }, n2 + n3)),
                }
            },
        }
    }

    /// The address that `from_socket_addr` makes, with no services.
    pub open spec fn spec_from_socket_addr(addr: SocketAddress) -> NetAddrView {
        match addr {
            SocketAddress::V4 { ip4, port } => NetAddrView {
                service: 0,
                ip: spec_ipv4_mapped(ip4@),
                port,
            },
            SocketAddress::V6 { ip, port } => NetAddrView { service: 0, ip: ip@, port },
        }
    }

    pub fn new(bytes: &[u8], pos: usize) -> (r: Result<(NetAddr, usize), CodecError>)
        requires
            pos <= bytes@.len(),
        ensures
            outcome(r, pos) == NetAddr::spec_parse(bytes@.skip(pos as int)),
            ends_within(r, pos, bytes@.len()),
    {
        let ghost s = bytes@.skip(pos as int);
        let (service, p1) = read_u64_le(bytes, pos)?;
        assert(bytes@.skip(p1 as int) =~= s.skip((p1 - pos) as int));
        let (ip, p2) = read_upto(bytes, p1, 16);
        assert(bytes@.skip(p2 as int) =~= s.skip((p2 - pos) as int));
        let (port, p3) = read_u16_be(bytes, p2)?;
        Ok((NetAddr { service, ip, port }, p3))
    }

    /// A copy of the address.
    pub fn duplicate(&self) -> (r: NetAddr)
        ensures
            r@ == self@,
    {
        let ip = self.ip.clone();
        assert(ip@ =~= self.ip@);
        NetAddr { service: self.service, ip, port: self.port }
    }

    /// The address of a socket, with no services; an IPv4 address is mapped
    /// into the IPv6 space.
    pub fn from_socket_addr(addr: &SocketAddress) -> (r: NetAddr)
        ensures
            r@ == NetAddr::spec_from_socket_addr(*addr),
    {
        match *addr {
            SocketAddress::V4 { ip4, port } => {
                let mut bytes: Vec<u8> = vec![0u8, 0u8, 0u8, 0u8, 0u8, 0u8, 0u8, 0u8, 0u8, 0u8, 0xFFu8, 0xFFu8];
                push_all(&mut bytes, &ip4);
                assert(bytes@ =~= spec_ipv4_mapped(ip4@));
                NetAddr { service: 0, ip: bytes, port }
            },
            SocketAddress::V6 { ip, port } => {
                let mut bytes: Vec<u8> = Vec::new();
                push_all(&mut bytes, &ip);
                assert(bytes@ =~= ip@);
                NetAddr { service: 0, ip: bytes, port }
            },
        }
    }

    /// The socket this address names: an IPv6 socket with the 16 address
    /// bytes and the port.
    pub fn to_socket_addr(&self) -> (r: SocketAddress)
        requires
            self.ip@.len() == ip_len(),
        ensures
            r matches SocketAddress::V6 { ip, port } && ip@ == self.ip@ && port == self.port,
    {
        let mut ip = [0u8; 16];
        let mut i: usize = 0;
        while i < 16
            invariant
                i <= 16,
                self.ip@.len() == 16,
                forall|j: int| 0 <= j < i ==> ip@[j] == self.ip@[j],
            decreases 16 - i,
        {
            ip[i] = self.ip[i];
            i = i + 1;
        }
        assert(ip@ =~= self.ip@);
        SocketAddress::V6 { ip, port: self.port }
    }

    pub fn into_bytes(&self) -> (r: Result<Vec<u8>, CodecError>)
        ensures
            r matches Ok(v) && v@ == self@.spec_bytes(),
    {
        let mut wtr: Vec<u8> = Vec::new();
        self.write_to(&mut wtr);
        assert(wtr@ =~= self@.spec_bytes());
        Ok(wtr)
    }

    pub fn write_to(&self, out: &mut Vec<u8>)
        ensures
            final(out)@ == old(out)@ + self@.spec_bytes(),
    {
        put_u64_le(out, self.service);
        push_all(out, self.ip.as_slice());
        put_u16_be(out, self.port);
        assert(out@ =~= old(out)@ + self@.spec_bytes());
    }
}

pub proof fn lemma_u16_be_round_trip(x: u16)
    ensures
        spec_u16_from_be_bytes(spec_u16_to_be_bytes(x)) == x,
{
    let b0 = (x >> 8) as u8;
    let b1 = (x & 0xff) as u8;
    assert((((x >> 8) as u8) as u16) << 8 | (((x & 0xff) as u8) as u16) == x) by (bit_vector);
    assert(spec_u16_to_be_bytes(x)[0] == b0);
    assert(spec_u16_to_be_bytes(x)[1] == b1);
}

/// Reading back a written address with 16 address bytes gives it back and
/// consumes exactly the written bytes, whatever follows them.
pub proof fn lemma_net_addr_round_trip(v: NetAddrView, rest: Seq<u8>)
    requires
        v.round_trips(),
    ensures
        NetAddr::spec_parse(v.spec_bytes() + rest) == Ok::<(NetAddrView, nat), CodecError>(
            (v, v.spec_bytes().len()),
        ),
{
    lemma_auto_spec_u64_to_from_le_bytes();
    lemma_u16_be_round_trip(v.port);
    let s = v.spec_bytes() + rest;
    assert(s.take(8) =~= spec_u64_to_le_bytes(v.service));
    assert(take_upto(s.skip(8), ip_len()) =~= v.ip);
    assert(s.skip(24).take(2) =~= spec_u16_to_be_bytes(v.port));
}

} // verus!
