//! Whole messages: a header and its payload.
use vstd::prelude::*;
use crate::codec::wire::CodecError;
use crate::codec::header::{Header, HEADER_LEN, lemma_header_round_trip, lemma_header_len};
use crate::codec::header::cmd::Cmd;
use crate::codec::header::network::Network;
use crate::codec::payload::{Payload, PayloadView, payload_outcome, lemma_payload_round_trip};
use crate::codec::payload::version::{Version, VersionView};
use crate::codec::payload::get_headers::{GetHeaders, GetHeadersView};
use crate::codec::commons::var_uint::VarUint;
use crate::codec::commons::var_str::{VarStr, VarStrView};
use crate::codec::commons::net_addr::{NetAddr, SocketAddress};
use crate::codec::commons::clock::{utc_now_timestamp, random_u64};
use crate::codec::checksum::{spec_chk, payload_checksum};
use crate::codec::hex_text::{spec_hex_decode, hex_decode};
use crate::codec::wire::{read_upto, views};

verus! {

#[derive(Debug, Clone)]
pub struct Msg {
    pub header: Header,
    pub payload: Option<Payload>,
}

pub struct MsgView {
    pub header: Header,
    pub payload: Option<PayloadView>,
}

impl View for Msg {
    type V = MsgView;

    open spec fn view(&self) -> MsgView {
        MsgView {
            header: self.header,
            payload: match self.payload {
                Some(p) => Some(p@),
                None => None,
            },
        }
    }
}

/// The result of a message decoder, with the message taken by its view.
pub open spec fn msg_outcome(r: Result<Msg, CodecError>) -> Result<MsgView, CodecError> {
    match r {
        Ok(m) => Ok(m@),
        Err(e) => Err(e),
    }
}

/// The protocol version that this node speaks.
pub const PROTOCOL_VERSION: i32 = 70013;

/// The user agent of this node, `/Rustbtc:0.0.1/`.
pub open spec fn spec_user_agent() -> Seq<u8> {
    seq![
        0x2Fu8, 0x52u8, 0x75u8, 0x73u8, 0x74u8, 0x62u8, 0x74u8, 0x63u8, 0x3Au8, 0x30u8, 0x2Eu8,
        0x30u8, 0x2Eu8, 0x31u8, 0x2Fu8,
    ]
}

/// The address under which this node introduces itself: the IPv4 loopback
/// address mapped into IPv6, port 8333.
pub open spec fn spec_self_address() -> SocketAddress {
    SocketAddress::V6 {
        ip: [0u8, 0u8, 0u8, 0u8, 0u8, 0u8, 0u8, 0u8, 0u8, 0u8, 0xFFu8, 0xFFu8, 0x7Fu8, 0u8, 0u8, 1u8],
        port: 8333,
    }
}

/// The hash of the genesis block, as the `getheaders` request sends it.
pub open spec fn spec_genesis_hash() -> Seq<u8> {
    seq![
        0x00u8, 0x00u8, 0x00u8, 0x00u8, 0x00u8, 0x19u8, 0xd6u8, 0x68u8, 0x9cu8, 0x08u8, 0x5au8,
        0xe1u8, 0x65u8, 0x83u8, 0x1eu8, 0x93u8, 0x4fu8, 0xf7u8, 0x63u8, 0xaeu8, 0x46u8, 0xa2u8,
        0xa6u8, 0xc1u8, 0x72u8, 0xb3u8, 0xf1u8, 0xb6u8, 0x0au8, 0x8cu8, 0xe2u8, 0x6fu8,
    ]
}

/// The header that announces `payload` on the main network under `cmd`.
pub open spec fn spec_header_for(cmd: Cmd, payload: Seq<u8>) -> Header {
    Header {
        network: Network::Main,
        cmd,
        payload_len: payload.len() as i32,
        payloadchk: spec_chk(payload),
    }
}

/// The `version` payload with which this node introduces itself to `addr`.
pub open spec fn spec_version_payload(addr: SocketAddress, nonce: u64, timestamp: i64) -> VersionView {
    let addr_trans = NetAddr::spec_from_socket_addr(addr);
    VersionView {
        version: PROTOCOL_VERSION,
        services: addr_trans.service,
        timestamp,
        addr_recv: NetAddr::spec_from_socket_addr(spec_self_address()),
        addr_trans,
        nonce,
        user_agent: VarStrView { length: VarUint::U8(15), string: spec_user_agent() },
        start_height: 0,
        relay: Some(false),
    }
}

pub open spec fn spec_new_version(addr: SocketAddress, nonce: u64, timestamp: i64) -> MsgView {
    let p = spec_version_payload(addr, nonce, timestamp);
    MsgView {
        header: spec_header_for(Cmd::Version, p.spec_bytes()),
        payload: Some(PayloadView::Version(p)),
    }
}

/// The `getheaders` payload that asks for the headers after the genesis block.
pub open spec fn spec_get_headers_payload() -> GetHeadersView {
    GetHeadersView {
        version: PROTOCOL_VERSION,
        hash_count: VarUint::U8(1),
        block_locator_hashes: seq![spec_genesis_hash()],
        hash_stop: Seq::new(32, |i: int| 0u8),
    }
}

pub open spec fn spec_new_get_headers() -> MsgView {
    let p = spec_get_headers_payload();
    MsgView {
        header: spec_header_for(Cmd::GetHeaders, p.spec_bytes()),
        payload: Some(PayloadView::GetHeaders(p)),
    }
}

pub open spec fn spec_new_verack() -> MsgView {
    MsgView { header: spec_header_for(Cmd::Verack, Seq::empty()), payload: None }
}

impl MsgView {
    pub open spec fn spec_bytes(self) -> Seq<u8> {
        self.header.spec_bytes() + match self.payload {
            Some(p) => p.spec_bytes(),
            None => Seq::empty(),
        }
    }

    /// A payload whose decoding gives it back, named by the header's command
    /// and matching the header's checksum.
    pub open spec fn round_trips(self) -> bool {
        &&& self.payload matches Some(p)
        &&& p.round_trips()
        &&& self.header.cmd == p.cmd()
        &&& self.header.payloadchk == spec_chk(p.spec_bytes())
    }
}

impl Msg {
    /// Decoding of a whole message: a header, then everything after it is the
    /// payload, whose checksum must match the header's.
    pub open spec fn spec_parse(s: Seq<u8>) -> Result<MsgView, CodecError> {
        match Header::spec_parse(s) {
            Err(e) => Err(e),
            Ok((header, n)) => {
                let rest = s.skip(n as int);
                if spec_chk(rest) != header.payloadchk {
                    Err(CodecError::ChecksumMismatch)
                } else {
                    match Payload::spec_parse(header.cmd, rest) {
                        Err(e) => Err(e),
                        Ok(p) => Ok(MsgView { header, payload: Some(p) }),
                    }
                }
            },
        }
    }

    /// The checksum of a payload.
    pub fn chk(payload: &[u8]) -> (r: Result<u32, CodecError>)
        ensures
            r == Ok::<u32, CodecError>(spec_chk(payload@)),
    {
        Ok(payload_checksum(payload))
    }

    /// Decodes a whole message: the header, then the payload from all the
    /// remaining bytes.
    pub fn new(bytes: &[u8]) -> (r: Result<Msg, CodecError>)
        ensures
            msg_outcome(r) == Msg::spec_parse(bytes@),
    {
        assert(bytes@.skip(0) =~= bytes@);
        let (header, p) = Header::new(bytes, 0)?;
        let (payload_bytes, _) = read_upto(bytes, p, bytes.len() - p);
        assert(payload_bytes@ =~= bytes@.skip(p as int));
        let chk = payload_checksum(payload_bytes.as_slice());
        if chk != header.payloadchk {
            return Err(CodecError::ChecksumMismatch);
        }
        let payload = Payload::new(header.cmd, payload_bytes.as_slice())?;
        Ok(Msg { header, payload: Some(payload) })
    }

    /// Decodes a message written as hexadecimal text.
    pub fn new_from_hex(hex: &str) -> (r: Result<Msg, CodecError>)
        ensures
            match spec_hex_decode(hex@) {
                None => r == Err::<Msg, CodecError>(CodecError::InvalidHex),
                Some(b) => msg_outcome(r) == Msg::spec_parse(b),
            },
    {
        match hex_decode(hex) {
            None => Err(CodecError::InvalidHex),
            Some(bytes) => Msg::new(bytes.as_slice()),
        }
    }

    /// The `verack` message, with no payload.
    pub fn new_verack() -> (r: Msg)
        ensures
            r@ == spec_new_verack(),
    {
        let verack_pl_raw: Vec<u8> = Vec::new();
        let payloadchk = payload_checksum(verack_pl_raw.as_slice());
        let header = Header {
            network: Network::Main,
            cmd: Cmd::Verack,
            payload_len: verack_pl_raw.len() as i32,
            payloadchk,
        };
        assert(verack_pl_raw@ =~= Seq::<u8>::empty());
        Msg { header, payload: None }
    }

    /// The `getheaders` message that asks for the headers after the genesis
    /// block.
    pub fn new_get_headers() -> (r: Msg)
        ensures
            r@ == spec_new_get_headers(),
    {
        let hash_count = VarUint::from_bytes(&[1u8]);
        let hash_genesis: Vec<u8> = vec![
            0x00u8, 0x00u8, 0x00u8, 0x00u8, 0x00u8, 0x19u8, 0xd6u8, 0x68u8, 0x9cu8, 0x08u8, 0x5au8,
            0xe1u8, 0x65u8, 0x83u8, 0x1eu8, 0x93u8, 0x4fu8, 0xf7u8, 0x63u8, 0xaeu8, 0x46u8, 0xa2u8,
            0xa6u8, 0xc1u8, 0x72u8, 0xb3u8, 0xf1u8, 0xb6u8, 0x0au8, 0x8cu8, 0xe2u8, 0x6fu8,
        ];
        assert(hash_genesis@ =~= spec_genesis_hash());
        let mut hash_stop: Vec<u8> = Vec::new();
        let mut i: usize = 0;
        while i < 32
            invariant
                i <= 32,
                hash_stop@ =~= Seq::new(i as nat, |j: int| 0u8),
            decreases 32 - i,
        {
            hash_stop.push(0u8);
            i = i + 1;
        }
        let block_locator_hashes: Vec<Vec<u8>> = vec![hash_genesis];
        assert(views(block_locator_hashes@) =~= seq![spec_genesis_hash()]);
        let payload = GetHeaders {
            version: PROTOCOL_VERSION,
            hash_count,
            block_locator_hashes,
            hash_stop,
        };
        assert(payload@ == spec_get_headers_payload());
        let raw = match payload.into_bytes() {
            Ok(v) => v,
            Err(_) => vstd::pervasive::unreached(),
        };
        let header = Header {
            network: Network::Main,
            cmd: Cmd::GetHeaders,
            payload_len: raw.len() as i32,
            payloadchk: payload_checksum(raw.as_slice()),
        };
        Msg { header, payload: Some(Payload::GetHeaders(payload)) }
    }

    /// The `version` message with which this node introduces itself to
    /// `addr`, with the given nonce and time.
    pub fn new_version_at(addr: &SocketAddress, nonce: u64, timestamp: i64) -> (r: Msg)
        ensures
            r@ == spec_new_version(*addr, nonce, timestamp),
    {
        let self_addr = SocketAddress::V6 {
            ip: [0u8, 0u8, 0u8, 0u8, 0u8, 0u8, 0u8, 0u8, 0u8, 0u8, 0xFFu8, 0xFFu8, 0x7Fu8, 0u8, 0u8, 1u8],
            port: 8333,
        };
        let addr_trans = NetAddr::from_socket_addr(addr);
        let addr_recv = NetAddr::from_socket_addr(&self_addr);
        let services = addr_trans.service;
        let agent_bytes: [u8; 15] = [
            0x2Fu8, 0x52u8, 0x75u8, 0x73u8, 0x74u8, 0x62u8, 0x74u8, 0x63u8, 0x3Au8, 0x30u8, 0x2Eu8,
            0x30u8, 0x2Eu8, 0x31u8, 0x2Fu8,
        ];
        assert(agent_bytes@ =~= spec_user_agent());
        let user_agent = match VarStr::from_bytes(&agent_bytes) {
            Ok(u) => u,
            Err(_) => vstd::pervasive::unreached(),
        };
        let version_pl = Version {
            version: PROTOCOL_VERSION,
            services,
            timestamp,
            addr_recv,
            addr_trans,
            nonce,
            user_agent,
            start_height: 0,
            relay: Some(false),
        };
        assert(version_pl@ == spec_version_payload(*addr, nonce, timestamp));
        let raw = match version_pl.into_bytes() {
            Ok(v) => v,
            Err(_) => vstd::pervasive::unreached(),
        };
        let header = Header {
            network: Network::Main,
            cmd: Cmd::Version,
            payload_len: raw.len() as i32,
            payloadchk: payload_checksum(raw.as_slice()),
        };
        Msg { header, payload: Some(Payload::Version(version_pl)) }
    }

    /// The `version` message with which this node introduces itself to
    /// `addr`, with a random nonce and the current time.
    pub fn new_version(addr: &SocketAddress) -> (r: Msg)
        ensures
            r@.payload matches Some(PayloadView::Version(v)) && r@ == spec_new_version(
                *addr,
                v.nonce,
                v.timestamp,
            ),
    {
        let nonce = random_u64();
        let timestamp = utc_now_timestamp();
        Msg::new_version_at(addr, nonce, timestamp)
    }

    pub fn into_bytes(&self) -> (r: Result<Vec<u8>, CodecError>)
        ensures
            r matches Ok(v) && v@ == self@.spec_bytes(),
    {
        let mut wrt = self.header.into_bytes()?;
        match &self.payload {
            Some(p) => {
                let mut pl = p.into_bytes()?;
                wrt.append(&mut pl);
            },
            None => {},
        }
        assert(wrt@ =~= self@.spec_bytes());
        Ok(wrt)
    }
}

/// Reading back a written message gives it back, when its payload
/// round-trips, is named by the header's command and matches the header's
/// checksum.
pub proof fn lemma_msg_round_trip(m: MsgView)
    requires
        m.round_trips(),
    ensures
        Msg::spec_parse(m.spec_bytes()) == Ok::<MsgView, CodecError>(m),
{
    let p = m.payload.unwrap();
    let hb = m.header.spec_bytes();
    let pb = p.spec_bytes();
    lemma_header_round_trip(m.header, pb);
    lemma_header_len(m.header);
    assert((hb + pb).skip(HEADER_LEN as int) =~= pb);
    lemma_payload_round_trip(p);
}

/// A message whose checksum does not match its payload is refused, whatever
/// else it holds.
pub proof fn lemma_checksum_mismatch_refused(m: MsgView)
    requires
        m.payload is Some,
        m.header.payloadchk != spec_chk(m.payload.unwrap().spec_bytes()),
    ensures
        Msg::spec_parse(m.spec_bytes()) == Err::<MsgView, CodecError>(CodecError::ChecksumMismatch),
{
    let pb = m.payload.unwrap().spec_bytes();
    lemma_header_round_trip(m.header, pb);
    lemma_header_len(m.header);
    assert((m.header.spec_bytes() + pb).skip(HEADER_LEN as int) =~= pb);
}

/// The `version` message that this node sends reads back as itself.
pub proof fn lemma_new_version_round_trip(addr: SocketAddress, nonce: u64, timestamp: i64)
    ensures
        Msg::spec_parse(spec_new_version(addr, nonce, timestamp).spec_bytes()) == Ok::<
            MsgView,
            CodecError,
        >(spec_new_version(addr, nonce, timestamp)),
{
    let m = spec_new_version(addr, nonce, timestamp);
    let v = spec_version_payload(addr, nonce, timestamp);
    match addr {
        SocketAddress::V4 { ip4, port } => {
            assert(v.addr_trans.ip.len() == 16);
        },
        SocketAddress::V6 { ip, port } => {},
    }
    assert(spec_user_agent().len() == 15);
    assert(v.round_trips());
    lemma_msg_round_trip(m);
}

/// The `verack` message that this node sends reads back with the empty
/// `verack` payload in place of no payload.
pub proof fn lemma_new_verack_reads_back()
    ensures
        Msg::spec_parse(spec_new_verack().spec_bytes()) == Ok::<MsgView, CodecError>(
            MsgView {
                header: spec_new_verack().header,
                payload: Some(PayloadView::Verack),
            },
        ),
{
    let m = MsgView { header: spec_new_verack().header, payload: Some(PayloadView::Verack) };
    assert(PayloadView::Verack.spec_bytes() =~= Seq::<u8>::empty());
    assert(m.spec_bytes() =~= spec_new_verack().spec_bytes());
    lemma_msg_round_trip(m);
}

} // verus!
