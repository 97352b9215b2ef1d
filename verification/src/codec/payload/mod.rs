pub mod ping;
pub mod pong;
pub mod fee_filter;
pub mod version;
pub mod tx;
pub mod headers;
pub mod addr;
pub mod not_found;
pub mod get_blocks;
pub mod get_headers;
pub mod reject;
pub mod block;

use vstd::prelude::*;
use crate::codec::wire::CodecError;
use crate::codec::header::cmd::Cmd;
use crate::codec::payload::tx::lemma_tx_round_trip;
use crate::codec::payload::ping::lemma_ping_round_trip;
use crate::codec::payload::pong::lemma_pong_round_trip;
use crate::codec::payload::version::lemma_version_round_trip;
use crate::codec::payload::headers::lemma_headers_round_trip;
use crate::codec::payload::addr::lemma_addr_round_trip;
use crate::codec::payload::get_blocks::lemma_get_blocks_round_trip;
use crate::codec::payload::block::lemma_block_round_trip;
use crate::codec::payload::not_found::lemma_not_found_round_trip;
use crate::codec::payload::fee_filter::lemma_fee_filter_round_trip;
use crate::codec::payload::reject::lemma_reject_round_trip;

verus! {

/// The payload of a message, told apart by the header's command.
#[derive(Debug, Clone)]
pub enum Payload {
    Tx(tx::Tx),
    Ping(ping::Ping),
    Pong(pong::Pong),
    Version(version::Version),
    Verack,
    GetHeaders(get_headers::GetHeaders),
    Headers(headers::Headers),
    SendHeaders,
    GetAddr,
    Addr(addr::Addr),
    GetBlocks(get_blocks::GetBlocks),
    Block(block::Block),
    NotFound(not_found::NotFound),
    FeeFilter(fee_filter::FeeFilter),
    MemPool,
    Reject(reject::Reject),
}

pub enum PayloadView {
    Tx(tx::TxView),
    Ping(ping::Ping),
    Pong(pong::Pong),
    Version(version::VersionView),
    Verack,
    GetHeaders(get_headers::GetHeadersView),
    Headers(headers::HeadersView),
    SendHeaders,
    GetAddr,
    Addr(addr::AddrView),
    GetBlocks(get_blocks::GetBlocksView),
    Block(block::BlockView),
    NotFound(not_found::NotFoundView),
    FeeFilter(fee_filter::FeeFilter),
    MemPool,
    Reject(reject::RejectView),
}

impl View for Payload {
    type V = PayloadView;

    open spec fn view(&self) -> PayloadView {
        match self {
            Payload::Tx(p) => PayloadView::Tx(p@),
            Payload::Ping(p) => PayloadView::Ping(p@),
            Payload::Pong(p) => PayloadView::Pong(p@),
            Payload::Version(p) => PayloadView::Version(p@),
            Payload::Verack => PayloadView::Verack,
            Payload::GetHeaders(p) => PayloadView::GetHeaders(p@),
            Payload::Headers(p) => PayloadView::Headers(p@),
            Payload::SendHeaders => PayloadView::SendHeaders,
            Payload::GetAddr => PayloadView::GetAddr,
            Payload::Addr(p) => PayloadView::Addr(p@),
            Payload::GetBlocks(p) => PayloadView::GetBlocks(p@),
            Payload::Block(p) => PayloadView::Block(p@),
            Payload::NotFound(p) => PayloadView::NotFound(p@),
            Payload::FeeFilter(p) => PayloadView::FeeFilter(p@),
            Payload::MemPool => PayloadView::MemPool,
            Payload::Reject(p) => PayloadView::Reject(p@),
        }
    }
}

/// The result of a payload decoder, with the payload taken by its view.
pub open spec fn payload_outcome(r: Result<Payload, CodecError>) -> Result<PayloadView, CodecError> {
    match r {
        Ok(p) => Ok(p@),
        Err(e) => Err(e),
    }
}

impl PayloadView {
    pub open spec fn spec_bytes(self) -> Seq<u8> {
        match self {
            PayloadView::Tx(p) => p.spec_bytes(),
            PayloadView::Ping(p) => p.spec_bytes(),
            PayloadView::Pong(p) => p.spec_bytes(),
            PayloadView::Version(p) => p.spec_bytes(),
            PayloadView::Verack => Seq::empty(),
            PayloadView::GetHeaders(p) => p.spec_bytes(),
            PayloadView::Headers(p) => p.spec_bytes(),
            PayloadView::SendHeaders => Seq::empty(),
            PayloadView::GetAddr => Seq::empty(),
            PayloadView::Addr(p) => p.spec_bytes(),
            PayloadView::GetBlocks(p) => p.spec_bytes(),
            PayloadView::Block(p) => p.spec_bytes(),
            PayloadView::NotFound(p) => p.spec_bytes(),
            PayloadView::FeeFilter(p) => p.spec_bytes(),
            PayloadView::MemPool => Seq::empty(),
            PayloadView::Reject(p) => p.spec_bytes(),
        }
    }

    /// The payloads that decoding gives back from their encoding: every kind
    /// but `getheaders`, when its parts round-trip.
    pub open spec fn round_trips(self) -> bool {
        match self {
            PayloadView::Tx(p) => p.round_trips(),
            PayloadView::Ping(_) => true,
            PayloadView::Pong(_) => true,
            PayloadView::Version(p) => p.round_trips(),
            PayloadView::Verack => true,
            PayloadView::GetHeaders(_) => false,
            PayloadView::Headers(p) => p.round_trips(),
            PayloadView::SendHeaders => true,
            PayloadView::GetAddr => true,
            PayloadView::Addr(p) => p.round_trips(),
            PayloadView::GetBlocks(p) => p.round_trips(),
            PayloadView::Block(p) => p.round_trips(),
            PayloadView::NotFound(p) => p.round_trips(),
            PayloadView::FeeFilter(_) => true,
            PayloadView::MemPool => true,
            PayloadView::Reject(p) => p.round_trips(),
        }
    }

    /// The command that names a payload of this kind.
    pub open spec fn cmd(self) -> Cmd {
        match self {
            PayloadView::Tx(_) => Cmd::Tx,
            PayloadView::Ping(_) => Cmd::Ping,
            PayloadView::Pong(_) => Cmd::Pong,
            PayloadView::Version(_) => Cmd::Version,
            PayloadView::Verack => Cmd::Verack,
            PayloadView::GetHeaders(_) => Cmd::GetHeaders,
            PayloadView::Headers(_) => Cmd::Headers,
            PayloadView::SendHeaders => Cmd::SendHeaders,
            PayloadView::GetAddr => Cmd::GetAddr,
            PayloadView::Addr(_) => Cmd::Addr,
            PayloadView::GetBlocks(_) => Cmd::GetBlocks,
            PayloadView::Block(_) => Cmd::Block,
            PayloadView::NotFound(_) => Cmd::NotFound,
            PayloadView::FeeFilter(_) => Cmd::FeeFilter,
            PayloadView::MemPool => Cmd::MemPool,
            PayloadView::Reject(_) => Cmd::Reject,
        }
    }
}

impl Payload {
    /// Decoding of the payload of a message with command `cmd`; bytes after
    /// the payload are ignored, except after a transaction.
    pub open spec fn spec_parse(cmd: Cmd, s: Seq<u8>) -> Result<PayloadView, CodecError> {
        match cmd {
            Cmd::Tx => match tx::Tx::spec_parse(s) {
                Ok((p, _)) => Ok(PayloadView::Tx(p)),
                Err(e) => Err(e),
            },
            Cmd::Ping => match ping::Ping::spec_parse(s) {
                Ok((p, _)) => Ok(PayloadView::Ping(p)),
                Err(e) => Err(e),
            },
            Cmd::Pong => match pong::Pong::spec_parse(s) {
                Ok((p, _)) => Ok(PayloadView::Pong(p)),
                Err(e) => Err(e),
            },
            Cmd::Version => match version::Version::spec_parse(s) {
                Ok((p, _)) => Ok(PayloadView::Version(p)),
                Err(e) => Err(e),
            },
            Cmd::Verack => Ok(PayloadView::Verack),
            Cmd::GetHeaders => match get_headers::GetHeaders::spec_parse(s) {
                Ok((p, _)) => Ok(PayloadView::GetHeaders(p)),
                Err(e) => Err(e),
            },
            Cmd::Headers => match headers::Headers::spec_parse(s) {
                Ok((p, _)) => Ok(PayloadView::Headers(p)),
                Err(e) => Err(e),
            },
            Cmd::SendHeaders => Ok(PayloadView::SendHeaders),
            Cmd::GetAddr => Ok(PayloadView::GetAddr),
            Cmd::Addr => match addr::Addr::spec_parse(s) {
                Ok((p, _)) => Ok(PayloadView::Addr(p)),
                Err(e) => Err(e),
            },
            Cmd::GetBlocks => match get_blocks::GetBlocks::spec_parse(s) {
                Ok((p, _)) => Ok(PayloadView::GetBlocks(p)),
                Err(e) => Err(e),
            },
            Cmd::Block => match block::Block::spec_parse(s) {
                Ok((p, _)) => Ok(PayloadView::Block(p)),
                Err(e) => Err(e),
            },
            Cmd::NotFound => match not_found::NotFound::spec_parse(s) {
                Ok((p, _)) => Ok(PayloadView::NotFound(p)),
                Err(e) => Err(e),
            },
            Cmd::FeeFilter => match fee_filter::FeeFilter::spec_parse(s) {
                Ok((p, _)) => Ok(PayloadView::FeeFilter(p)),
                Err(e) => Err(e),
            },
            Cmd::MemPool => Ok(PayloadView::MemPool),
            Cmd::Reject => match reject::Reject::spec_parse(s) {
                Ok((p, _)) => Ok(PayloadView::Reject(p)),
                Err(e) => Err(e),
            },
        }
    }

    /// Decodes the payload `bytes` of a message with command `cmd`.
    pub fn new(cmd: Cmd, bytes: &[u8]) -> (r: Result<Payload, CodecError>)
        ensures
            payload_outcome(r) == Payload::spec_parse(cmd, bytes@),
    {
        assert(bytes@.skip(0) =~= bytes@);
        match cmd {
            Cmd::Tx => {
                let (p, _) = tx::Tx::new(bytes, 0)?;
                Ok(Payload::Tx(p))
            },
            Cmd::Ping => {
                let (p, _) = ping::Ping::new(bytes, 0)?;
                Ok(Payload::Ping(p))
            },
            Cmd::Pong => {
                let (p, _) = pong::Pong::new(bytes, 0)?;
                Ok(Payload::Pong(p))
            },
            Cmd::Version => {
                let (p, _) = version::Version::new(bytes, 0)?;
                Ok(Payload::Version(p))
            },
            Cmd::Verack => Ok(Payload::Verack),
            Cmd::GetHeaders => {
                let (p, _) = get_headers::GetHeaders::new(bytes, 0)?;
                Ok(Payload::GetHeaders(p))
            },
            Cmd::Headers => {
                let (p, _) = headers::Headers::new(bytes, 0)?;
                Ok(Payload::Headers(p))
            },
            Cmd::SendHeaders => Ok(Payload::SendHeaders),
            Cmd::GetAddr => Ok(Payload::GetAddr),
            Cmd::Addr => {
                let (p, _) = addr::Addr::new(bytes, 0)?;
                Ok(Payload::Addr(p))
            },
            Cmd::GetBlocks => {
                let (p, _) = get_blocks::GetBlocks::new(bytes, 0)?;
                Ok(Payload::GetBlocks(p))
            },
            Cmd::Block => {
                let (p, _) = block::Block::new(bytes, 0)?;
                Ok(Payload::Block(p))
            },
            Cmd::NotFound => {
                let (p, _) = not_found::NotFound::new(bytes, 0)?;
                Ok(Payload::NotFound(p))
            },
            Cmd::FeeFilter => {
                let (p, _) = fee_filter::FeeFilter::new(bytes, 0)?;
                Ok(Payload::FeeFilter(p))
            },
            Cmd::MemPool => Ok(Payload::MemPool),
            Cmd::Reject => {
                let (p, _) = reject::Reject::new(bytes, 0)?;
                Ok(Payload::Reject(p))
            },
        }
    }

    pub fn into_bytes(&self) -> (r: Result<Vec<u8>, CodecError>)
        ensures
            r matches Ok(v) && v@ == self@.spec_bytes(),
    {
        match self {
            Payload::Tx(p) => p.into_bytes(),
            Payload::Ping(p) => p.into_bytes(),
            Payload::Pong(p) => p.into_bytes(),
            Payload::Version(p) => p.into_bytes(),
            Payload::Verack => Ok(Vec::new()),
            Payload::GetHeaders(p) => p.into_bytes(),
            Payload::Headers(p) => p.into_bytes(),
            Payload::SendHeaders => Ok(Vec::new()),
            Payload::GetAddr => Ok(Vec::new()),
            Payload::Addr(p) => p.into_bytes(),
            Payload::GetBlocks(p) => p.into_bytes(),
            Payload::Block(p) => p.into_bytes(),
            Payload::NotFound(p) => p.into_bytes(),
            Payload::FeeFilter(p) => p.into_bytes(),
            Payload::MemPool => Ok(Vec::new()),
            Payload::Reject(p) => p.into_bytes(),
        }
    }
}

/// Decoding the encoding of a payload that round-trips, under the command
/// that names its kind, gives the payload back.
pub proof fn lemma_payload_round_trip(p: PayloadView)
    requires
        p.round_trips(),
    ensures
        Payload::spec_parse(p.cmd(), p.spec_bytes()) == Ok::<PayloadView, CodecError>(p),
{
    match p {
        PayloadView::Tx(_) | PayloadView::Ping(_) | PayloadView::Pong(_) | PayloadView::Version(_)
        | PayloadView::Verack | PayloadView::GetHeaders(_) | PayloadView::Headers(_) => {
            lemma_payload_round_trip_first(p);
        },
        _ => {
            lemma_payload_round_trip_second(p);
        },
    }
}

#[verifier::spinoff_prover]
#[verifier::rlimit(60)]
proof fn lemma_payload_round_trip_first(p: PayloadView)
    requires
        p.round_trips(),
        p is Tx || p is Ping || p is Pong || p is Version || p is Verack || p is GetHeaders || p is Headers,
    ensures
        Payload::spec_parse(p.cmd(), p.spec_bytes()) == Ok::<PayloadView, CodecError>(p),
{
    match p {
        PayloadView::Tx(x) => {
            lemma_tx_round_trip(x);
        },
        PayloadView::Ping(x) => {
            lemma_ping_round_trip(x, Seq::empty());
            assert(x.spec_bytes() + Seq::<u8>::empty() =~= x.spec_bytes());
        },
        PayloadView::Pong(x) => {
            lemma_pong_round_trip(x, Seq::empty());
            assert(x.spec_bytes() + Seq::<u8>::empty() =~= x.spec_bytes());
        },
        PayloadView::Version(x) => {
            lemma_version_round_trip(x, Seq::empty());
            assert(x.spec_bytes() + Seq::<u8>::empty() =~= x.spec_bytes());
        },
        PayloadView::Headers(x) => {
            lemma_headers_round_trip(x, Seq::empty());
            assert(x.spec_bytes() + Seq::<u8>::empty() =~= x.spec_bytes());
        },
        _ => {},
    }
}

#[verifier::spinoff_prover]
#[verifier::rlimit(60)]
proof fn lemma_payload_round_trip_second(p: PayloadView)
    requires
        p.round_trips(),
        !(p is Tx || p is Ping || p is Pong || p is Version || p is Verack || p is GetHeaders || p is Headers),
    ensures
        Payload::spec_parse(p.cmd(), p.spec_bytes()) == Ok::<PayloadView, CodecError>(p),
{
    match p {
        PayloadView::Addr(x) => {
            lemma_addr_round_trip(x, Seq::empty());
            assert(x.spec_bytes() + Seq::<u8>::empty() =~= x.spec_bytes());
        },
        PayloadView::GetBlocks(x) => {
            lemma_get_blocks_round_trip(x, Seq::empty());
            assert(x.spec_bytes() + Seq::<u8>::empty() =~= x.spec_bytes());
        },
        PayloadView::Block(x) => {
            lemma_block_round_trip(x);
        },
        PayloadView::NotFound(x) => {
            lemma_not_found_round_trip(x, Seq::empty());
            assert(x.spec_bytes() + Seq::<u8>::empty() =~= x.spec_bytes());
        },
        PayloadView::FeeFilter(x) => {
            lemma_fee_filter_round_trip(x, Seq::empty());
            assert(x.spec_bytes() + Seq::<u8>::empty() =~= x.spec_bytes());
        },
        PayloadView::Reject(x) => {
            lemma_reject_round_trip(x, Seq::empty());
            assert(x.spec_bytes() + Seq::<u8>::empty() =~= x.spec_bytes());
        },
        _ => {},
    }
}

} // verus!
