//! The framing of messages on a connection: the bytes read and not yet
//! decoded, and the bytes buffered and not yet written. The connection
//! itself belongs to the caller, who feeds what it reads and writes what this
//! buffer hands out.
use vstd::prelude::*;
use crate::codec::wire::{CodecError, read_upto};
use crate::codec::header::{Header, HEADER_LEN, lemma_header_len, lemma_header_round_trip};
use crate::codec::msg::{Msg, MsgView, lemma_msg_round_trip};
use bytes::BytesMut;

verus! {

#[verifier::external_type_specification]
#[verifier::external_body]
pub struct ExBytesMut(BytesMut);

/// The bytes that a `BytesMut` holds.
pub uninterp spec fn bytes_contents(b: BytesMut) -> Seq<u8>;

/// `bytes`' `BytesMut::new`: an empty buffer.
#[verifier::external_body]
fn bytes_new() -> (r: BytesMut)
    ensures
        bytes_contents(r) == Seq::<u8>::empty(),
{
    BytesMut::new()
}

/// `bytes`' `BytesMut::extend_from_slice`: appends `s`, growing the buffer
/// first where it lacks room. Its growth panics where the new length
/// overflows `usize`; what an allocator refuses is left unsaid.
#[verifier::external_body]
fn bytes_extend(b: &mut BytesMut, s: &[u8])
    requires
        bytes_contents(*old(b)).len() + s@.len() <= usize::MAX,
    ensures
        bytes_contents(*final(b)) == bytes_contents(*old(b)) + s@,
{
    b.extend_from_slice(s)
}

/// `bytes`' `BytesMut::len`: the number of bytes held.
#[verifier::external_body]
fn bytes_len(b: &BytesMut) -> (r: usize)
    ensures
        r == bytes_contents(*b).len(),
{
    b.len()
}

/// `bytes`' `BytesMut::split_to`: takes out the first `at` bytes and hands
/// them back; it panics when fewer are held.
#[verifier::external_body]
fn bytes_split_to(b: &mut BytesMut, at: usize) -> (r: BytesMut)
    requires
        at <= bytes_contents(*old(b)).len(),
    ensures
        bytes_contents(r) == bytes_contents(*old(b)).take(at as int),
        bytes_contents(*final(b)) == bytes_contents(*old(b)).skip(at as int),
{
    b.split_to(at)
}

/// The bytes that `b` holds, through `BytesMut`'s `Deref` to a slice.
#[verifier::external_body]
fn bytes_slice(b: &BytesMut) -> (r: &[u8])
    ensures
        r@ == bytes_contents(*b),
{
    &b[..]
}

pub struct Msgs {
    rd: BytesMut,
    wr: BytesMut,
}

pub struct MsgsView {
    pub rd: Seq<u8>,
    pub wr: Seq<u8>,
}

impl View for Msgs {
    type V = MsgsView;

    closed spec fn view(&self) -> MsgsView {
        MsgsView { rd: bytes_contents(self.rd), wr: bytes_contents(self.wr) }
    }
}

/// What a poll of the connection gives.
#[derive(Debug)]
pub enum MsgsPoll {
    /// Not enough bytes for a whole message yet.
    NotReady,
    /// A whole message, or `None` when the connection closed.
    Ready(Option<Msg>),
}

pub enum MsgsPollView {
    NotReady,
    Ready(Option<MsgView>),
}

impl View for MsgsPoll {
    type V = MsgsPollView;

    open spec fn view(&self) -> MsgsPollView {
        match self {
            MsgsPoll::NotReady => MsgsPollView::NotReady,
            MsgsPoll::Ready(Some(m)) => MsgsPollView::Ready(Some(m@)),
            MsgsPoll::Ready(None) => MsgsPollView::Ready(None),
        }
    }
}

pub open spec fn poll_outcome(r: Result<MsgsPoll, CodecError>) -> Result<MsgsPollView, CodecError> {
    match r {
        Ok(p) => Ok(p@),
        Err(e) => Err(e),
    }
}

/// The number of bytes of the message that starts `rd`, from its header, or
/// the error of its header. The length of a message whose header announces a
/// negative payload length is too big for any buffer.
pub open spec fn spec_frame_len(rd: Seq<u8>) -> Result<nat, CodecError> {
    match Header::spec_parse(rd.take(HEADER_LEN as int)) {
        Err(e) => Err(e),
        Ok((h, _)) => if h.payload_len < 0 {
            Err(CodecError::LengthTooBig)
        } else {
            Ok((h.payload_len + HEADER_LEN) as nat)
        },
    }
}

/// The outcome of a poll on the unread bytes `rd`, and the unread bytes after
/// it. A message is decoded once its header and its announced payload are
/// all there; when the connection closed, that message is dropped and the
/// poll says so.
pub open spec fn spec_poll(rd: Seq<u8>, sock_closed: bool) -> (Result<MsgsPollView, CodecError>, Seq<u8>) {
    if rd.len() < HEADER_LEN {
        (Ok(MsgsPollView::NotReady), rd)
    } else {
        match spec_frame_len(rd) {
            Err(e) => (Err(e), rd),
            Ok(n) => if rd.len() < n {
                (Ok(MsgsPollView::NotReady), rd)
            } else {
                let rest = rd.skip(n as int);
                match Msg::spec_parse(rd.take(n as int)) {
                    Err(e) => (Err(e), rest),
                    Ok(m) => if sock_closed {
                        (Ok(MsgsPollView::Ready(None)), rest)
                    } else {
                        (Ok(MsgsPollView::Ready(Some(m))), rest)
                    },
                }
            },
        }
    }
}

/// The number of bytes of the message that starts `rd`.
fn frame_len(rd: &[u8]) -> (r: Result<usize, CodecError>)
    requires
        rd@.len() >= HEADER_LEN,
    ensures
        match r {
            Ok(n) => spec_frame_len(rd@) == Ok::<nat, CodecError>(n as nat),
            Err(e) => spec_frame_len(rd@) == Err::<nat, CodecError>(e),
        },
{
    let (head, _) = read_upto(rd, 0, HEADER_LEN);
    assert(rd@.skip(0) =~= rd@);
    assert(head@ =~= rd@.take(HEADER_LEN as int));
    assert(head@.skip(0) =~= head@);
    let (header, _) = Header::new(head.as_slice(), 0)?;
    if header.payload_len < 0 {
        return Err(CodecError::LengthTooBig);
    }
    Ok(header.payload_len as usize + HEADER_LEN)
}

impl Msgs {
    pub fn new() -> (r: Msgs)
        ensures
            r@.rd == Seq::<u8>::empty(),
            r@.wr == Seq::<u8>::empty(),
    {
        Msgs { rd: bytes_new(), wr: bytes_new() }
    }

    /// The number of bytes read and not decoded yet.
    pub fn unread_len(&self) -> (r: usize)
        ensures
            r == self@.rd.len(),
    {
        bytes_len(&self.rd)
    }

    /// Queues `bytes` for writing.
    pub fn buffer(&mut self, bytes: &[u8])
        requires
            old(self)@.wr.len() + bytes@.len() <= usize::MAX,
        ensures
            final(self)@.wr == old(self)@.wr + bytes@,
            final(self)@.rd == old(self)@.rd,
    {
        bytes_extend(&mut self.wr, bytes);
    }

    /// The bytes queued for writing.
    pub fn pending_write(&self) -> (r: &[u8])
        ensures
            r@ == self@.wr,
    {
        bytes_slice(&self.wr)
    }

    /// Forgets the first `n` queued bytes, once the connection took them.
    pub fn written(&mut self, n: usize)
        requires
            0 < n <= old(self)@.wr.len(),
        ensures
            final(self)@.wr == old(self)@.wr.skip(n as int),
            final(self)@.rd == old(self)@.rd,
    {
        let _ = bytes_split_to(&mut self.wr, n);
    }

    /// Appends bytes read from the connection.
    pub fn fill_read_buf(&mut self, bytes: &[u8])
        requires
            old(self)@.rd.len() + bytes@.len() <= usize::MAX,
        ensures
            final(self)@.rd == old(self)@.rd + bytes@,
            final(self)@.wr == old(self)@.wr,
    {
        bytes_extend(&mut self.rd, bytes);
    }

    /// Decodes the next whole message, if its bytes are all there.
    #[verifier::spinoff_prover]
    pub fn poll(&mut self, sock_closed: bool) -> (r: Result<MsgsPoll, CodecError>)
        ensures
            (poll_outcome(r), final(self)@.rd) == spec_poll(old(self)@.rd, sock_closed),
            final(self)@.wr == old(self)@.wr,
    {
        if bytes_len(&self.rd) < HEADER_LEN {
            return Ok(MsgsPoll::NotReady);
        }
        let n = frame_len(bytes_slice(&self.rd))?;
        if bytes_len(&self.rd) < n {
            return Ok(MsgsPoll::NotReady);
        }
        let frame = bytes_split_to(&mut self.rd, n);
        let msg = Msg::new(bytes_slice(&frame))?;
        if sock_closed {
            Ok(MsgsPoll::Ready(None))
        } else {
            Ok(MsgsPoll::Ready(Some(msg)))
        }
    }
}

/// A message written to the connection is read back whole, and the bytes
/// after it are left for the next poll, when its payload round-trips and
/// the header announces the payload's length.
pub proof fn lemma_poll_reads_back(m: MsgView, rest: Seq<u8>)
    requires
        m.round_trips(),
        m.header.payload_len == m.payload.unwrap().spec_bytes().len(),
    ensures
        spec_poll(m.spec_bytes() + rest, false) == (
            Ok::<MsgsPollView, CodecError>(MsgsPollView::Ready(Some(m))),
            rest,
        ),
{
    let hb = m.header.spec_bytes();
    let pb = m.payload.unwrap().spec_bytes();
    let all = m.spec_bytes() + rest;
    lemma_header_len(m.header);
    assert(all =~= hb + (pb + rest));
    assert(all.take(HEADER_LEN as int) =~= hb + Seq::<u8>::empty());
    lemma_header_round_trip(m.header, Seq::<u8>::empty());
    assert(spec_frame_len(all) == Ok::<nat, CodecError>(m.spec_bytes().len()));
    assert(all.take(m.spec_bytes().len() as int) =~= m.spec_bytes());
    assert(all.skip(m.spec_bytes().len() as int) =~= rest);
    lemma_msg_round_trip(m);
}

} // verus!
