//! Byte-level reading and writing shared by every message of the codec.
//!
//! Decoders work on a byte slice and a position; their specifications work on
//! the remaining input, a `Seq<u8>`, and give back the decoded value together
//! with the number of bytes consumed.
use vstd::prelude::*;
use vstd::bytes::*;
use byteorder::{BigEndian, ByteOrder, LittleEndian};

verus! {

/// Why a message could not be decoded.
#[derive(Debug, Clone, Copy, PartialEq, Eq, Structural)]
pub enum CodecError {
    /// The input ended before a fixed-size field was complete.
    UnexpectedEnd,
    /// The network magic number is not one of the known networks.
    UnknownNetwork,
    /// The twelve command bytes are not one of the known commands.
    UnknownCommand,
    /// A length prefix does not fit in a `usize` on every platform.
    LengthTooBig,
    /// The double SHA-256 of the payload differs from the header's checksum.
    ChecksumMismatch,
    /// The peer speaks a protocol version older than the supported one.
    UnsupportedVersion,
    /// Bytes are left after a transaction.
    TrailingBytes,
    /// A hexadecimal text is not a sequence of digit pairs.
    InvalidHex,
}

/// The result of a decoder that started at `pos`, with the value taken by its
/// view and the end position turned into a count of consumed bytes.
pub open spec fn outcome<T: View>(r: Result<(T, usize), CodecError>, pos: usize) -> Result<
    (T::V, nat),
    CodecError,
> {
    match r {
        Ok((v, end)) => Ok((v@, (end - pos) as nat)),
        Err(e) => Err(e),
    }
}

/// A decoder result never ends past the input.
pub open spec fn ends_within<T>(r: Result<(T, usize), CodecError>, pos: usize, len: nat) -> bool {
    r matches Ok((_, end)) ==> pos <= end <= len
}

/// The first `n` bytes of `s`, or all of `s` when it is shorter: what the
/// codec reads for a field whose size is only an upper bound.
pub open spec fn take_upto(s: Seq<u8>, n: nat) -> Seq<u8> {
    if s.len() <= n {
        s
    } else {
        s.take(n as int)
    }
}

pub open spec fn spec_u16_to_be_bytes(x: u16) -> Seq<u8> {
    seq![(x >> 8) as u8, (x & 0xff) as u8]
}

pub open spec fn spec_u16_from_be_bytes(s: Seq<u8>) -> u16 {
    ((s[0] as u16) << 8) | (s[1] as u16)
}

pub open spec fn spec_i32_to_le_bytes(x: i32) -> Seq<u8> {
    spec_u32_to_le_bytes(x as u32)
}

pub open spec fn spec_i32_from_le_bytes(s: Seq<u8>) -> i32 {
    spec_u32_from_le_bytes(s) as i32
}

pub open spec fn spec_i64_to_le_bytes(x: i64) -> Seq<u8> {
    spec_u64_to_le_bytes(x as u64)
}

pub open spec fn spec_i64_from_le_bytes(s: Seq<u8>) -> i64 {
    spec_u64_from_le_bytes(s) as i64
}

/// Fixed-width field of `width` bytes: it fails when fewer bytes remain.
pub open spec fn fixed<T>(s: Seq<u8>, width: nat, value: T) -> Result<(T, nat), CodecError> {
    if s.len() < width {
        Err(CodecError::UnexpectedEnd)
    } else {
        Ok((value, width))
    }
}

pub open spec fn spec_u8(s: Seq<u8>) -> Result<(u8, nat), CodecError> {
    fixed(s, 1, s[0])
}

pub open spec fn spec_u16_le(s: Seq<u8>) -> Result<(u16, nat), CodecError> {
    fixed(s, 2, spec_u16_from_le_bytes(s.take(2)))
}

pub open spec fn spec_u16_be(s: Seq<u8>) -> Result<(u16, nat), CodecError> {
    fixed(s, 2, spec_u16_from_be_bytes(s.take(2)))
}

pub open spec fn spec_u32_le(s: Seq<u8>) -> Result<(u32, nat), CodecError> {
    fixed(s, 4, spec_u32_from_le_bytes(s.take(4)))
}

pub open spec fn spec_i32_le(s: Seq<u8>) -> Result<(i32, nat), CodecError> {
    fixed(s, 4, spec_i32_from_le_bytes(s.take(4)))
}

pub open spec fn spec_u64_le(s: Seq<u8>) -> Result<(u64, nat), CodecError> {
    fixed(s, 8, spec_u64_from_le_bytes(s.take(8)))
}

pub open spec fn spec_i64_le(s: Seq<u8>) -> Result<(i64, nat), CodecError> {
    fixed(s, 8, spec_i64_from_le_bytes(s.take(8)))
}

/// `byteorder`'s `LittleEndian::read_u16`: the two bytes at `pos`, least
/// significant first.
#[verifier::external_body]
fn le_read_u16(buf: &[u8], pos: usize) -> (r: u16)
    requires
        pos + 2 <= buf@.len(),
    ensures
        r == spec_u16_from_le_bytes(buf@.subrange(pos as int, pos + 2)),
{
    LittleEndian::read_u16(&buf[pos..])
}

/// `byteorder`'s `BigEndian::read_u16`: the two bytes at `pos`, most
/// significant first.
#[verifier::external_body]
fn be_read_u16(buf: &[u8], pos: usize) -> (r: u16)
    requires
        pos + 2 <= buf@.len(),
    ensures
        r == spec_u16_from_be_bytes(buf@.subrange(pos as int, pos + 2)),
{
    BigEndian::read_u16(&buf[pos..])
}

/// `byteorder`'s `LittleEndian::read_u32`: the four bytes at `pos`, least
/// significant first.
#[verifier::external_body]
pub(crate) fn le_read_u32(buf: &[u8], pos: usize) -> (r: u32)
    requires
        pos + 4 <= buf@.len(),
    ensures
        r == spec_u32_from_le_bytes(buf@.subrange(pos as int, pos + 4)),
{
    LittleEndian::read_u32(&buf[pos..])
}

/// `byteorder`'s `LittleEndian::read_i32`: the unsigned little-endian value
/// of the four bytes at `pos`, reinterpreted as two's complement.
#[verifier::external_body]
fn le_read_i32(buf: &[u8], pos: usize) -> (r: i32)
    requires
        pos + 4 <= buf@.len(),
    ensures
        r == spec_i32_from_le_bytes(buf@.subrange(pos as int, pos + 4)),
{
    LittleEndian::read_i32(&buf[pos..])
}

/// `byteorder`'s `LittleEndian::read_u64`: the eight bytes at `pos`, least
/// significant first.
#[verifier::external_body]
fn le_read_u64(buf: &[u8], pos: usize) -> (r: u64)
    requires
        pos + 8 <= buf@.len(),
    ensures
        r == spec_u64_from_le_bytes(buf@.subrange(pos as int, pos + 8)),
{
    LittleEndian::read_u64(&buf[pos..])
}

/// `byteorder`'s `LittleEndian::read_i64`: the unsigned little-endian value
/// of the eight bytes at `pos`, reinterpreted as two's complement.
#[verifier::external_body]
fn le_read_i64(buf: &[u8], pos: usize) -> (r: i64)
    requires
        pos + 8 <= buf@.len(),
    ensures
        r == spec_i64_from_le_bytes(buf@.subrange(pos as int, pos + 8)),
{
    LittleEndian::read_i64(&buf[pos..])
}

/// `byteorder`'s `BigEndian::write_u16`: the two bytes of `n`, most
/// significant first.
#[verifier::external_body]
fn be_write_u16(n: u16) -> (r: [u8; 2])
    ensures
        r@ == spec_u16_to_be_bytes(n),
{
    let mut buf = [0u8; 2];
    BigEndian::write_u16(&mut buf, n);
    buf
}

/// `byteorder`'s `LittleEndian::write_u32`: the four bytes of `n`, least
/// significant first.
#[verifier::external_body]
fn le_write_u32(n: u32) -> (r: [u8; 4])
    ensures
        r@ == spec_u32_to_le_bytes(n),
{
    let mut buf = [0u8; 4];
    LittleEndian::write_u32(&mut buf, n);
    buf
}

/// `byteorder`'s `LittleEndian::write_i32`: the four bytes of `n` taken as
/// an unsigned number, least significant first.
#[verifier::external_body]
fn le_write_i32(n: i32) -> (r: [u8; 4])
    ensures
        r@ == spec_i32_to_le_bytes(n),
{
    let mut buf = [0u8; 4];
    LittleEndian::write_i32(&mut buf, n);
    buf
}

/// `byteorder`'s `LittleEndian::write_u16`: the two bytes of `n`, least
/// significant first.
#[verifier::external_body]
fn le_write_u16(n: u16) -> (r: [u8; 2])
    ensures
        r@ == spec_u16_to_le_bytes(n),
{
    let mut buf = [0u8; 2];
    LittleEndian::write_u16(&mut buf, n);
    buf
}

/// `byteorder`'s `LittleEndian::write_u64`: the eight bytes of `n`, least
/// significant first.
#[verifier::external_body]
fn le_write_u64(n: u64) -> (r: [u8; 8])
    ensures
        r@ == spec_u64_to_le_bytes(n),
{
    let mut buf = [0u8; 8];
    LittleEndian::write_u64(&mut buf, n);
    buf
}

/// `byteorder`'s `LittleEndian::write_i64`: the eight bytes of `n` taken as
/// an unsigned number, least significant first.
#[verifier::external_body]
fn le_write_i64(n: i64) -> (r: [u8; 8])
    ensures
        r@ == spec_i64_to_le_bytes(n),
{
    let mut buf = [0u8; 8];
    LittleEndian::write_i64(&mut buf, n);
    buf
}

pub fn read_u8(buf: &[u8], pos: usize) -> (r: Result<(u8, usize), CodecError>)
    requires
        pos <= buf@.len(),
    ensures
        outcome(r, pos) == spec_u8(buf@.skip(pos as int)),
        ends_within(r, pos, buf@.len()),
{
    if buf.len() - pos < 1 {
        Err(CodecError::UnexpectedEnd)
    } else {
        Ok((buf[pos], pos + 1))
    }
}

pub fn read_u16_le(buf: &[u8], pos: usize) -> (r: Result<(u16, usize), CodecError>)
    requires
        pos <= buf@.len(),
    ensures
        outcome(r, pos) == spec_u16_le(buf@.skip(pos as int)),
        ends_within(r, pos, buf@.len()),
{
    if buf.len() - pos < 2 {
        Err(CodecError::UnexpectedEnd)
    } else {
        let v = le_read_u16(buf, pos);
        assert(buf@.skip(pos as int).take(2) =~= buf@.subrange(pos as int, pos + 2));
        Ok((v, pos + 2))
    }
}

pub fn read_u16_be(buf: &[u8], pos: usize) -> (r: Result<(u16, usize), CodecError>)
    requires
        pos <= buf@.len(),
    ensures
        outcome(r, pos) == spec_u16_be(buf@.skip(pos as int)),
        ends_within(r, pos, buf@.len()),
{
    if buf.len() - pos < 2 {
        Err(CodecError::UnexpectedEnd)
    } else {
        let v = be_read_u16(buf, pos);
        assert(buf@.skip(pos as int).take(2) =~= buf@.subrange(pos as int, pos + 2));
        Ok((v, pos + 2))
    }
}

pub fn read_u32_le(buf: &[u8], pos: usize) -> (r: Result<(u32, usize), CodecError>)
    requires
        pos <= buf@.len(),
    ensures
        outcome(r, pos) == spec_u32_le(buf@.skip(pos as int)),
        ends_within(r, pos, buf@.len()),
{
    if buf.len() - pos < 4 {
        Err(CodecError::UnexpectedEnd)
    } else {
        let v = le_read_u32(buf, pos);
        assert(buf@.skip(pos as int).take(4) =~= buf@.subrange(pos as int, pos + 4));
        Ok((v, pos + 4))
    }
}

pub fn read_i32_le(buf: &[u8], pos: usize) -> (r: Result<(i32, usize), CodecError>)
    requires
        pos <= buf@.len(),
    ensures
        outcome(r, pos) == spec_i32_le(buf@.skip(pos as int)),
        ends_within(r, pos, buf@.len()),
{
    if buf.len() - pos < 4 {
        Err(CodecError::UnexpectedEnd)
    } else {
        let v = le_read_i32(buf, pos);
        assert(buf@.skip(pos as int).take(4) =~= buf@.subrange(pos as int, pos + 4));
        Ok((v, pos + 4))
    }
}

pub fn read_u64_le(buf: &[u8], pos: usize) -> (r: Result<(u64, usize), CodecError>)
    requires
        pos <= buf@.len(),
    ensures
        outcome(r, pos) == spec_u64_le(buf@.skip(pos as int)),
        ends_within(r, pos, buf@.len()),
{
    if buf.len() - pos < 8 {
        Err(CodecError::UnexpectedEnd)
    } else {
        let v = le_read_u64(buf, pos);
        assert(buf@.skip(pos as int).take(8) =~= buf@.subrange(pos as int, pos + 8));
        Ok((v, pos + 8))
    }
}

pub fn read_i64_le(buf: &[u8], pos: usize) -> (r: Result<(i64, usize), CodecError>)
    requires
        pos <= buf@.len(),
    ensures
        outcome(r, pos) == spec_i64_le(buf@.skip(pos as int)),
        ends_within(r, pos, buf@.len()),
{
    if buf.len() - pos < 8 {
        Err(CodecError::UnexpectedEnd)
    } else {
        let v = le_read_i64(buf, pos);
        assert(buf@.skip(pos as int).take(8) =~= buf@.subrange(pos as int, pos + 8));
        Ok((v, pos + 8))
    }
}

/// Reads at most `n` bytes from `pos`; never fails.
pub fn read_upto(buf: &[u8], pos: usize, n: usize) -> (r: (Vec<u8>, usize))
    requires
        pos <= buf@.len(),
    ensures
        r.0@ == take_upto(buf@.skip(pos as int), n as nat),
        r.1 == pos + r.0@.len(),
        r.1 <= buf@.len(),
{
    let avail = buf.len() - pos;
    let count = if avail <= n {
        avail
    } else {
        n
    };
    let mut out: Vec<u8> = Vec::new();
    let mut i: usize = 0;
    while i < count
        invariant
            count <= avail,
            avail == buf@.len() - pos,
            pos + count <= buf.len(),
            i <= count,
            out@ =~= buf@.subrange(pos as int, pos + i),
        decreases count - i,
    {
        out.push(buf[pos + i]);
        i = i + 1;
    }
    assert(out@ =~= take_upto(buf@.skip(pos as int), n as nat));
    (out, pos + count)
}

/// Appends every byte of `src` to `out`.
pub fn push_all(out: &mut Vec<u8>, src: &[u8])
    ensures
        final(out)@ == old(out)@ + src@,
{
    let mut i: usize = 0;
    while i < src.len()
        invariant
            i <= src@.len(),
            out@ =~= old(out)@ + src@.take(i as int),
        decreases src@.len() - i,
    {
        out.push(src[i]);
        i = i + 1;
    }
    assert(src@.take(src@.len() as int) =~= src@);
}

pub fn put_u16_be(out: &mut Vec<u8>, n: u16)
    ensures
        final(out)@ == old(out)@ + spec_u16_to_be_bytes(n),
{
    let b = be_write_u16(n);
    push_all(out, &b);
}

pub fn put_u16_le(out: &mut Vec<u8>, n: u16)
    ensures
        final(out)@ == old(out)@ + spec_u16_to_le_bytes(n),
{
    let b = le_write_u16(n);
    push_all(out, &b);
}

pub fn put_u32_le(out: &mut Vec<u8>, n: u32)
    ensures
        final(out)@ == old(out)@ + spec_u32_to_le_bytes(n),
{
    let b = le_write_u32(n);
    push_all(out, &b);
}

pub fn put_i32_le(out: &mut Vec<u8>, n: i32)
    ensures
        final(out)@ == old(out)@ + spec_i32_to_le_bytes(n),
{
    let b = le_write_i32(n);
    push_all(out, &b);
}

pub fn put_u64_le(out: &mut Vec<u8>, n: u64)
    ensures
        final(out)@ == old(out)@ + spec_u64_to_le_bytes(n),
{
    let b = le_write_u64(n);
    push_all(out, &b);
}

pub fn put_i64_le(out: &mut Vec<u8>, n: i64)
    ensures
        final(out)@ == old(out)@ + spec_i64_to_le_bytes(n),
{
    let b = le_write_i64(n);
    push_all(out, &b);
}

/// A piece of a message that the codec reads and writes, with its decoding
/// and encoding stated over its view.
pub trait Wire: View + Sized {
    /// Decoding of the remaining input `s`: the value and the bytes consumed.
    spec fn spec_decode(s: Seq<u8>) -> Result<(Self::V, nat), CodecError>;

    /// The bytes that encoding writes.
    spec fn spec_encode(v: Self::V) -> Seq<u8>;

    fn decode(bytes: &[u8], pos: usize) -> (r: Result<(Self, usize), CodecError>)
        requires
            pos <= bytes@.len(),
        ensures
            outcome(r, pos) == Self::spec_decode(bytes@.skip(pos as int)),
            ends_within(r, pos, bytes@.len()),
    ;

    fn encode_to(&self, out: &mut Vec<u8>)
        ensures
            final(out)@ == old(out)@ + Self::spec_encode(self@),
    ;
}

/// A piece whose decoding gives back what its encoding wrote, whatever
/// follows it, for the values that `spec_round_trips`.
pub trait RoundTrip: Wire {
    spec fn spec_round_trips(v: Self::V) -> bool;

    proof fn lemma_round_trip(v: Self::V, rest: Seq<u8>)
        requires
            Self::spec_round_trips(v),
        ensures
            Self::spec_decode(Self::spec_encode(v) + rest) == Ok::<(Self::V, nat), CodecError>(
                (v, Self::spec_encode(v).len()),
            ),
    ;
}

/// Decoding of `count` pieces, one after the other.
pub open spec fn spec_decode_list<T: Wire>(s: Seq<u8>, count: nat) -> Result<
    (Seq<T::V>, nat),
    CodecError,
>
    decreases count,
{
    if count == 0 {
        Ok((Seq::empty(), 0))
    } else {
        match spec_decode_list::<T>(s, (count - 1) as nat) {
            Err(e) => Err(e),
            Ok((items, n)) => match T::spec_decode(s.skip(n as int)) {
                Err(e) => Err(e),
                Ok((x, m)) => Ok((items.push(x), n + m)),
            },
        }
    }
}

/// The encodings of `items`, one after the other.
pub open spec fn spec_encode_list<T: Wire>(items: Seq<T::V>) -> Seq<u8>
    decreases items.len(),
{
    if items.len() == 0 {
        Seq::empty()
    } else {
        spec_encode_list::<T>(items.drop_last()) + T::spec_encode(items.last())
    }
}

pub open spec fn views<T: View>(v: Seq<T>) -> Seq<T::V> {
    v.map_values(|x: T| x@)
}

/// A failed piece fails every longer decoding.
pub proof fn lemma_decode_list_fails_on<T: Wire>(s: Seq<u8>, k: nat, count: nat)
    requires
        k <= count,
        spec_decode_list::<T>(s, k) is Err,
    ensures
        spec_decode_list::<T>(s, count) == spec_decode_list::<T>(s, k),
    decreases count - k,
{
    if k < count {
        lemma_decode_list_fails_on::<T>(s, k, (count - 1) as nat);
    }
}

/// Decodes `count` pieces from `pos`, one after the other.
pub fn decode_list<T: Wire>(bytes: &[u8], pos: usize, count: usize) -> (r: Result<
    (Vec<T>, usize),
    CodecError,
>)
    requires
        pos <= bytes@.len(),
    ensures
        match r {
            Ok((v, end)) => spec_decode_list::<T>(bytes@.skip(pos as int), count as nat) == Ok::<
                (Seq<T::V>, nat),
                CodecError,
            >((views(v@), (end - pos) as nat)) && pos <= end <= bytes@.len(),
            Err(e) => spec_decode_list::<T>(bytes@.skip(pos as int), count as nat) == Err::<
                (Seq<T::V>, nat),
                CodecError,
            >(e),
        },
{
    let ghost s = bytes@.skip(pos as int);
    let mut items: Vec<T> = Vec::new();
    let mut cur = pos;
    let mut i: usize = 0;
    assert(views(items@) =~= Seq::<T::V>::empty());
    while i < count
        invariant
            i <= count,
            pos <= cur <= bytes@.len(),
            s == bytes@.skip(pos as int),
            spec_decode_list::<T>(s, i as nat) == Ok::<(Seq<T::V>, nat), CodecError>(
                (views(items@), (cur - pos) as nat),
            ),
        decreases count - i,
    {
        assert(bytes@.skip(cur as int) =~= s.skip((cur - pos) as int));
        match T::decode(bytes, cur) {
            Ok((x, next)) => {
                let ghost old_items = items@;
                items.push(x);
                assert(views(items@) =~= views(old_items).push(x@));
                cur = next;
                i = i + 1;
            },
            Err(e) => {
                proof {
                    lemma_decode_list_fails_on::<T>(s, (i + 1) as nat, count as nat);
                }
                return Err(e);
            },
        }
    }
    Ok((items, cur))
}

/// Appends the encodings of `items`, one after the other.
pub fn encode_list<T: Wire>(items: &Vec<T>, out: &mut Vec<u8>)
    ensures
        final(out)@ == old(out)@ + spec_encode_list::<T>(views(items@)),
{
    let mut i: usize = 0;
    while i < items.len()
        invariant
            i <= items@.len(),
            out@ == old(out)@ + spec_encode_list::<T>(views(items@.take(i as int))),
        decreases items@.len() - i,
    {
        let ghost before = out@;
        items[i].encode_to(out);
        assert(views(items@.take(i + 1)).drop_last() =~= views(items@.take(i as int)));
        assert(views(items@.take(i + 1)).last() == items@[i as int]@);
        assert(out@ =~= old(out)@ + spec_encode_list::<T>(views(items@.take(i + 1))));
        i = i + 1;
    }
    assert(items@.take(items@.len() as int) =~= items@);
}

/// Decoding the encodings of pieces that each round-trip gives them back.
pub proof fn lemma_list_round_trip<T: RoundTrip>(items: Seq<T::V>, rest: Seq<u8>)
    requires
        forall|i: int| 0 <= i < items.len() ==> T::spec_round_trips(#[trigger] items[i]),
    ensures
        spec_decode_list::<T>(spec_encode_list::<T>(items) + rest, items.len()) == Ok::<
            (Seq<T::V>, nat),
            CodecError,
        >((items, spec_encode_list::<T>(items).len())),
    decreases items.len(),
{
    if items.len() > 0 {
        let init = items.drop_last();
        let last = items.last();
        let head = spec_encode_list::<T>(init);
        let tail = T::spec_encode(last);
        assert forall|i: int| 0 <= i < init.len() implies T::spec_round_trips(#[trigger] init[i]) by {
            assert(init[i] == items[i]);
        }
        lemma_list_round_trip::<T>(init, tail + rest);
        assert(spec_encode_list::<T>(items) + rest =~= head + (tail + rest));
        assert((head + (tail + rest)).skip(head.len() as int) =~= tail + rest);
        assert(T::spec_round_trips(items[items.len() - 1]));
        T::lemma_round_trip(last, rest);
        assert(init.push(last) =~= items);
        assert(spec_encode_list::<T>(items) == head + tail);
    } else {
        assert(items =~= Seq::<T::V>::empty());
    }
}

/// A 32-byte hash as an element of a list: decoding takes at most 32 bytes,
/// and takes fewer only when the input ends.
impl Wire for Vec<u8> {
    open spec fn spec_decode(s: Seq<u8>) -> Result<(Seq<u8>, nat), CodecError> {
        let h = take_upto(s, 32);
        Ok((h, h.len()))
    }

    open spec fn spec_encode(v: Seq<u8>) -> Seq<u8> {
        v
    }

    fn decode(bytes: &[u8], pos: usize) -> (r: Result<(Vec<u8>, usize), CodecError>) {
        let (h, p) = read_upto(bytes, pos, 32);
        Ok((h, p))
    }

    fn encode_to(&self, out: &mut Vec<u8>) {
        push_all(out, self.as_slice());
    }
}

impl RoundTrip for Vec<u8> {
    open spec fn spec_round_trips(v: Seq<u8>) -> bool {
        v.len() == 32
    }

    proof fn lemma_round_trip(v: Seq<u8>, rest: Seq<u8>) {
        assert(take_upto(v + rest, 32) =~= v);
    }
}

pub proof fn lemma_i32_round_trip(x: i32)
    ensures
        spec_i32_from_le_bytes(spec_i32_to_le_bytes(x)) == x,
        spec_i32_to_le_bytes(x).len() == 4,
{
    lemma_auto_spec_u32_to_from_le_bytes();
    let y = x as u32;
    assert(spec_u32_to_le_bytes(y).len() == 4);
    assert(spec_u32_from_le_bytes(spec_u32_to_le_bytes(y)) == y);
    assert(((x as u32) as i32) == x) by (bit_vector);
}

pub proof fn lemma_i64_round_trip(x: i64)
    ensures
        spec_i64_from_le_bytes(spec_i64_to_le_bytes(x)) == x,
        spec_i64_to_le_bytes(x).len() == 8,
{
    lemma_auto_spec_u64_to_from_le_bytes();
    let y = x as u64;
    assert(spec_u64_to_le_bytes(y).len() == 8);
    assert(spec_u64_from_le_bytes(spec_u64_to_le_bytes(y)) == y);
    assert(((x as u64) as i64) == x) by (bit_vector);
}

} // verus!
