//! Variable-length unsigned integers: the protocol's CompactSize.
//!
//! On the wire a value up to `0xFC` is a single byte. Otherwise a tag byte
//! announces the width of the little-endian value that follows: `0xFD` two
//! bytes, `0xFE` four and `0xFF` eight.
use vstd::prelude::*;
use vstd::bytes::*;
use crate::codec::wire::{CodecError, outcome, ends_within, spec_u16_le, spec_u32_le, spec_u64_le, read_u8, read_u16_le, read_u32_le, read_u64_le, put_u16_le, put_u32_le, put_u64_le};

verus! {

#[derive(Debug, Clone, Copy, PartialEq, Eq, Structural)]
pub enum VarUint {
    U8(u8),
    U16(u16),
    U32(u32),
    U64(u64),
}

impl View for VarUint {
    type V = VarUint;

    open spec fn view(&self) -> VarUint {
        *self
    }
}

/// The largest value written as a single byte.
pub const MAX_U8: u8 = 0xFC;

/// The tag that announces a 2-byte value.
pub const TAG_U16: u8 = 0xFD;

/// The tag that announces a 4-byte value.
pub const TAG_U32: u8 = 0xFE;

/// The tag that announces an 8-byte value.
pub const TAG_U64: u8 = 0xFF;

impl VarUint {
    /// Decoding of the remaining input `s`.
    pub open spec fn spec_parse(s: Seq<u8>) -> Result<(VarUint, nat), CodecError> {
        if s.len() == 0 {
            Err(CodecError::UnexpectedEnd)
        } else {
            let head = s[0];
            let body = s.skip(1);
            if head <= MAX_U8 {
                Ok((VarUint::U8(head), 1))
            } else if head == TAG_U16 {
                match spec_u16_le(body) {
                    Ok((n, k)) => Ok((VarUint::U16(n), k + 1)),
                    Err(e) => Err(e),
                }
            } else if head == TAG_U32 {
                match spec_u32_le(body) {
                    Ok((n, k)) => Ok((VarUint::U32(n), k + 1)),
                    Err(e) => Err(e),
                }
            } else {
                match spec_u64_le(body) {
                    Ok((n, k)) => Ok((VarUint::U64(n), k + 1)),
                    Err(e) => Err(e),
                }
            }
        }
    }

    /// The bytes that `into_bytes` writes.
    pub open spec fn spec_bytes(self) -> Seq<u8> {
        match self {
            VarUint::U8(n) => seq![n],
            VarUint::U16(n) => seq![TAG_U16] + spec_u16_to_le_bytes(n),
            VarUint::U32(n) => seq![TAG_U32] + spec_u32_to_le_bytes(n),
            VarUint::U64(n) => seq![TAG_U64] + spec_u64_to_le_bytes(n),
        }
    }

    /// The value as a `usize`, unless it is an 8-byte value.
    pub open spec fn spec_as_usize(self) -> Option<usize> {
        match self {
            VarUint::U8(u) => Some(u as usize),
            VarUint::U16(u) => Some(u as usize),
            VarUint::U32(u) => Some(u as usize),
            VarUint::U64(_) => None,
        }
    }

    /// The length prefix that `from_bytes` gives a byte string of length
    /// `len`: the narrowest width that holds it.
    pub open spec fn spec_from_len(len: nat) -> VarUint {
        if len <= 0xFC {
            VarUint::U8(len as u8)
        } else if len <= 0xFFFF {
            VarUint::U16(len as u16)
        } else if len <= 0xFFFF_FFFF {
            VarUint::U32(len as u32)
        } else {
            VarUint::U64(len as u64)
        }
    }

    /// The values that a write and a read give back unchanged: all but a
    /// single byte above `0xFC`, which reads as a tag.
    pub open spec fn round_trips(self) -> bool {
        match self {
            VarUint::U8(n) => n <= MAX_U8,
            _ => true,
        }
    }

    /// Decodes the variable-length integer at `pos`.
    pub fn new(bytes: &[u8], pos: usize) -> (r: Result<(VarUint, usize), CodecError>)
        requires
            pos <= bytes@.len(),
        ensures
            outcome(r, pos) == VarUint::spec_parse(bytes@.skip(pos as int)),
            ends_within(r, pos, bytes@.len()),
    {
        let ghost s = bytes@.skip(pos as int);
        let (head, p1) = read_u8(bytes, pos)?;
        assert(bytes@.skip(p1 as int) =~= s.skip(1));
        if head <= MAX_U8 {
            Ok((VarUint::U8(head), p1))
        } else if head == TAG_U16 {
            let (n, p2) = read_u16_le(bytes, p1)?;
            Ok((VarUint::U16(n), p2))
        } else if head == TAG_U32 {
            let (n, p2) = read_u32_le(bytes, p1)?;
            Ok((VarUint::U32(n), p2))
        } else {
            let (n, p2) = read_u64_le(bytes, p1)?;
            Ok((VarUint::U64(n), p2))
        }
    }

    /// The length prefix of a byte string: the narrowest width that holds
    /// its length.
    pub fn from_bytes(bytes: &[u8]) -> (r: VarUint)
        ensures
            r == VarUint::spec_from_len(bytes@.len()),
    {
        let len = bytes.len();
        if len <= 0xFC {
            VarUint::U8(len as u8)
        } else if len <= 0xFFFF {
            VarUint::U16(len as u16)
        } else if len <= 0xFFFF_FFFF {
            VarUint::U32(len as u32)
        } else {
            VarUint::U64(len as u64)
        }
    }

    /// The value as a `usize`; `None` for an 8-byte value, which a `usize`
    /// does not hold on every platform.
    pub fn as_usize(&self) -> (r: Option<usize>)
        ensures
            r == self.spec_as_usize(),
    {
        match *self {
            VarUint::U8(u) => Some(u as usize),
            VarUint::U16(u) => Some(u as usize),
            VarUint::U32(u) => Some(u as usize),
            VarUint::U64(_) => None,
        }
    }

    pub fn into_bytes(&self) -> (r: Result<Vec<u8>, CodecError>)
        ensures
            r matches Ok(v) && v@ == self.spec_bytes(),
    {
        let mut wtr: Vec<u8> = Vec::new();
        self.write_to(&mut wtr);
        assert(wtr@ =~= self.spec_bytes());
        Ok(wtr)
    }

    /// Appends the encoding to `out`.
    pub fn write_to(&self, out: &mut Vec<u8>)
        ensures
            final(out)@ == old(out)@ + self.spec_bytes(),
    {
        match *self {
            VarUint::U8(n) => {
                out.push(n);
                assert(out@ =~= old(out)@ + self.spec_bytes());
            },
            VarUint::U16(n) => {
                out.push(TAG_U16);
                put_u16_le(out, n);
                assert(out@ =~= old(out)@ + self.spec_bytes());
            },
            VarUint::U32(n) => {
                out.push(TAG_U32);
                put_u32_le(out, n);
                assert(out@ =~= old(out)@ + self.spec_bytes());
            },
            VarUint::U64(n) => {
                out.push(TAG_U64);
                put_u64_le(out, n);
                assert(out@ =~= old(out)@ + self.spec_bytes());
            },
        }
    }
}

/// Reading back what was written gives the same value and consumes exactly
/// the written bytes, whatever follows them, for every value that
/// `round_trips`.
pub proof fn lemma_var_uint_round_trip(v: VarUint, rest: Seq<u8>)
    requires
        v.round_trips(),
    ensures
        VarUint::spec_parse(v.spec_bytes() + rest) == Ok::<(VarUint, nat), CodecError>(
            (v, v.spec_bytes().len()),
        ),
{
    lemma_auto_spec_u16_to_from_le_bytes();
    lemma_auto_spec_u32_to_from_le_bytes();
    lemma_auto_spec_u64_to_from_le_bytes();
    let s = v.spec_bytes() + rest;
    match v {
        VarUint::U8(n) => {},
        VarUint::U16(n) => {
            assert(s.skip(1).take(2) =~= spec_u16_to_le_bytes(n));
        },
        VarUint::U32(n) => {
            assert(s.skip(1).take(4) =~= spec_u32_to_le_bytes(n));
        },
        VarUint::U64(n) => {
            assert(s.skip(1).take(8) =~= spec_u64_to_le_bytes(n));
        },
    }
}

/// A single byte above `0xFC` is a tag: it reads back as the width it
/// announces, never as itself.
pub proof fn lemma_var_uint_tag_byte_is_no_value(n: u8, rest: Seq<u8>)
    requires
        n > MAX_U8,
    ensures
        !(VarUint::spec_parse(VarUint::U8(n).spec_bytes() + rest) matches Ok((VarUint::U8(_), _))),
{
}

/// The length prefix of every byte string reads back as itself, and records
/// the length while the length is below 2^32.
pub proof fn lemma_from_len_records_length(len: nat)
    requires
        len <= usize::MAX,
    ensures
        VarUint::spec_from_len(len).round_trips(),
        len <= 0xFFFF_FFFF ==> VarUint::spec_from_len(len).spec_as_usize() == Some(len as usize),
{
}

} // verus!
