//! The 24-byte header in front of every message.
pub mod cmd;
pub mod network;

use vstd::prelude::*;
use vstd::bytes::*;
use crate::codec::wire::{lemma_i32_round_trip, CodecError, outcome, ends_within, take_upto, spec_u32_le, spec_i32_le, spec_i32_to_le_bytes, read_u32_le, read_i32_le, read_upto, push_all, put_u32_le, put_i32_le};
use crate::codec::header::cmd::{Cmd, lemma_cmd_value_names_cmd};
use crate::codec::header::network::{Network, lemma_network_value_names_network};

verus! {

/// The network, the command, the payload's length and the payload's
/// checksum.
#[derive(Debug, Clone, Copy, PartialEq, Eq, Structural)]
pub struct Header {
    pub network: Network,
    pub cmd: Cmd,
    pub payload_len: i32,
    pub payloadchk: u32,
}

impl View for Header {
    type V = Header;

    open spec fn view(&self) -> Header {
        *self
    }
}

/// The number of bytes of a header on the wire.
pub const HEADER_LEN: usize = 24;

impl Header {
    pub open spec fn spec_parse(s: Seq<u8>) -> Result<(Header, nat), CodecError> {
        match spec_u32_le(s) {
            Err(e) => Err(e),
            Ok((magic, n1)) => match Network::spec_new(magic) {
                None => Err(CodecError::UnknownNetwork),
                Some(network) => {
                    let cmd_bytes = take_upto(s.skip(n1 as int), 12);
                    let n2 = n1 + cmd_bytes.len();
                    match Cmd::spec_new(cmd_bytes) {
                        None => Err(CodecError::UnknownCommand),
                        Some(cmd) => match spec_i32_le(s.skip(n2 as int)) {
                            Err(e) => Err(e),
                            Ok((payload_len, n3)) => match spec_u32_le(s.skip((n2 + n3) as int)) {
                                Err(e) => Err(e),
                                Ok((payloadchk, n4)) => Ok(
                                    (Header { network, cmd, payload_len, payloadchk }, n2 + n3 + n4),
                                ),
                            },
                        },
                    }
                },
            },
        }
    }

    pub open spec fn spec_bytes(self) -> Seq<u8> {
        spec_u32_to_le_bytes(self.network.spec_value()) + self.cmd.spec_value()
            + spec_i32_to_le_bytes(self.payload_len) + spec_u32_to_le_bytes(self.payloadchk)
    }

    /// Decodes a header at `pos`: the network's magic number, twelve command
    /// bytes, the payload's length and its checksum.
    pub fn new(bytes: &[u8], pos: usize) -> (r: Result<(Header, usize), CodecError>)
        requires
            pos <= bytes@.len(),
        ensures
            outcome(r, pos) == Header::spec_parse(bytes@.skip(pos as int)),
            ends_within(r, pos, bytes@.len()),
    {
        let ghost s = bytes@.skip(pos as int);
        let (magic, p1) = read_u32_le(bytes, pos)?;
        assert(bytes@.skip(p1 as int) =~= s.skip((p1 - pos) as int));
        let network = match Network::new(magic) {
            Some(n) => n,
            None => {
                return Err(CodecError::UnknownNetwork);
            },
        };
        let (cmd_bytes, p2) = read_upto(bytes, p1, 12);
        assert(bytes@.skip(p2 as int) =~= s.skip((p2 - pos) as int));
        let cmd = match Cmd::new(cmd_bytes.as_slice()) {
            Some(c) => c,
            None => {
                return Err(CodecError::UnknownCommand);
            },
        };
        let (payload_len, p3) = read_i32_le(bytes, p2)?;
        assert(bytes@.skip(p3 as int) =~= s.skip((p3 - pos) as int));
        let (payloadchk, p4) = read_u32_le(bytes, p3)?;
        Ok((Header { network, cmd, payload_len, payloadchk }, p4))
    }

    pub fn into_bytes(&self) -> (r: Result<Vec<u8>, CodecError>)
        ensures
            r matches Ok(v) && v@ == self.spec_bytes(),
    {
        let mut wtr: Vec<u8> = Vec::new();
        self.write_to(&mut wtr);
        assert(wtr@ =~= self.spec_bytes());
        Ok(wtr)
    }

    pub fn write_to(&self, out: &mut Vec<u8>)
        ensures
            final(out)@ == old(out)@ + self.spec_bytes(),
    {
        put_u32_le(out, self.network.value());
        let cmd = self.cmd.value();
        push_all(out, &cmd);
        put_i32_le(out, self.payload_len);
        put_u32_le(out, self.payloadchk);
        assert(out@ =~= old(out)@ + self.spec_bytes());
    }
}

/// A written header is 24 bytes long.
pub proof fn lemma_header_len(h: Header)
    ensures
        h.spec_bytes().len() == HEADER_LEN,
{
    lemma_auto_spec_u32_to_from_le_bytes();
}

/// Reading back a written header gives it back and consumes its 24 bytes,
/// whatever follows them.
pub proof fn lemma_header_round_trip(h: Header, rest: Seq<u8>)
    ensures
        Header::spec_parse(h.spec_bytes() + rest) == Ok::<(Header, nat), CodecError>(
            (h, HEADER_LEN as nat),
        ),
{
    lemma_auto_spec_u32_to_from_le_bytes();
    lemma_cmd_value_names_cmd(h.cmd);
    lemma_network_value_names_network(h.network, 0);
    lemma_i32_round_trip(h.payload_len);
    let s = h.spec_bytes() + rest;
    assert(s.take(4) =~= spec_u32_to_le_bytes(h.network.spec_value()));
    assert(take_upto(s.skip(4), 12) =~= h.cmd.spec_value());
    assert(s.skip(16).take(4) =~= spec_i32_to_le_bytes(h.payload_len));
    assert(s.skip(20).take(4) =~= spec_u32_to_le_bytes(h.payloadchk));
}

/// Decoding a header fails exactly when fewer than 24 bytes are there, the
/// magic number names no network, or the twelve command bytes name no
/// command.
pub proof fn lemma_header_fails_iff(s: Seq<u8>)
    ensures
        Header::spec_parse(s) is Err <==> (s.len() < HEADER_LEN || Network::spec_new(
            spec_u32_from_le_bytes(s.take(4)),
        ) is None || Cmd::spec_new(s.subrange(4, 16)) is None),
{
    if s.len() >= HEADER_LEN {
        assert(take_upto(s.skip(4), 12) =~= s.subrange(4, 16));
    } else if s.len() >= 4 {
        let cmd_bytes = take_upto(s.skip(4), 12);
        if s.len() < 16 {
            assert(cmd_bytes =~= s.skip(4));
            assert(s.skip(4 + cmd_bytes.len() as int).len() == 0);
        } else {
            assert(cmd_bytes =~= s.subrange(4, 16));
        }
    }
}

} // verus!
