//! The `getheaders` payload: a request for the block headers after the last
//! known one.
use vstd::prelude::*;
use crate::codec::wire::{CodecError, views, read_upto, read_i32_le};
use crate::codec::commons::var_uint::VarUint;
use crate::codec::payload::get_blocks::{spec_locator_bytes, write_locator};

verus! {

/// The protocol version, a count, that many block locator hashes, and the hash
/// to stop at.
#[derive(Debug, Clone)]
pub struct GetHeaders {
    pub version: i32,
    pub hash_count: VarUint,
    pub block_locator_hashes: Vec<Vec<u8>>,
    pub hash_stop: Vec<u8>,
}

pub struct GetHeadersView {
    pub version: i32,
    pub hash_count: VarUint,
    pub block_locator_hashes: Seq<Seq<u8>>,
    pub hash_stop: Seq<u8>,
}

impl View for GetHeaders {
    type V = GetHeadersView;

    open spec fn view(&self) -> GetHeadersView {
        GetHeadersView {
            version: self.version,
            hash_count: self.hash_count,
            block_locator_hashes: views(self.block_locator_hashes@),
            hash_stop: self.hash_stop@,
        }
    }
}

impl GetHeadersView {
    /// Laid out as the `getblocks` payload.
    pub open spec fn spec_bytes(self) -> Seq<u8> {
        spec_locator_bytes(self.version, self.hash_count, self.block_locator_hashes, self.hash_stop)
    }
}

impl GetHeaders {
    /// Decoding reads the version from a window of three bytes, which never
    /// holds the four bytes of an `i32`: a `getheaders` payload is never
    /// decoded.
    pub open spec fn spec_parse(s: Seq<u8>) -> Result<(GetHeadersView, nat), CodecError> {
        Err(CodecError::UnexpectedEnd)
    }

    pub fn new(bytes: &[u8], pos: usize) -> (r: Result<(GetHeaders, usize), CodecError>)
        requires
            pos <= bytes@.len(),
        ensures
            r == Err::<(GetHeaders, usize), CodecError>(CodecError::UnexpectedEnd),
    {
        let (window, _) = read_upto(bytes, pos, 3);
        match read_i32_le(window.as_slice(), 0) {
            Err(e) => Err(e),
            Ok(_) => Err(CodecError::UnexpectedEnd),
        }
    }

    pub fn into_bytes(&self) -> (r: Result<Vec<u8>, CodecError>)
        ensures
            r matches Ok(v) && v@ == self@.spec_bytes(),
    {
        let mut wtr: Vec<u8> = Vec::new();
        self.write_to(&mut wtr);
        assert(wtr@ =~= self@.spec_bytes());
        Ok(wtr)
    }

    pub fn write_to(&self, out: &mut Vec<u8>)
        ensures
            final(out)@ == old(out)@ + self@.spec_bytes(),
    {
        write_locator(
            self.version,
            self.hash_count,
            &self.block_locator_hashes,
            &self.hash_stop,
            out,
        );
    }
}

} // verus!
