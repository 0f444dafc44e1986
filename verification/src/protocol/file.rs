//! File-transfer messages.
use vstd::prelude::*;
use crate::protocol::wire::{be64_bytes, be32_value, lemma_be32_roundtrip, lemma_be64_split, u64_from_be, u64_to_be};

verus! {

#[derive(Debug, Clone)]
pub struct FileMetadata {
    pub transfer_id: String,
    pub file_name: String,
    pub file_size: u64,
    pub is_upload: bool,
}

/// Header in front of each file chunk: transfer id and byte offset.
#[derive(Debug, Clone, Copy, PartialEq, Eq, Structural)]
pub struct FileChunkHeader {
    pub transfer_id: u64,
    pub offset: u64,
}

/// Why a buffer is not a chunk header.
#[derive(Debug, Clone, Copy, PartialEq, Eq, Structural)]
pub enum ChunkHeaderError {
    TooShort,
}

/// The 64-bit value encoded big-endian in the first eight bytes of `s`.
pub open spec fn be64_value(s: Seq<u8>) -> int {
    be32_value(s[0], s[1], s[2], s[3]) * 0x1_0000_0000 + be32_value(s[4], s[5], s[6], s[7])
}

/// The 16 bytes of a chunk header.
pub open spec fn encode_chunk_header(h: FileChunkHeader) -> Seq<u8> {
    be64_bytes(h.transfer_id) + be64_bytes(h.offset)
}

/// What decoding a buffer as a chunk header yields.
pub open spec fn decode_chunk_header(d: Seq<u8>) -> Result<FileChunkHeader, ChunkHeaderError> {
    if d.len() < 16 {
        Err(ChunkHeaderError::TooShort)
    } else {
        Ok(FileChunkHeader {
            transfer_id: be64_value(d) as u64,
            offset: be64_value(d.subrange(8, 16)) as u64,
        })
    }
}

impl FileChunkHeader {
    pub fn to_bytes(&self) -> (r: [u8; 16])
        ensures
            r@ == encode_chunk_header(*self),
    {
        let a = u64_to_be(self.transfer_id);
        let b = u64_to_be(self.offset);
        let r = [
            a[0], a[1], a[2], a[3], a[4], a[5], a[6], a[7],
            b[0], b[1], b[2], b[3], b[4], b[5], b[6], b[7],
        ];
        assert(r@ =~= encode_chunk_header(*self));
        r
    }

    pub fn from_bytes(data: &[u8]) -> (r: Result<FileChunkHeader, ChunkHeaderError>)
        ensures
            r == decode_chunk_header(data@),
    {
        if data.len() < 16 {
            return Err(ChunkHeaderError::TooShort);
        }
        let transfer_id = u64_from_be(data);
        let rest = vstd::slice::slice_subrange(data, 8, 16);
        let offset = u64_from_be(rest);
        Ok(FileChunkHeader { transfer_id, offset })
    }
}

proof fn lemma_be64_roundtrip(v: u64)
    ensures
        be64_value(be64_bytes(v)) == v,
{
    lemma_be64_split(v);
    let hi = (v / 0x1_0000_0000) as u32;
    let lo = (v % 0x1_0000_0000) as u32;
    lemma_be32_roundtrip(hi);
    lemma_be32_roundtrip(lo);
}

/// A chunk header decodes back to itself from its encoding.
pub proof fn lemma_chunk_header_roundtrip(h: FileChunkHeader)
    ensures
        decode_chunk_header(encode_chunk_header(h)) == Ok::<FileChunkHeader, ChunkHeaderError>(h),
{
    let d = encode_chunk_header(h);
    lemma_be64_roundtrip(h.transfer_id);
    lemma_be64_roundtrip(h.offset);
    assert(d.subrange(0, 8) =~= be64_bytes(h.transfer_id));
    assert(d.subrange(8, 16) =~= be64_bytes(h.offset));
    assert(be64_value(d) == be64_value(d.subrange(0, 8)));
}

}
