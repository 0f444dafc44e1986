//! The frame that carries every channel of the protocol: a fixed 11-byte
//! header (`TTGT` magic, version, channel, big-endian payload length, flags)
//! followed by the payload.
use vstd::prelude::*;
use crate::protocol::wire::{be32_bytes, be32_value, lemma_be32_roundtrip, u32_from_be, u32_to_be};

verus! {

/// The protocol version this implementation speaks.
pub const PROTOCOL_VERSION: u8 = 0x01;

/// The size of a frame header in bytes.
pub const HEADER_LEN: usize = 11;

/// The four magic bytes `TTGT` that open every frame.
pub open spec fn magic() -> Seq<u8> {
    seq![0x54u8, 0x54u8, 0x47u8, 0x54u8]
}

/// Why a byte buffer is not a frame.
#[derive(Debug, Clone, Copy, PartialEq, Eq, Structural)]
pub enum ProtocolError {
    InvalidMagic,
    UnsupportedVersion(u8),
    IncompleteHeader,
    /// The header announces more payload bytes than the buffer holds.
    PayloadIncomplete,
}

#[derive(Debug, Clone, Copy, PartialEq, Eq, Structural)]
pub struct FrameHeader {
    pub version: u8,
    pub channel_id: u8,
    pub length: u32,
    pub flags: u8,
}

#[derive(Debug, Clone)]
pub struct Frame {
    pub header: FrameHeader,
    pub payload: Vec<u8>,
}

/// The bytes of a frame with the given header fields and payload.
pub open spec fn frame_bytes(version: u8, channel_id: u8, length: u32, flags: u8, payload: Seq<u8>) -> Seq<u8> {
    magic() + seq![version, channel_id] + be32_bytes(length) + seq![flags] + payload
}

/// The encoding of a frame: its header fields as they stand, then its payload.
pub open spec fn encode_frame(f: Frame) -> Seq<u8> {
    frame_bytes(f.header.version, f.header.channel_id, f.header.length, f.header.flags, f.payload@)
}

/// The payload length announced by the header at the start of `data`.
pub open spec fn announced_length(data: Seq<u8>) -> int {
    be32_value(data[6], data[7], data[8], data[9])
}

/// What decoding `data` yields: the error, or the header fields and payload.
pub open spec fn decode_frame(data: Seq<u8>) -> Result<(FrameHeader, Seq<u8>), ProtocolError> {
    if data.len() < 11 {
        Err(ProtocolError::IncompleteHeader)
    } else if data.subrange(0, 4) != magic() {
        Err(ProtocolError::InvalidMagic)
    } else if data[4] != PROTOCOL_VERSION {
        Err(ProtocolError::UnsupportedVersion(data[4]))
    } else if data.len() < 11 + announced_length(data) {
        Err(ProtocolError::PayloadIncomplete)
    } else {
        Ok((
            FrameHeader {
                version: data[4],
                channel_id: data[5],
                length: announced_length(data) as u32,
                flags: data[10],
            },
            data.subrange(11, 11 + announced_length(data)),
        ))
    }
}

fn push_magic(buffer: &mut Vec<u8>)
    ensures
        final(buffer)@ == old(buffer)@ + magic(),
{
    buffer.push(0x54);
    buffer.push(0x54);
    buffer.push(0x47);
    buffer.push(0x54);
    assert(final(buffer)@ =~= old(buffer)@ + magic());
}

fn append_bytes(buffer: &mut Vec<u8>, data: &[u8])
    ensures
        final(buffer)@ == old(buffer)@ + data@,
{
    let mut i: usize = 0;
    while i < data.len()
        invariant
            i <= data@.len(),
            buffer@ == old(buffer)@ + data@.subrange(0, i as int),
        decreases data.len() - i,
    {
        buffer.push(data[i]);
        i = i + 1;
        assert(buffer@ =~= old(buffer)@ + data@.subrange(0, i as int));
    }
    assert(data@.subrange(0, data@.len() as int) =~= data@);
}

/// Assemble a frame from its header fields; the length field is the payload's
/// length.
pub fn build_frame(version: u8, channel_id: u8, flags: u8, payload: &[u8]) -> (r: Vec<u8>)
    requires
        payload@.len() <= u32::MAX,
    ensures
        r@ == frame_bytes(version, channel_id, payload@.len() as u32, flags, payload@),
{
    let mut buffer: Vec<u8> = Vec::new();
    push_magic(&mut buffer);
    buffer.push(version);
    buffer.push(channel_id);
    let len = u32_to_be(payload.len() as u32);
    append_bytes(&mut buffer, &len);
    buffer.push(flags);
    append_bytes(&mut buffer, payload);
    assert(buffer@ =~= frame_bytes(version, channel_id, payload@.len() as u32, flags, payload@));
    buffer
}

impl Frame {
    /// The wire encoding of this frame. The length field is written as it
    /// stands in the header, whatever the payload's length.
    pub fn to_bytes(&self) -> (r: Vec<u8>)
        ensures
            r@ == encode_frame(*self),
    {
        let mut buffer: Vec<u8> = Vec::new();
        push_magic(&mut buffer);
        buffer.push(self.header.version);
        buffer.push(self.header.channel_id);
        let len = u32_to_be(self.header.length);
        append_bytes(&mut buffer, &len);
        buffer.push(self.header.flags);
        append_bytes(&mut buffer, self.payload.as_slice());
        assert(buffer@ =~= encode_frame(*self));
        buffer
    }

    /// Parse a frame from the start of `data`; bytes after the announced
    /// payload are ignored.
    pub fn from_bytes(data: &[u8]) -> (r: Result<Frame, ProtocolError>)
        ensures
            match (r, decode_frame(data@)) {
                (Ok(f), Ok((h, p))) => f.header == h && f.payload@ == p,
                (Err(e), Err(e2)) => e == e2,
                _ => false,
            },
    {
        if data.len() < 11 {
            return Err(ProtocolError::IncompleteHeader);
        }
        if !(data[0] == 0x54 && data[1] == 0x54 && data[2] == 0x47 && data[3] == 0x54) {
            proof {
                if data@.subrange(0, 4) == magic() {
                    assert(data@.subrange(0, 4)[0] == data@[0]);
                    assert(data@.subrange(0, 4)[1] == data@[1]);
                    assert(data@.subrange(0, 4)[2] == data@[2]);
                    assert(data@.subrange(0, 4)[3] == data@[3]);
                }
            }
            return Err(ProtocolError::InvalidMagic);
        }
        assert(data@.subrange(0, 4) =~= magic());
        let version = data[4];
        if version != PROTOCOL_VERSION {
            return Err(ProtocolError::UnsupportedVersion(version));
        }
        let channel_id = data[5];
        let length = u32_from_be(data[6], data[7], data[8], data[9]);
        let flags = data[10];
        if data.len() - 11 < length as usize {
            return Err(ProtocolError::PayloadIncomplete);
        }
        let end = 11 + length as usize;
        let mut payload: Vec<u8> = Vec::new();
        let mut i: usize = 11;
        while i < end
            invariant
                11 <= i <= end,
                end <= data@.len(),
                payload@ == data@.subrange(11, i as int),
            decreases end - i,
        {
            payload.push(data[i]);
            i = i + 1;
            assert(payload@ =~= data@.subrange(11, i as int));
        }
        Ok(Frame {
            header: FrameHeader { version, channel_id, length, flags },
            payload,
        })
    }
}

/// A frame whose length field matches its payload and whose version is
/// the supported one decodes back to itself from its encoding.
pub proof fn lemma_frame_roundtrip(f: Frame)
    requires
        f.header.version == PROTOCOL_VERSION,
        f.header.length == f.payload@.len(),
    ensures
        decode_frame(encode_frame(f)) == Ok::<(FrameHeader, Seq<u8>), ProtocolError>((f.header, f.payload@)),
{
    let b = encode_frame(f);
    lemma_be32_roundtrip(f.header.length);
    assert(b.subrange(0, 4) =~= magic());
    assert(b[6] == be32_bytes(f.header.length)[0]);
    assert(b[7] == be32_bytes(f.header.length)[1]);
    assert(b[8] == be32_bytes(f.header.length)[2]);
    assert(b[9] == be32_bytes(f.header.length)[3]);
    assert(b.subrange(11, 11 + announced_length(b)) =~= f.payload@);
}

/// The bytes of a frame of the supported version, announcing its payload's
/// length, decode to that header and payload.
pub proof fn lemma_frame_bytes_decode(version: u8, channel_id: u8, flags: u8, payload: Seq<u8>)
    requires
        version == PROTOCOL_VERSION,
        payload.len() <= u32::MAX,
    ensures
        decode_frame(frame_bytes(version, channel_id, payload.len() as u32, flags, payload))
            == Ok::<(FrameHeader, Seq<u8>), ProtocolError>((
                FrameHeader { version, channel_id, length: payload.len() as u32, flags },
                payload,
            )),
{
    let len = payload.len() as u32;
    let b = frame_bytes(version, channel_id, len, flags, payload);
    lemma_be32_roundtrip(len);
    assert(b.subrange(0, 4) =~= magic());
    assert(b[6] == be32_bytes(len)[0]);
    assert(b[7] == be32_bytes(len)[1]);
    assert(b[8] == be32_bytes(len)[2]);
    assert(b[9] == be32_bytes(len)[3]);
    assert(b.subrange(11, 11 + announced_length(b)) =~= payload);
}

/// Re-encoding what was decoded gives back the decoded prefix of the input.
pub proof fn lemma_frame_decode_encode(data: Seq<u8>)
    requires
        decode_frame(data) is Ok,
    ensures
        ({
            let (h, p) = decode_frame(data)->Ok_0;
            frame_bytes(h.version, h.channel_id, h.length, h.flags, p)
                == data.subrange(0, 11 + announced_length(data))
        }),
{
    let (h, p) = decode_frame(data)->Ok_0;
    let len = announced_length(data);
    lemma_be32_roundtrip(len as u32);
    let a = data[6] as int;
    let b = data[7] as int;
    let c = data[8] as int;
    let d = data[9] as int;
    assert(len / 0x100_0000 == a && len / 0x1_0000 % 256 == b && len / 256 % 256 == c && len % 256 == d) by (nonlinear_arith)
        requires len == a * 0x100_0000 + b * 0x1_0000 + c * 256 + d, 0 <= a < 256, 0 <= b < 256, 0 <= c < 256, 0 <= d < 256;
    assert(frame_bytes(h.version, h.channel_id, h.length, h.flags, p) =~= data.subrange(0, 11 + len));
}

}
