//! Aether Radio transport header: encode, decode, validate.
//!
//! Wire layout (32 bytes, little endian):
//! magic u32 | version u16 | reserved 2 | stream_id u32 | timestamp u64 |
//! sequence u64 | payload_len u32.

use vstd::bytes::*;
use vstd::prelude::*;

use crate::types::{Packet, Sequence, StreamId, Timestamp};

verus! {

/// Wire magic identifying an Aether Radio packet ("ATHR").
pub const AETHER_MAGIC: u32 = 0x4154_4852;

/// Current protocol version.
pub const AETHER_VERSION: u16 = 1;

/// Size of the encoded header in bytes.
pub const HEADER_LEN: usize = 32;

/// Aether Radio data-plane header.
#[derive(Debug, Clone, Copy, PartialEq, Eq, Structural)]
pub struct AetherHeader {
    pub magic: u32,
    pub version: u16,
    pub stream_id: u32,
    pub timestamp: u64,
    pub sequence: u64,
    pub payload_len: u32,
}

#[derive(Debug, PartialEq, Eq, Structural)]
pub enum ProtocolError {
    Truncated { got: usize, need: usize },
    BadMagic(u32),
    UnsupportedVersion(u16),
    PayloadLenMismatch { header: u32, body: usize },
}

/// The 32 wire bytes of a header.
pub open spec fn spec_header_bytes(h: AetherHeader) -> Seq<u8> {
    spec_u32_to_le_bytes(h.magic) + spec_u16_to_le_bytes(h.version) + seq![0u8, 0u8]
        + spec_u32_to_le_bytes(h.stream_id) + spec_u64_to_le_bytes(h.timestamp)
        + spec_u64_to_le_bytes(h.sequence) + spec_u32_to_le_bytes(h.payload_len)
}

/// The header fields read from the first 32 bytes of `b` (reserved bytes ignored).
pub open spec fn spec_header_fields(b: Seq<u8>) -> AetherHeader {
    AetherHeader {
        magic: spec_u32_from_le_bytes(b.subrange(0, 4)),
        version: spec_u16_from_le_bytes(b.subrange(4, 6)),
        stream_id: spec_u32_from_le_bytes(b.subrange(8, 12)),
        timestamp: spec_u64_from_le_bytes(b.subrange(12, 20)),
        sequence: spec_u64_from_le_bytes(b.subrange(20, 28)),
        payload_len: spec_u32_from_le_bytes(b.subrange(28, 32)),
    }
}

/// Magic and version check of a header.
pub open spec fn spec_validate(h: AetherHeader) -> Result<(), ProtocolError> {
    if h.magic != AETHER_MAGIC {
        Err(ProtocolError::BadMagic(h.magic))
    } else if h.version != AETHER_VERSION {
        Err(ProtocolError::UnsupportedVersion(h.version))
    } else {
        Ok(())
    }
}

/// Result of decoding a header from `b`.
pub open spec fn spec_decode(b: Seq<u8>) -> Result<AetherHeader, ProtocolError> {
    if b.len() < 32 {
        Err(ProtocolError::Truncated { got: b.len() as usize, need: 32 })
    } else {
        let h = spec_header_fields(b);
        match spec_validate(h) {
            Ok(()) => Ok(h),
            Err(e) => Err(e),
        }
    }
}

/// A header this implementation produces for a packet.
pub open spec fn spec_header_for(
    stream_id: u32,
    timestamp: u64,
    sequence: u64,
    payload_len: u32,
) -> AetherHeader {
    AetherHeader {
        magic: AETHER_MAGIC,
        version: AETHER_VERSION,
        stream_id,
        timestamp,
        sequence,
        payload_len,
    }
}

/// The frame bytes for a packet: header followed by the payload.
pub open spec fn spec_frame_bytes(p: crate::types::PacketView) -> Seq<u8> {
    spec_header_bytes(
        spec_header_for(p.stream_id, p.timestamp, p.sequence, p.payload.len() as u32),
    ) + p.payload
}

/// Result of decoding a frame.
pub open spec fn spec_decode_frame(b: Seq<u8>) -> Result<crate::types::PacketView, ProtocolError> {
    match spec_decode(b) {
        Err(e) => Err(e),
        Ok(h) => {
            let body = b.subrange(32, b.len() as int);
            if body.len() != h.payload_len as int {
                Err(ProtocolError::PayloadLenMismatch { header: h.payload_len, body: body.len() as usize })
            } else {
                Ok(
                    crate::types::PacketView {
                        stream_id: h.stream_id,
                        sequence: h.sequence,
                        timestamp: h.timestamp,
                        payload: body,
                    },
                )
            }
        },
    }
}

proof fn lemma_header_bytes_layout(h: AetherHeader)
    ensures
        spec_header_bytes(h).len() == 32,
        spec_header_bytes(h).subrange(0, 4) == spec_u32_to_le_bytes(h.magic),
        spec_header_bytes(h).subrange(4, 6) == spec_u16_to_le_bytes(h.version),
        spec_header_bytes(h).subrange(8, 12) == spec_u32_to_le_bytes(h.stream_id),
        spec_header_bytes(h).subrange(12, 20) == spec_u64_to_le_bytes(h.timestamp),
        spec_header_bytes(h).subrange(20, 28) == spec_u64_to_le_bytes(h.sequence),
        spec_header_bytes(h).subrange(28, 32) == spec_u32_to_le_bytes(h.payload_len),
{
    lemma_auto_spec_u16_to_from_le_bytes();
    lemma_auto_spec_u32_to_from_le_bytes();
    lemma_auto_spec_u64_to_from_le_bytes();
    let b = spec_header_bytes(h);
    assert(b.subrange(0, 4) =~= spec_u32_to_le_bytes(h.magic));
    assert(b.subrange(4, 6) =~= spec_u16_to_le_bytes(h.version));
    assert(b.subrange(8, 12) =~= spec_u32_to_le_bytes(h.stream_id));
    assert(b.subrange(12, 20) =~= spec_u64_to_le_bytes(h.timestamp));
    assert(b.subrange(20, 28) =~= spec_u64_to_le_bytes(h.sequence));
    assert(b.subrange(28, 32) =~= spec_u32_to_le_bytes(h.payload_len));
}

/// Reading back the fields of an encoded header gives the header itself.
pub proof fn lemma_header_fields_of_bytes(h: AetherHeader)
    ensures
        spec_header_fields(spec_header_bytes(h)) == h,
        spec_header_bytes(h).len() == HEADER_LEN,
{
    lemma_header_bytes_layout(h);
    lemma_auto_spec_u16_to_from_le_bytes();
    lemma_auto_spec_u32_to_from_le_bytes();
    lemma_auto_spec_u64_to_from_le_bytes();
}

/// Decoding an encoded header gives back the header, or the validation
/// error that the header itself carries.
pub proof fn law_header_roundtrip(h: AetherHeader)
    ensures
        spec_decode(spec_header_bytes(h)) == match spec_validate(h) {
            Ok(()) => Ok(h),
            Err(e) => Err::<AetherHeader, ProtocolError>(e),
        },
{
    lemma_header_fields_of_bytes(h);
}

/// A frame built for a packet whose payload length fits in the header field
/// decodes back to the same packet.
pub proof fn law_frame_roundtrip(p: crate::types::PacketView)
    requires
        p.payload.len() <= u32::MAX,
    ensures
        spec_decode_frame(spec_frame_bytes(p)) == Ok::<crate::types::PacketView, ProtocolError>(p),
{
    let h = spec_header_for(p.stream_id, p.timestamp, p.sequence, p.payload.len() as u32);
    let b = spec_frame_bytes(p);
    lemma_header_fields_of_bytes(h);
    assert(b.subrange(0, 32) =~= spec_header_bytes(h));
    assert(b.subrange(0, 4) =~= spec_header_bytes(h).subrange(0, 4));
    assert(b.subrange(4, 6) =~= spec_header_bytes(h).subrange(4, 6));
    assert(b.subrange(8, 12) =~= spec_header_bytes(h).subrange(8, 12));
    assert(b.subrange(12, 20) =~= spec_header_bytes(h).subrange(12, 20));
    assert(b.subrange(20, 28) =~= spec_header_bytes(h).subrange(20, 28));
    assert(b.subrange(28, 32) =~= spec_header_bytes(h).subrange(28, 32));
    assert(spec_header_fields(b) == spec_header_fields(spec_header_bytes(h)));
    assert(b.subrange(32, b.len() as int) =~= p.payload);
}

/// Copies `src` into `buf` at `off`, leaving the other bytes unchanged.
fn put_bytes(buf: &mut [u8; 32], off: usize, src: &Vec<u8>)
    requires
        off + src@.len() <= 32,
    ensures
        final(buf)@ == old(buf)@.subrange(0, off as int) + src@ + old(buf)@.subrange(
            off + src@.len(),
            32,
        ),
{
    let ghost orig = buf@;
    let mut i: usize = 0;
    while i < src.len()
        invariant
            off + src@.len() <= 32,
            0 <= i <= src@.len(),
            buf@.len() == 32,
            forall|k: int| 0 <= k < off ==> buf@[k] == orig[k],
            forall|k: int| off + src@.len() <= k < 32 ==> buf@[k] == orig[k],
            forall|k: int| off <= k < off + i ==> buf@[k] == src@[k - off],
            forall|k: int| off + i <= k < off + src@.len() ==> buf@[k] == orig[k],
        decreases src@.len() - i,
    {
        buf[off + i] = src[i];
        i = i + 1;
    }
    assert(buf@ =~= orig.subrange(0, off as int) + src@ + orig.subrange(off + src@.len(), 32));
}

impl AetherHeader {
    pub fn new(stream_id: StreamId, timestamp: Timestamp, sequence: Sequence, payload_len: u32) -> (h:
        Self)
        ensures
            h == spec_header_for(stream_id.0, timestamp.0, sequence.0, payload_len),
    {
        AetherHeader {
            magic: AETHER_MAGIC,
            version: AETHER_VERSION,
            stream_id: stream_id.0,
            timestamp: timestamp.0,
            sequence: sequence.0,
            payload_len,
        }
    }

    /// Encode header to little-endian bytes (32 bytes).
    pub fn encode(&self) -> (out: [u8; 32])
        ensures
            out@ == spec_header_bytes(*self),
    {
        let mut buf = [0u8; 32];
        let ghost zero = buf@;
        put_bytes(&mut buf, 0, &u32_to_le_bytes(self.magic));
        put_bytes(&mut buf, 4, &u16_to_le_bytes(self.version));
        // bytes 6..8 reserved (alignment / flags)
        put_bytes(&mut buf, 8, &u32_to_le_bytes(self.stream_id));
        put_bytes(&mut buf, 12, &u64_to_le_bytes(self.timestamp));
        put_bytes(&mut buf, 20, &u64_to_le_bytes(self.sequence));
        put_bytes(&mut buf, 28, &u32_to_le_bytes(self.payload_len));
        proof {
            lemma_header_bytes_layout(*self);
            let s = spec_header_bytes(*self);
            assert(zero[6] == 0 && zero[7] == 0);
            assert forall|k: int| 0 <= k < 32 implies buf@[k] == s[k] by {
                if k < 4 {
                    assert(s[k] == s.subrange(0, 4)[k]);
                } else if k < 6 {
                    assert(s[k] == s.subrange(4, 6)[k - 4]);
                } else if k < 8 {
                } else if k < 12 {
                    assert(s[k] == s.subrange(8, 12)[k - 8]);
                } else if k < 20 {
                    assert(s[k] == s.subrange(12, 20)[k - 12]);
                } else if k < 28 {
                    assert(s[k] == s.subrange(20, 28)[k - 20]);
                } else {
                    assert(s[k] == s.subrange(28, 32)[k - 28]);
                }
            }
            assert(buf@ =~= s);
        }
        buf
    }

    /// Decode header from bytes. Requires at least 32 bytes.
    pub fn decode(bytes: &[u8]) -> (r: Result<Self, ProtocolError>)
        ensures
            r == spec_decode(bytes@),
    {
        if bytes.len() < 32 {
            return Err(ProtocolError::Truncated { got: bytes.len(), need: 32 });
        }
        let magic = u32_from_le_bytes(&bytes[0..4]);
        let version = u16_from_le_bytes(&bytes[4..6]);
        let stream_id = u32_from_le_bytes(&bytes[8..12]);
        let timestamp = u64_from_le_bytes(&bytes[12..20]);
        let sequence = u64_from_le_bytes(&bytes[20..28]);
        let payload_len = u32_from_le_bytes(&bytes[28..32]);
        let header = AetherHeader { magic, version, stream_id, timestamp, sequence, payload_len };
        match header.validate() {
            Ok(()) => Ok(header),
            Err(e) => Err(e),
        }
    }

    /// Validate magic and version.
    pub fn validate(&self) -> (r: Result<(), ProtocolError>)
        ensures
            r == spec_validate(*self),
    {
        if self.magic != AETHER_MAGIC {
            return Err(ProtocolError::BadMagic(self.magic));
        }
        if self.version != AETHER_VERSION {
            return Err(ProtocolError::UnsupportedVersion(self.version));
        }
        Ok(())
    }
}

/// Encode `Packet` as AetherHeader (32B) + payload.
pub fn encode_frame(packet: &Packet) -> (out: Vec<u8>)
    ensures
        out@ == spec_frame_bytes(packet@),
{
    let header = AetherHeader::new(
        packet.stream_id,
        packet.timestamp,
        packet.sequence,
        #[verifier::truncate]
        (packet.payload.len() as u32),
    );
    let hb = header.encode();
    let mut out: Vec<u8> = Vec::with_capacity(packet.payload.len().saturating_add(32));
    let mut i: usize = 0;
    while i < 32
        invariant
            0 <= i <= 32,
            out@ == hb@.subrange(0, i as int),
        decreases 32 - i,
    {
        out.push(hb[i]);
        i = i + 1;
        assert(out@ =~= hb@.subrange(0, i as int));
    }
    let mut j: usize = 0;
    while j < packet.payload.len()
        invariant
            0 <= j <= packet.payload@.len(),
            out@ == hb@ + packet.payload@.subrange(0, j as int),
        decreases packet.payload@.len() - j,
    {
        out.push(packet.payload[j]);
        j = j + 1;
        assert(out@ =~= hb@ + packet.payload@.subrange(0, j as int));
    }
    assert(packet.payload@.subrange(0, j as int) =~= packet.payload@);
    out
}

/// Decode AetherHeader + payload into a `Packet`.
pub fn decode_frame(bytes: &[u8]) -> (r: Result<Packet, ProtocolError>)
    ensures
        match r {
            Ok(p) => spec_decode_frame(bytes@) == Ok::<crate::types::PacketView, ProtocolError>(p@),
            Err(e) => spec_decode_frame(bytes@) == Err::<crate::types::PacketView, ProtocolError>(e),
        },
{
    let header = match AetherHeader::decode(bytes) {
        Ok(h) => h,
        Err(e) => return Err(e),
    };
    let body = &bytes[32..bytes.len()];
    if body.len() != header.payload_len as usize {
        return Err(ProtocolError::PayloadLenMismatch { header: header.payload_len, body: body.len() });
    }
    let mut payload: Vec<u8> = Vec::with_capacity(body.len());
    let mut i: usize = 0;
    while i < body.len()
        invariant
            0 <= i <= body@.len(),
            payload@ == body@.subrange(0, i as int),
        decreases body@.len() - i,
    {
        payload.push(body[i]);
        i = i + 1;
        assert(payload@ =~= body@.subrange(0, i as int));
    }
    assert(body@.subrange(0, i as int) =~= body@);
    Ok(
        Packet::new(
            StreamId(header.stream_id),
            Sequence(header.sequence),
            Timestamp(header.timestamp),
            payload,
        ),
    )
}

} // verus!
