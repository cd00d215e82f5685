//! RTP demultiplexer: parses the raw packet bytes the voice driver delivers
//! and extracts the synchronization source, the sequence number and the
//! payload.  Parse-only; a failure has no side effect.
use vstd::prelude::*;

use crate::types::BridgeError;

verus! {

/// Big-endian 16-bit field starting at byte `i`.
pub open spec fn u16_be(b: Seq<u8>, i: int) -> int {
    b[i] * 256 + b[i + 1]
}

/// Big-endian 32-bit field starting at byte `i`.
pub open spec fn u32_be(b: Seq<u8>, i: int) -> int {
    b[i] * 0x1000000 + b[i + 1] * 0x10000 + b[i + 2] * 256 + b[i + 3]
}

/// The version bits of the first header byte.
pub open spec fn rtp_version(b0: u8) -> u8 {
    b0 >> 6
}

/// The CSRC count of the first header byte.
pub open spec fn rtp_cc(b0: u8) -> u8 {
    b0 & 0x0f
}

/// Whether the extension bit of the first header byte is set.
pub open spec fn rtp_has_ext(b0: u8) -> bool {
    b0 & 0x10 != 0
}

/// Offset of the extension header (or of the payload, without an
/// extension): the fixed 12-byte header plus four bytes per CSRC entry.
pub open spec fn rtp_base_offset(b: Seq<u8>) -> int {
    12 + 4 * rtp_cc(b[0])
}

/// Offset of the payload: past the extension header and its word-counted
/// body when the extension bit is set.
pub open spec fn rtp_payload_offset(b: Seq<u8>) -> int {
    if rtp_has_ext(b[0]) {
        rtp_base_offset(b) + 4 + 4 * u16_be(b, rtp_base_offset(b) + 2)
    } else {
        rtp_base_offset(b)
    }
}

/// The fail-closed validation of the demultiplexer: long enough for the
/// fixed header, version 2, long enough for the extension header when one is
/// announced, and a non-empty payload.
pub open spec fn rtp_valid(b: Seq<u8>) -> bool {
    &&& b.len() >= 12
    &&& rtp_version(b[0]) == 2
    &&& (rtp_has_ext(b[0]) ==> b.len() >= rtp_base_offset(b) + 4)
    &&& rtp_payload_offset(b) < b.len()
}

/// One demultiplexed packet.
#[derive(Debug)]
pub struct RtpPacket {
    /// Synchronization source identifier.
    pub ssrc: u32,
    /// 16-bit transport sequence number.
    pub sequence: u16,
    /// The encoded audio payload; never empty.
    pub payload: Vec<u8>,
}

/// Parses one raw RTP packet.  Succeeds exactly on packets that pass the
/// fail-closed validation and then yields the header fields and the payload
/// unchanged; everything else is a [`BridgeError::MalformedPacket`].
pub fn parse_rtp(bytes: &[u8]) -> (r: Result<RtpPacket, BridgeError>)
    ensures
        r is Ok <==> rtp_valid(bytes@),
        r matches Ok(p) ==> {
            &&& p.ssrc == u32_be(bytes@, 8)
            &&& p.sequence == u16_be(bytes@, 2)
            &&& p.payload@ == bytes@.subrange(rtp_payload_offset(bytes@), bytes@.len() as int)
            &&& p.payload@.len() > 0
        },
        r matches Err(e) ==> e == BridgeError::MalformedPacket,
{
    let n = bytes.len();
    if n < 12 {
        return Err(BridgeError::MalformedPacket);
    }
    let b0 = bytes[0];
    if (b0 >> 6) != 2 {
        return Err(BridgeError::MalformedPacket);
    }
    let cc = b0 & 0x0f;
    assert(b0 & 0x0f < 16) by (bit_vector);
    let base: usize = 12 + 4 * (cc as usize);
    let offset: usize;
    if (b0 & 0x10) != 0 {
        if n < base + 4 {
            return Err(BridgeError::MalformedPacket);
        }
        let ext_words: u16 = (bytes[base + 2] as u16) * 256 + (bytes[base + 3] as u16);
        offset = base + 4 + 4 * (ext_words as usize);
    } else {
        offset = base;
    }
    if offset >= n {
        return Err(BridgeError::MalformedPacket);
    }
    let ssrc: u32 = (bytes[8] as u32) * 0x1000000 + (bytes[9] as u32) * 0x10000
        + (bytes[10] as u32) * 256 + (bytes[11] as u32);
    let sequence: u16 = (bytes[2] as u16) * 256 + (bytes[3] as u16);
    let mut payload: Vec<u8> = Vec::new();
    let mut i: usize = offset;
    while i < n
        invariant
            offset <= i <= n,
            n == bytes@.len(),
            payload@ == bytes@.subrange(offset as int, i as int),
        decreases n - i,
    {
        payload.push(bytes[i]);
        assert(payload@ == bytes@.subrange(offset as int, i + 1 as int));
        i = i + 1;
    }
    Ok(RtpPacket { ssrc, sequence, payload })
}

} // verus!
