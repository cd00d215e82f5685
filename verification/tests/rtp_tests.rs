use voice_bridge::rtp::parse_rtp;
use voice_bridge::types::BridgeError;

fn base_packet(payload: &[u8]) -> Vec<u8> {
    // version 2, no padding, no extension, no CSRC; seq 0x0105; ssrc 7.
    let mut v = vec![0x80, 0x60, 0x01, 0x05, 0, 0, 0, 0, 0x00, 0x00, 0x00, 0x07];
    v.extend_from_slice(payload);
    v
}

#[test]
fn parses_header_fields_and_payload() {
    let p = parse_rtp(&base_packet(&[0xaa, 0xbb])).unwrap();
    assert_eq!(p.ssrc, 7);
    assert_eq!(p.sequence, 0x0105);
    assert_eq!(p.payload, vec![0xaa, 0xbb]);
}

#[test]
fn twelve_byte_packet_is_malformed() {
    // An RTP packet of exactly header size carries no payload.
    let r = parse_rtp(&base_packet(&[]));
    assert_eq!(r.unwrap_err(), BridgeError::MalformedPacket);
}

#[test]
fn short_packet_is_malformed() {
    let r = parse_rtp(&[0x80, 0, 0, 1, 0, 0, 0, 0, 0, 0, 0]);
    assert_eq!(r.unwrap_err(), BridgeError::MalformedPacket);
}

#[test]
fn wrong_version_is_malformed() {
    let mut v = base_packet(&[1]);
    v[0] = 0x40; // version 1
    assert_eq!(parse_rtp(&v).unwrap_err(), BridgeError::MalformedPacket);
}

#[test]
fn csrc_entries_shift_the_payload() {
    // cc = 1: one 4-byte CSRC entry after the fixed header.
    let mut v = vec![0x81, 0x60, 0x00, 0x09, 0, 0, 0, 0, 0x12, 0x34, 0x56, 0x78];
    v.extend_from_slice(&[9, 9, 9, 9]); // CSRC entry
    v.extend_from_slice(&[0xcc]);
    let p = parse_rtp(&v).unwrap();
    assert_eq!(p.ssrc, 0x12345678);
    assert_eq!(p.sequence, 9);
    assert_eq!(p.payload, vec![0xcc]);
}

#[test]
fn extension_shifts_the_payload() {
    // X bit set; extension header with one 4-byte word of extension data.
    let mut v = vec![0x90, 0x60, 0x00, 0x02, 0, 0, 0, 0, 0, 0, 0, 1];
    v.extend_from_slice(&[0xbe, 0xde, 0x00, 0x01]); // profile + length = 1 word
    v.extend_from_slice(&[1, 2, 3, 4]); // extension body
    v.extend_from_slice(&[0x5a, 0x5b]);
    let p = parse_rtp(&v).unwrap();
    assert_eq!(p.payload, vec![0x5a, 0x5b]);
}

#[test]
fn extension_overrunning_the_packet_is_malformed() {
    // Announces 100 extension words but ends right after the ext header.
    let mut v = vec![0x90, 0x60, 0x00, 0x02, 0, 0, 0, 0, 0, 0, 0, 1];
    v.extend_from_slice(&[0xbe, 0xde, 0x00, 100]);
    assert_eq!(parse_rtp(&v).unwrap_err(), BridgeError::MalformedPacket);
}

#[test]
fn extension_bit_without_room_is_malformed() {
    let v = vec![0x90, 0x60, 0x00, 0x02, 0, 0, 0, 0, 0, 0, 0, 1, 0xbe, 0xde];
    assert_eq!(parse_rtp(&v).unwrap_err(), BridgeError::MalformedPacket);
}
