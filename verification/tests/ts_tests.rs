use tsproto_packets::packets::{AudioData, CodecType, Direction, InAudioBuf, InPacket};
use voice_bridge::ts::{ts_voice_packet, TsInboundAudio, TsReceiver};
use voice_bridge::types::{BridgeError, PullStep, PushOutcome, SpeakerKey};
use voice_bridge::{GAIN_UNIT, MAX_OPUS_FRAME_SIZE};

/// Raw bytes of one server-to-client voice packet: 11-byte header (mac,
/// packet id, type byte = voice), then id, source client, codec and payload.
fn s2c_voice_bytes(id: u16, from: u16, payload: &[u8]) -> Vec<u8> {
    let mut v = vec![0u8; 8]; // mac
    v.extend_from_slice(&[0, 0]); // packet id
    v.push(0x00); // unencrypted flags off, packet type voice
    v.extend_from_slice(&id.to_be_bytes());
    v.extend_from_slice(&from.to_be_bytes());
    v.push(5); // Opus Music
    v.extend_from_slice(payload);
    v
}

/// Raw bytes of one client-to-server voice packet (13-byte header).
fn c2s_voice_bytes(id: u16, payload: &[u8]) -> Vec<u8> {
    let mut v = vec![0u8; 8]; // mac
    v.extend_from_slice(&[0, 0]); // packet id
    v.extend_from_slice(&[0, 0]); // client id
    v.push(0x00); // packet type voice
    v.extend_from_slice(&id.to_be_bytes());
    v.push(5); // Opus Music
    v.extend_from_slice(payload);
    v
}

#[test]
fn s2c_packet_is_routed_to_its_client() {
    let mut rx = TsReceiver::new(GAIN_UNIT);
    let buf = InAudioBuf::try_new(Direction::S2C, s2c_voice_bytes(100, 7, &[1, 2, 3])).unwrap();
    let (key, seq, outcome) = rx.handle_ts_packet(55, &buf).unwrap();
    assert_eq!(key, SpeakerKey::Ts { connection_id: 55, client_id: 7 });
    assert_eq!(seq, 100);
    assert_eq!(outcome, PushOutcome::Inserted);
    assert_eq!(rx.speaker_count(), 1);
}

#[test]
fn c2s_packet_is_the_wrong_direction() {
    let mut rx = TsReceiver::new(GAIN_UNIT);
    let buf = InAudioBuf::try_new(Direction::C2S, c2s_voice_bytes(1, &[1])).unwrap();
    assert_eq!(
        rx.handle_ts_packet(0, &buf).unwrap_err(),
        BridgeError::UnexpectedDirection
    );
    assert_eq!(rx.speaker_count(), 0);
}

#[test]
fn reduced_events_route_like_packets() {
    let mut rx = TsReceiver::new(GAIN_UNIT);
    let ev = TsInboundAudio::Voice { id: 9, from: 3, data: vec![0xee] };
    let (key, seq, _) = rx.handle_audio(1, ev).unwrap();
    assert_eq!(key, SpeakerKey::Ts { connection_id: 1, client_id: 3 });
    assert_eq!(seq, 9);
    let ev = TsInboundAudio::Whisper { id: 10, from: 3, data: vec![0xef] };
    rx.handle_audio(1, ev).unwrap();
    assert_eq!(
        rx.handle_audio(1, TsInboundAudio::Outbound).unwrap_err(),
        BridgeError::UnexpectedDirection
    );
    let empty = TsInboundAudio::Voice { id: 11, from: 3, data: vec![] };
    assert_eq!(rx.handle_audio(1, empty).unwrap_err(), BridgeError::MalformedPacket);
}

#[test]
fn ts_voice_frames_buffer_and_emit_in_order() {
    let mut rx = TsReceiver::new(GAIN_UNIT);
    for (id, byte) in [(100u16, 1u8), (101, 2), (102, 3)] {
        let buf = InAudioBuf::try_new(Direction::S2C, s2c_voice_bytes(id, 7, &[byte])).unwrap();
        rx.handle_ts_packet(0, &buf).unwrap();
    }
    let steps = rx.tick();
    assert_eq!(steps.len(), 1);
    match &steps[0].1 {
        PullStep::Frame { seq, payload } => {
            assert_eq!(*seq, 100);
            assert_eq!(payload, &vec![1]);
        }
        _ => panic!("expected the first frame"),
    }
}

#[test]
fn outbound_packet_framing_round_trips() {
    let encoded = vec![0x11, 0x22, 0x33];
    let packet = ts_voice_packet(&encoded).unwrap();
    // Parse the framed packet back with the transport's own parser.
    let parsed = InPacket::try_new(Direction::C2S, packet.data()).unwrap();
    let audio = parsed.into_audio().unwrap();
    match audio.data() {
        AudioData::C2S { id, codec, data } => {
            assert_eq!(*id, 0);
            assert_eq!(*codec, CodecType::OpusMusic);
            assert_eq!(*data, &encoded[..]);
        }
        other => panic!("unexpected audio data: {:?}", other),
    }
}

#[test]
fn encoder_failures_send_nothing() {
    assert_eq!(ts_voice_packet(&[]).unwrap_err(), BridgeError::CodecError);
    assert_eq!(
        ts_voice_packet(&vec![0; MAX_OPUS_FRAME_SIZE + 1]).unwrap_err(),
        BridgeError::CodecError
    );
    assert!(ts_voice_packet(&vec![0; MAX_OPUS_FRAME_SIZE]).is_ok());
}
