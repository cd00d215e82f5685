use voice_bridge::bridge::Bridge;
use voice_bridge::ts::TsInboundAudio;
use voice_bridge::types::{BridgeError, PcmFrame, PullStep, PushOutcome, SpeakerKey, StartError};
use voice_bridge::{FRAME_BYTES, GAIN_MAX, GAIN_UNIT, STEREO_20MS};

fn rtp(ssrc: u32, seq: u16, payload: &[u8]) -> Vec<u8> {
    let mut v = vec![0x80, 0x60];
    v.extend_from_slice(&seq.to_be_bytes());
    v.extend_from_slice(&[0, 0, 0, 0]);
    v.extend_from_slice(&ssrc.to_be_bytes());
    v.extend_from_slice(payload);
    v
}

#[test]
fn lifecycle_start_stop() {
    let mut b = Bridge::new(GAIN_UNIT);
    assert!(!b.is_running());
    assert_eq!(b.start(false).unwrap_err(), StartError::VoiceJoinFailed);
    assert!(!b.is_running());
    b.start(true).unwrap();
    assert!(b.is_running());
    assert_eq!(b.start(true).unwrap_err(), StartError::AlreadyRunning);
    b.stop();
    assert!(!b.is_running());
    b.stop();
    assert!(!b.is_running());
    b.start(true).unwrap();
    assert!(b.is_running());
}

#[test]
fn reset_twice_equals_reset_once() {
    let mut b = Bridge::new(700);
    b.start(true).unwrap();
    b.handle_discord_rtp(&rtp(1, 100, &[1])).unwrap();
    b.handle_discord_rtp(&rtp(2, 200, &[2])).unwrap();
    b.ring_write(&vec![9u8; FRAME_BYTES]);
    b.reset();
    let once = (
        b.discord_speaker_count(),
        b.ts_speaker_count(),
        b.ring_len(),
        b.get_volume(),
        b.is_running(),
    );
    b.reset();
    let twice = (
        b.discord_speaker_count(),
        b.ts_speaker_count(),
        b.ring_len(),
        b.get_volume(),
        b.is_running(),
    );
    assert_eq!(once, (0, 0, 0, 700, true));
    assert_eq!(once, twice);
}

#[test]
fn set_volume_clamps_and_is_idempotent() {
    let mut b = Bridge::new(GAIN_UNIT);
    b.set_volume(5000);
    assert_eq!(b.get_volume(), GAIN_MAX);
    b.set_volume(5000);
    assert_eq!(b.get_volume(), GAIN_MAX);
    b.set_volume(300);
    assert_eq!(b.get_volume(), 300);
}

#[test]
fn volume_scales_a_single_speaker_mix() {
    let mut b = Bridge::new(GAIN_UNIT);
    let frame = PcmFrame::from_samples(vec![1000; STEREO_20MS]).unwrap();
    b.set_volume(512);
    let out = b.mix_to_discord(&vec![frame.clone()]);
    assert_eq!(out.sample(0), 500);
    b.set_volume(512);
    let out = b.mix_to_discord(&vec![frame]);
    assert_eq!(out.sample(0), 500);
}

#[test]
fn rtp_ingress_feeds_the_ts_bound_tick() {
    let mut b = Bridge::new(GAIN_UNIT);
    b.start(true).unwrap();
    let (key, seq, outcome) = b.handle_discord_rtp(&rtp(42, 100, &[0xaa])).unwrap();
    assert_eq!(key, SpeakerKey::Discord(42));
    assert_eq!(seq, 100);
    assert_eq!(outcome, PushOutcome::Inserted);
    // Still prerolling: the tick yields silence for this speaker.
    let steps = b.ts_bound_tick();
    assert_eq!(steps.len(), 1);
    assert!(matches!(steps[0].1, PullStep::Silence { .. }));
    b.handle_discord_rtp(&rtp(42, 101, &[0xbb])).unwrap();
    b.handle_discord_rtp(&rtp(42, 102, &[0xcc])).unwrap();
    let steps = b.ts_bound_tick();
    assert_eq!(steps.len(), 1);
    assert_eq!(steps[0].0, SpeakerKey::Discord(42));
    match &steps[0].1 {
        PullStep::Frame { seq, payload } => {
            assert_eq!(*seq, 100);
            assert_eq!(payload, &vec![0xaa]);
        }
        _ => panic!("expected the first frame"),
    }
}

#[test]
fn malformed_rtp_changes_nothing() {
    let mut b = Bridge::new(GAIN_UNIT);
    assert_eq!(
        b.handle_discord_rtp(&[0x80, 0, 0, 1]).unwrap_err(),
        BridgeError::MalformedPacket
    );
    assert_eq!(b.discord_speaker_count(), 0);
}

#[test]
fn disconnect_removes_the_speaker() {
    let mut b = Bridge::new(GAIN_UNIT);
    b.handle_discord_rtp(&rtp(7, 1, &[1])).unwrap();
    b.handle_discord_rtp(&rtp(8, 1, &[1])).unwrap();
    assert_eq!(b.discord_speaker_count(), 2);
    b.remove_discord_ssrc(7);
    assert_eq!(b.discord_speaker_count(), 1);
    let steps = b.ts_bound_tick();
    assert_eq!(steps.len(), 1);
    assert_eq!(steps[0].0, SpeakerKey::Discord(8));
}

#[test]
fn ring_path_pads_and_drains() {
    let mut b = Bridge::new(GAIN_UNIT);
    let out = b.ring_read(FRAME_BYTES);
    assert_eq!(out.len(), FRAME_BYTES);
    assert!(out.iter().all(|&x| x == 0));
    b.ring_write(&vec![5u8; FRAME_BYTES]);
    assert_eq!(b.ring_len(), FRAME_BYTES);
    let out = b.ring_read(16);
    assert_eq!(out, vec![5u8; 16]);
    assert_eq!(b.ring_len(), FRAME_BYTES - 16);
}

#[test]
fn silent_speakers_are_collected_after_the_threshold() {
    let mut b = Bridge::new(GAIN_UNIT);
    b.handle_discord_rtp(&rtp(1, 100, &[1])).unwrap();
    b.handle_discord_rtp(&rtp(2, 100, &[1])).unwrap();
    assert_eq!(b.discord_speaker_count(), 2);
    // Keep one speaker alive for a while, then let both fall silent.
    for tick in 0..voice_bridge::JB_GC_TICKS {
        if tick < 600 {
            b.handle_discord_rtp(&rtp(1, 101u16.wrapping_add(tick as u16), &[1])).unwrap();
        }
        b.ts_bound_tick();
    }
    // Speaker 2 has been silent for the whole window, speaker 1 has not.
    b.collect_expired();
    assert_eq!(b.discord_speaker_count(), 1);
    let steps = b.ts_bound_tick();
    assert_eq!(steps.len(), 1);
    assert_eq!(steps[0].0, SpeakerKey::Discord(1));
}

#[test]
fn removing_one_ts_client_keeps_the_others() {
    let mut b = Bridge::new(GAIN_UNIT);
    for client in [3u16, 4, 5] {
        b.handle_ts_audio(9, TsInboundAudio::Voice { id: 1, from: client, data: vec![1] })
            .unwrap();
    }
    assert_eq!(b.ts_speaker_count(), 3);
    b.remove_ts_client(9, 4);
    assert_eq!(b.ts_speaker_count(), 2);
    let steps = b.discord_bound_tick();
    let keys: Vec<_> = steps.iter().map(|(k, _)| *k).collect();
    assert!(keys.contains(&SpeakerKey::Ts { connection_id: 9, client_id: 3 }));
    assert!(keys.contains(&SpeakerKey::Ts { connection_id: 9, client_id: 5 }));
}
