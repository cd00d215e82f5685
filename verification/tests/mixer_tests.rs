use voice_bridge::mixer::{mix, SideMixerState};
use voice_bridge::types::{PcmFrame, PushOutcome, SpeakerKey};
use voice_bridge::{GAIN_MAX, GAIN_UNIT, SAMPLE_MAX, SAMPLE_MIN, STEREO_20MS};

fn constant_frame(v: i16) -> PcmFrame {
    PcmFrame::from_samples(vec![v; STEREO_20MS]).unwrap()
}

#[test]
fn frame_constructor_enforces_the_tick_length() {
    assert!(PcmFrame::from_samples(vec![0; STEREO_20MS]).is_some());
    assert!(PcmFrame::from_samples(vec![0; STEREO_20MS - 1]).is_none());
    assert!(PcmFrame::from_samples(vec![0; STEREO_20MS + 1]).is_none());
    assert_eq!(PcmFrame::silent().len(), STEREO_20MS);
}

#[test]
fn empty_mix_is_silence() {
    let out = mix(&Vec::new(), GAIN_UNIT);
    assert_eq!(out.len(), STEREO_20MS);
    for i in 0..STEREO_20MS {
        assert_eq!(out.sample(i), 0);
    }
}

#[test]
fn unity_gain_passes_a_single_speaker_through() {
    let out = mix(&vec![constant_frame(1234)], GAIN_UNIT);
    for i in 0..STEREO_20MS {
        assert_eq!(out.sample(i), 1234);
    }
}

#[test]
fn two_full_scale_speakers_clip() {
    let frames = vec![constant_frame(SAMPLE_MAX), constant_frame(SAMPLE_MAX)];
    let out = mix(&frames, GAIN_UNIT);
    for i in 0..STEREO_20MS {
        assert_eq!(out.sample(i), SAMPLE_MAX);
    }
    let frames = vec![constant_frame(SAMPLE_MIN), constant_frame(SAMPLE_MIN)];
    let out = mix(&frames, GAIN_UNIT);
    for i in 0..STEREO_20MS {
        assert_eq!(out.sample(i), SAMPLE_MIN);
    }
}

#[test]
fn gain_scales_linearly_below_the_clip_point() {
    let out = mix(&vec![constant_frame(1000)], GAIN_UNIT / 2);
    assert_eq!(out.sample(0), 500);
    let out = mix(&vec![constant_frame(1000)], GAIN_MAX);
    assert_eq!(out.sample(0), 2000);
    let out = mix(&vec![constant_frame(-1000)], GAIN_UNIT / 2);
    assert_eq!(out.sample(0), -500);
    let out = mix(&vec![constant_frame(1000)], 0);
    assert_eq!(out.sample(0), 0);
}

#[test]
fn gain_rounds_toward_zero() {
    let out = mix(&vec![constant_frame(3)], GAIN_UNIT / 2);
    assert_eq!(out.sample(0), 1);
    let out = mix(&vec![constant_frame(-3)], GAIN_UNIT / 2);
    assert_eq!(out.sample(0), -1);
}

#[test]
fn mixing_sums_speakers() {
    let frames = vec![constant_frame(100), constant_frame(-30), constant_frame(7)];
    let out = mix(&frames, GAIN_UNIT);
    assert_eq!(out.sample(0), 77);
}

#[test]
fn side_state_clamps_its_gain() {
    let sm = SideMixerState::new(1_000_000);
    assert_eq!(sm.gain(), GAIN_MAX);
    let mut sm = SideMixerState::new(100);
    assert_eq!(sm.gain(), 100);
    sm.set_gain(5000);
    assert_eq!(sm.gain(), GAIN_MAX);
}

#[test]
fn side_state_tracks_speakers_and_expires_them() {
    let mut sm = SideMixerState::new(GAIN_UNIT);
    let a = SpeakerKey::Discord(1);
    let b = SpeakerKey::Ts { connection_id: 0, client_id: 9 };
    assert_eq!(sm.push_packet(a, 10, vec![1]).unwrap(), PushOutcome::Inserted);
    assert_eq!(sm.push_packet(b, 20, vec![2]).unwrap(), PushOutcome::Inserted);
    assert_eq!(sm.push_packet(a, 11, vec![3]).unwrap(), PushOutcome::Inserted);
    assert_eq!(sm.speaker_count(), 2);
    sm.remove_speaker(a);
    assert_eq!(sm.speaker_count(), 1);
    // Let the remaining speaker expire and collect it.
    for _ in 0..voice_bridge::JB_GC_TICKS {
        sm.tick();
    }
    sm.collect_expired();
    assert_eq!(sm.speaker_count(), 0);
}
