use voice_bridge::jitter::JitterBuffer;
use voice_bridge::types::{BridgeError, PullStep, PushOutcome};
use voice_bridge::{JB_GC_TICKS, JB_IDLE_TICKS, JB_MAX_DEPTH, MAX_OPUS_FRAME_SIZE};

fn frame_seq(step: PullStep) -> Option<u16> {
    match step {
        PullStep::Frame { seq, .. } => Some(seq),
        _ => None,
    }
}

fn is_silence(step: &PullStep) -> bool {
    matches!(step, PullStep::Silence { .. })
}

#[test]
fn ordered_steady_state() {
    let mut jb = JitterBuffer::new();
    for s in 100u16..103 {
        assert_eq!(jb.push(s, vec![s as u8]).unwrap(), PushOutcome::Inserted);
    }
    // Preroll satisfied (3 frames buffered): decode in order.
    for s in 100u16..103 {
        match jb.pull() {
            PullStep::Frame { seq, payload } => {
                assert_eq!(seq, s);
                assert_eq!(payload, vec![s as u8]);
            }
            _ => panic!("expected a frame"),
        }
    }
    // Steady state: keep feeding one packet per tick.
    for s in 103u16..120 {
        jb.push(s, vec![s as u8]).unwrap();
        assert_eq!(frame_seq(jb.pull()), Some(s));
    }
    // Nothing left: the next tick underflows to silence.
    assert!(is_silence(&jb.pull()));
}

#[test]
fn preroll_holds_back_emission() {
    let mut jb = JitterBuffer::new();
    jb.push(100, vec![1]).unwrap();
    assert!(is_silence(&jb.pull()));
    jb.push(101, vec![1]).unwrap();
    assert!(is_silence(&jb.pull()));
    jb.push(102, vec![1]).unwrap();
    assert_eq!(frame_seq(jb.pull()), Some(100));
}

#[test]
fn reordering_within_window() {
    let mut jb = JitterBuffer::new();
    for s in [100u16, 102, 101, 104, 103] {
        assert_eq!(jb.push(s, vec![s as u8]).unwrap(), PushOutcome::Inserted);
    }
    for s in 100u16..=104 {
        assert_eq!(frame_seq(jb.pull()), Some(s));
    }
}

#[test]
fn loss_is_concealed_once() {
    let mut jb = JitterBuffer::new();
    for s in [100u16, 102, 103] {
        jb.push(s, vec![s as u8]).unwrap();
    }
    assert_eq!(frame_seq(jb.pull()), Some(100));
    match jb.pull() {
        PullStep::Conceal { seq } => assert_eq!(seq, 101),
        _ => panic!("expected concealment for the lost frame"),
    }
    assert_eq!(frame_seq(jb.pull()), Some(102));
    assert_eq!(frame_seq(jb.pull()), Some(103));
}

#[test]
fn two_lost_frames_conceal_then_reset_decoder() {
    let mut jb = JitterBuffer::new();
    for s in [100u16, 103, 104] {
        jb.push(s, vec![1]).unwrap();
    }
    assert_eq!(frame_seq(jb.pull()), Some(100));
    assert!(matches!(jb.pull(), PullStep::Conceal { seq: 101 }));
    // A second consecutive concealment becomes silence with a decoder reset.
    assert!(matches!(jb.pull(), PullStep::Silence { reset_decoder: true }));
    assert_eq!(frame_seq(jb.pull()), Some(103));
    assert_eq!(frame_seq(jb.pull()), Some(104));
}

#[test]
fn far_jump_resets_the_stream() {
    let mut jb = JitterBuffer::new();
    jb.push(100, vec![1]).unwrap();
    jb.push(101, vec![1]).unwrap();
    jb.push(102, vec![1]).unwrap();
    assert_eq!(frame_seq(jb.pull()), Some(100));
    // Far outside the reorder window on both sides: hard reset.
    assert_eq!(jb.push(60000, vec![7]).unwrap(), PushOutcome::Reset);
    assert_eq!(jb.depth(), 1);
    // Prerolling again: silence until three frames accumulate.
    assert!(is_silence(&jb.pull()));
    jb.push(60001, vec![7]).unwrap();
    assert!(is_silence(&jb.pull()));
    jb.push(60002, vec![7]).unwrap();
    assert_eq!(frame_seq(jb.pull()), Some(60000));
}

#[test]
fn sequence_wrap_is_emitted_in_order() {
    let mut jb = JitterBuffer::new();
    jb.push(65534, vec![1]).unwrap();
    jb.push(65535, vec![2]).unwrap();
    jb.push(0, vec![3]).unwrap();
    jb.push(1, vec![4]).unwrap();
    assert_eq!(frame_seq(jb.pull()), Some(65534));
    assert_eq!(frame_seq(jb.pull()), Some(65535));
    assert_eq!(frame_seq(jb.pull()), Some(0));
    assert_eq!(frame_seq(jb.pull()), Some(1));
}

#[test]
fn overflow_drops_oldest_and_never_regresses() {
    let mut jb = JitterBuffer::new();
    for s in 100u16..100 + 1 + JB_MAX_DEPTH as u16 {
        assert_eq!(jb.push(s, vec![s as u8]).unwrap(), PushOutcome::Inserted);
    }
    // Eleven in-window packets, ten kept: the oldest (100) was dropped.
    assert_eq!(jb.depth(), JB_MAX_DEPTH);
    // The playout position did not move: the next pull still looks for 100,
    // finds 101 buffered right behind it, and conceals.
    assert!(matches!(jb.pull(), PullStep::Conceal { seq: 100 }));
    assert_eq!(frame_seq(jb.pull()), Some(101));
}

#[test]
fn duplicate_packet_overwrites() {
    let mut jb = JitterBuffer::new();
    jb.push(100, vec![1]).unwrap();
    jb.push(100, vec![2]).unwrap();
    jb.push(101, vec![1]).unwrap();
    jb.push(102, vec![1]).unwrap();
    match jb.pull() {
        PullStep::Frame { seq, payload } => {
            assert_eq!(seq, 100);
            assert_eq!(payload, vec![2]);
        }
        _ => panic!("expected a frame"),
    }
}

#[test]
fn late_packet_is_dropped() {
    let mut jb = JitterBuffer::new();
    for s in 100u16..103 {
        jb.push(s, vec![1]).unwrap();
    }
    assert_eq!(frame_seq(jb.pull()), Some(100));
    assert_eq!(jb.push(100, vec![9]).unwrap(), PushOutcome::Late);
    assert_eq!(jb.push(99, vec![9]).unwrap(), PushOutcome::Late);
    assert_eq!(frame_seq(jb.pull()), Some(101));
}

#[test]
fn untransportable_payloads_are_malformed() {
    let mut jb = JitterBuffer::new();
    assert_eq!(jb.push(1, vec![]).unwrap_err(), BridgeError::MalformedPacket);
    assert_eq!(
        jb.push(1, vec![0; MAX_OPUS_FRAME_SIZE + 1]).unwrap_err(),
        BridgeError::MalformedPacket
    );
    assert_eq!(jb.depth(), 0);
    assert_eq!(jb.push(1, vec![0; MAX_OPUS_FRAME_SIZE]).unwrap(), PushOutcome::Inserted);
}

#[test]
fn silence_marks_idle_then_expired() {
    let mut jb = JitterBuffer::new();
    jb.push(5, vec![1]).unwrap();
    for _ in 0..JB_IDLE_TICKS {
        jb.pull();
    }
    assert!(jb.is_idle());
    assert!(!jb.is_expired());
    for _ in JB_IDLE_TICKS..JB_GC_TICKS {
        jb.pull();
    }
    assert!(jb.is_expired());
    // New audio is activity: the buffer wakes up.
    jb.push(6, vec![1]).unwrap();
    assert!(!jb.is_idle());
}
