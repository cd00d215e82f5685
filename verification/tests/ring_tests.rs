use voice_bridge::ring::CrossRing;
use voice_bridge::{FRAME_BYTES, RING_CAP};

#[test]
fn empty_pull_returns_zeroes_never_eof() {
    let mut ring = CrossRing::new();
    let out = ring.read_exact(FRAME_BYTES);
    assert_eq!(out.len(), FRAME_BYTES);
    assert!(out.iter().all(|&b| b == 0));
    // A later pull after one frame arrived returns the real bytes.
    ring.push_frame(&vec![7u8; FRAME_BYTES]);
    let out = ring.read_exact(FRAME_BYTES);
    assert_eq!(out.len(), FRAME_BYTES);
    assert!(out.iter().all(|&b| b == 7));
}

#[test]
fn every_pull_returns_exactly_the_requested_length() {
    let mut ring = CrossRing::new();
    ring.push_frame(&vec![3u8; FRAME_BYTES]);
    for n in [0usize, 1, 3, FRAME_BYTES - 1, FRAME_BYTES, FRAME_BYTES + 13] {
        let out = ring.read_exact(n);
        assert_eq!(out.len(), n);
    }
}

#[test]
fn partial_reads_drain_in_order_and_pad_with_silence() {
    let mut ring = CrossRing::new();
    let mut frame = vec![0u8; FRAME_BYTES];
    for (i, b) in frame.iter_mut().enumerate() {
        *b = (i % 251) as u8;
    }
    ring.push_frame(&frame);
    let first = ring.read_exact(5);
    assert_eq!(first, frame[..5].to_vec());
    let rest = ring.read_exact(FRAME_BYTES);
    assert_eq!(&rest[..FRAME_BYTES - 5], &frame[5..]);
    assert!(rest[FRAME_BYTES - 5..].iter().all(|&b| b == 0));
    assert_eq!(ring.len(), 0);
}

#[test]
fn overflow_drops_whole_frames_from_the_head() {
    let mut ring = CrossRing::new();
    let frames_in_cap = RING_CAP / FRAME_BYTES;
    for i in 0..frames_in_cap + 2 {
        ring.push_frame(&vec![(i % 200) as u8; FRAME_BYTES]);
        assert!(ring.len() <= RING_CAP);
    }
    assert_eq!(ring.len(), RING_CAP);
    // The two oldest frames are gone: the head now belongs to frame 2.
    let head = ring.read_exact(1);
    assert_eq!(head[0], 2);
}

#[test]
fn clear_empties_the_ring() {
    let mut ring = CrossRing::new();
    ring.push_frame(&vec![1u8; FRAME_BYTES]);
    ring.clear();
    assert_eq!(ring.len(), 0);
    let out = ring.read_exact(4);
    assert_eq!(out, vec![0, 0, 0, 0]);
}
