//! Shared data model: speaker identities, PCM frames, error kinds, and the
//! per-tick decisions a jitter buffer hands to the codec adapter.
use vstd::prelude::*;

use crate::STEREO_20MS;

verus! {

/// Identity of one voice source.  Speakers on the two sides of the bridge
/// live in disjoint namespaces.
#[derive(Clone, Copy, Debug, PartialEq, Eq, Structural, Hash)]
pub enum SpeakerKey {
    /// A speaker on the Discord side, named by its RTP synchronization
    /// source identifier.
    Discord(u32),
    /// A speaker on the TS side, named by connection and client.
    Ts { connection_id: u64, client_id: u16 },
}

/// Error kinds of the audio plane.  No receive error stalls a send tick.
#[derive(Clone, Copy, Debug, PartialEq, Eq, Structural)]
pub enum BridgeError {
    /// A packet too short for its own header, an extension overrunning the
    /// packet, an empty payload, or a payload above the Opus bound.
    MalformedPacket,
    /// A client-to-server payload arrived on a receive path.
    UnexpectedDirection,
    /// The codec reported an internal failure, or a payload carried a codec
    /// this bridge does not transport.
    CodecError,
}

/// Errors of the bridge controller's `start`.
#[derive(Clone, Copy, Debug, PartialEq, Eq, Structural)]
pub enum StartError {
    /// The bridge is already running.
    AlreadyRunning,
    /// The voice driver refused to join.
    VoiceJoinFailed,
}

/// Exactly one 20 ms chunk of 48 kHz interleaved stereo samples.
#[derive(Clone, Debug)]
pub struct PcmFrame {
    samples: Vec<i16>,
}

impl PcmFrame {
    /// A frame is well formed when it holds exactly one tick of audio.
    pub open spec fn wf(&self) -> bool {
        self@.len() == STEREO_20MS
    }

    /// The frame as a sequence of samples.
    pub closed spec fn view(&self) -> Seq<i16> {
        self.samples@
    }

    /// An all-zero (silent) frame.
    pub fn silent() -> (r: PcmFrame)
        ensures
            r.wf(),
            forall|i: int| 0 <= i < STEREO_20MS ==> r@[i] == 0i16,
    {
        let mut samples: Vec<i16> = Vec::new();
        let mut i: usize = 0;
        while i < STEREO_20MS
            invariant
                i <= STEREO_20MS,
                samples@.len() == i,
                forall|j: int| 0 <= j < i ==> samples@[j] == 0i16,
            decreases STEREO_20MS - i,
        {
            samples.push(0i16);
            i = i + 1;
        }
        PcmFrame { samples }
    }

    /// Wraps a sample vector; refuses any length other than one tick.
    pub fn from_samples(samples: Vec<i16>) -> (r: Option<PcmFrame>)
        ensures
            samples@.len() == STEREO_20MS ==> (r is Some && r.unwrap().wf()
                && r.unwrap()@ == samples@),
            samples@.len() != STEREO_20MS ==> r is None,
    {
        if samples.len() == STEREO_20MS {
            Some(PcmFrame { samples })
        } else {
            None
        }
    }

    /// Number of samples held.
    pub fn len(&self) -> (r: usize)
        ensures
            r == self@.len(),
    {
        self.samples.len()
    }

    /// The sample at `i`.
    pub fn sample(&self, i: usize) -> (r: i16)
        requires
            i < self@.len(),
        ensures
            r == self@[i as int],
    {
        self.samples[i]
    }

    /// Read-only access to the underlying samples.
    pub fn as_slice(&self) -> (r: &[i16])
        ensures
            r@ == self@,
    {
        self.samples.as_slice()
    }
}

/// What a jitter buffer asks of the codec adapter on one tick.
pub enum PullStep {
    /// Decode this payload; it carries the stream's next sequence number.
    Frame { seq: u16, payload: Vec<u8> },
    /// Sequence `seq` was lost but a near successor is buffered: run the
    /// decoder's packet-loss concealment in its place.
    Conceal { seq: u16 },
    /// Emit silence.  When `reset_decoder` is set the decoder handle must be
    /// recreated before it is used again.
    Silence { reset_decoder: bool },
}

/// How a jitter buffer disposed of one pushed packet.
#[derive(Clone, Copy, Debug, PartialEq, Eq, Structural)]
pub enum PushOutcome {
    /// Stored (first packet of the stream, an in-window packet, or an
    /// overwritten duplicate).
    Inserted,
    /// Behind the playout position; dropped silently.
    Late,
    /// Out of the reorder window: buffered frames were dropped, the stream
    /// position moved, and the decoder handle must be recreated.
    Reset,
}

} // verus!
