//! Discord-side receive pipeline: accepts raw RTP packets from the voice
//! driver, demultiplexes them, and routes each payload to the jitter buffer
//! of its synchronization source.  The same state later serves the TS-bound
//! ticks: one pull step per speaker, mixed at this side's gain.
use vstd::prelude::*;

use crate::{GAIN_UNIT, MAX_OPUS_FRAME_SIZE, STEREO_20MS};
use crate::jitter::jb_pull_post;
use crate::mixer::{frame_views, mix, mixed_sample, sm_has, sm_jb, sm_push_post, sm_wf,
    SideMixerState, SmView};
use crate::rtp::{parse_rtp, rtp_payload_offset, rtp_valid, u16_be, u32_be};
use crate::types::{BridgeError, PcmFrame, PullStep, PushOutcome, SpeakerKey};

verus! {

/// The receive side of the Discord voice driver, feeding the TS-bound mix.
pub struct Receiver {
    state: SideMixerState,
}

impl View for Receiver {
    type V = SmView;

    closed spec fn view(&self) -> SmView {
        self.state@
    }
}

/// The payload a valid RTP packet carries.
pub open spec fn rtp_payload(bytes: Seq<u8>) -> Seq<u8> {
    bytes.subrange(rtp_payload_offset(bytes), bytes.len() as int)
}

impl Receiver {
    /// A receiver with no speakers.  The TS-bound mix runs at unity gain;
    /// the operator volume applies to the opposite direction only.
    pub fn new() -> (r: Receiver)
        ensures
            sm_wf(r@),
            r@.lanes.len() == 0,
            r@.gain == GAIN_UNIT,
    {
        Receiver { state: SideMixerState::new(GAIN_UNIT) }
    }

    /// Handles one raw RTP packet: parses it and pushes the payload into
    /// the jitter buffer of `SpeakerKey::Discord(ssrc)`, creating the lane
    /// on first contact.  Malformed packets (including payloads above the
    /// Opus bound) are rejected without any side effect.
    pub fn handle_rtp(&mut self, bytes: &[u8]) -> (r: Result<(SpeakerKey, u16, PushOutcome),
        BridgeError>)
        requires
            sm_wf(old(self)@),
        ensures
            sm_wf(final(self)@),
            final(self)@.gain == old(self)@.gain,
            r is Ok <==> (rtp_valid(bytes@) && rtp_payload(bytes@).len() <= MAX_OPUS_FRAME_SIZE),
            r is Err ==> final(self)@ == old(self)@
                && r == Err::<(SpeakerKey, u16, PushOutcome), BridgeError>(
                    BridgeError::MalformedPacket),
            r matches Ok((key, seq, o)) ==> {
                &&& key == SpeakerKey::Discord(u32_be(bytes@, 8) as u32)
                &&& seq == u16_be(bytes@, 2)
                &&& sm_push_post(old(self)@, final(self)@, key, seq, rtp_payload(bytes@), o)
            },
    {
        let packet = match parse_rtp(bytes) {
            Ok(p) => p,
            Err(e) => {
                return Err(e);
            },
        };
        let key = SpeakerKey::Discord(packet.ssrc);
        match self.state.push_packet(key, packet.sequence, packet.payload) {
            Ok(o) => Ok((key, packet.sequence, o)),
            Err(e) => Err(e),
        }
    }

    /// Drops the lane of one synchronization source (the driver reported
    /// the client gone, or its speaking state ended).
    pub fn remove_ssrc(&mut self, ssrc: u32)
        requires
            sm_wf(old(self)@),
        ensures
            sm_wf(final(self)@),
            final(self)@.gain == old(self)@.gain,
            !sm_has(final(self)@, SpeakerKey::Discord(ssrc)),
            forall|k2: SpeakerKey| k2 != SpeakerKey::Discord(ssrc)
                ==> (#[trigger] sm_has(final(self)@, k2) <==> sm_has(old(self)@, k2)),
            forall|k2: SpeakerKey| k2 != SpeakerKey::Discord(ssrc)
                && #[trigger] sm_has(old(self)@, k2)
                ==> sm_jb(final(self)@, k2) == sm_jb(old(self)@, k2),
    {
        self.state.remove_speaker(SpeakerKey::Discord(ssrc));
    }

    /// One TS-bound tick: every speaker's jitter buffer decides its step.
    pub fn tick(&mut self) -> (steps: Vec<(SpeakerKey, PullStep)>)
        requires
            sm_wf(old(self)@),
        ensures
            sm_wf(final(self)@),
            final(self)@.gain == old(self)@.gain,
            final(self)@.lanes.len() == old(self)@.lanes.len(),
            steps@.len() == old(self)@.lanes.len(),
            forall|i: int| 0 <= i < old(self)@.lanes.len() ==> {
                &&& (#[trigger] final(self)@.lanes[i]).key == old(self)@.lanes[i].key
                &&& steps@[i].0 == old(self)@.lanes[i].key
                &&& jb_pull_post(old(self)@.lanes[i].jb, final(self)@.lanes[i].jb, steps@[i].1)
            },
    {
        self.state.tick()
    }

    /// Removes speakers that have been silent for the removal threshold.
    pub fn collect_expired(&mut self)
        requires
            sm_wf(old(self)@),
        ensures
            sm_wf(final(self)@),
            final(self)@.gain == old(self)@.gain,
            forall|k2: SpeakerKey| #[trigger] sm_has(final(self)@, k2)
                ==> sm_has(old(self)@, k2)
                    && sm_jb(final(self)@, k2) == sm_jb(old(self)@, k2)
                    && sm_jb(old(self)@, k2).silent_run < crate::JB_GC_TICKS,
            forall|k2: SpeakerKey| sm_has(old(self)@, k2)
                && (#[trigger] sm_jb(old(self)@, k2)).silent_run < crate::JB_GC_TICKS
                ==> sm_has(final(self)@, k2),
    {
        self.state.collect_expired()
    }

    /// Drops every speaker (bridge stop or reset).
    pub fn clear_speakers(&mut self)
        requires
            sm_wf(old(self)@),
        ensures
            final(self)@.lanes.len() == 0,
            final(self)@.gain == old(self)@.gain,
            sm_wf(final(self)@),
    {
        self.state.clear_speakers()
    }

    /// Number of speakers currently tracked.
    pub fn speaker_count(&self) -> (n: usize)
        ensures
            n == self@.lanes.len(),
    {
        self.state.speaker_count()
    }

    /// Mixes the decoded frames of one tick at this side's gain.
    pub fn mix_tick(&self, frames: &Vec<PcmFrame>) -> (out: PcmFrame)
        requires
            sm_wf(self@),
            forall|i: int| 0 <= i < frames@.len() ==> (#[trigger] frames@[i]).wf(),
        ensures
            out.wf(),
            forall|k: int| 0 <= k < STEREO_20MS
                ==> out@[k] == mixed_sample(frame_views(frames@), self@.gain as int, k),
    {
        mix(frames, self.state.gain())
    }
}

} // verus!
