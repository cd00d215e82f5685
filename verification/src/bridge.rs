//! Bridge controller: owns the two receive pipelines, the cross-side ring
//! and the lifecycle flag; exposes start, stop, volume and reset, and the
//! per-tick entry points the two send clocks drive.
//!
//! Locking and clocks live outside the library: the caller wraps the bridge
//! (or its parts) in whatever locks its runtime needs and calls one
//! operation per critical section.
use vstd::prelude::*;

use crate::{FRAME_BYTES, GAIN_UNIT, JB_MAX_DEPTH, MAX_OPUS_FRAME_SIZE, RING_CAP, STEREO_20MS};
use crate::jitter::{jb_pull_post, jb_wf, payload_ok};
use crate::mixer::{clamp_gain, frame_views, mixed_sample, sm_has, sm_jb, sm_push_post, sm_wf,
    SmView};
use crate::receiver::{rtp_payload, Receiver};
use crate::ring::{ring_after_push, ring_wf, CrossRing};
use crate::rtp::{rtp_valid, u16_be, u32_be};
use crate::ts::{TsInboundAudio, TsReceiver};
use crate::types::{BridgeError, PcmFrame, PullStep, PushOutcome, SpeakerKey, StartError};

verus! {

/// The per-session bridge.
pub struct Bridge {
    discord_rx: Receiver,
    ts_rx: TsReceiver,
    ring: CrossRing,
    running: bool,
}

/// Mathematical image of a bridge: the two sides, the ring contents, and
/// whether the bridge runs.
pub ghost struct BridgeView {
    /// Discord speakers, mixed toward TS.
    pub discord: SmView,
    /// TS speakers, mixed toward Discord at the operator volume.
    pub ts: SmView,
    /// Bytes queued toward the voice driver.
    pub ring: Seq<u8>,
    /// Whether the bridge is started.
    pub running: bool,
}

impl View for Bridge {
    type V = BridgeView;

    closed spec fn view(&self) -> BridgeView {
        BridgeView {
            discord: self.discord_rx@,
            ts: self.ts_rx@,
            ring: self.ring@,
            running: self.running,
        }
    }
}

/// Well-formedness of the whole bridge.
pub open spec fn bridge_wf(v: BridgeView) -> bool {
    &&& sm_wf(v.discord)
    &&& sm_wf(v.ts)
    &&& ring_wf(v.ring)
}

/// The state after `reset`: both sides forget their speakers, the ring is
/// drained; volumes and the lifecycle flag stay.
pub open spec fn bridge_reset_spec(v: BridgeView) -> BridgeView {
    BridgeView {
        discord: SmView { lanes: Seq::empty(), gain: v.discord.gain },
        ts: SmView { lanes: Seq::empty(), gain: v.ts.gain },
        ring: Seq::empty(),
        running: v.running,
    }
}

/// The state after `stop`: a reset bridge that no longer runs.
pub open spec fn bridge_stopped_spec(v: BridgeView) -> BridgeView {
    BridgeView { running: false, ..bridge_reset_spec(v) }
}

/// The state after `set_volume`: only the Discord-bound gain moves, clamped.
pub open spec fn bridge_set_volume_spec(v: BridgeView, g: u32) -> BridgeView {
    BridgeView { ts: SmView { gain: clamp_gain(g), lanes: v.ts.lanes }, ..v }
}

/// Resetting twice leaves exactly the state of resetting once.
pub proof fn lemma_reset_idempotent(v: BridgeView)
    ensures
        bridge_reset_spec(bridge_reset_spec(v)) == bridge_reset_spec(v),
{
}

/// Stopping twice leaves exactly the state of stopping once.
pub proof fn lemma_stop_idempotent(v: BridgeView)
    ensures
        bridge_stopped_spec(bridge_stopped_spec(v)) == bridge_stopped_spec(v),
{
}

/// Setting the volume twice to the same value leaves exactly the state of
/// setting it once.
pub proof fn lemma_set_volume_idempotent(v: BridgeView, g: u32)
    ensures
        bridge_set_volume_spec(bridge_set_volume_spec(v, g), g) == bridge_set_volume_spec(v, g),
{
}

/// Bounded residency: a well-formed bridge holds at most the ring capacity
/// in the ring and, per speaker of either side, at most `JB_MAX_DEPTH`
/// buffered payloads of at most `MAX_OPUS_FRAME_SIZE` bytes each.
pub proof fn lemma_bounded_memory(v: BridgeView)
    requires
        bridge_wf(v),
    ensures
        v.ring.len() <= RING_CAP,
        forall|i: int| 0 <= i < v.discord.lanes.len()
            ==> (#[trigger] v.discord.lanes[i]).jb.entries.len() <= JB_MAX_DEPTH,
        forall|i: int| 0 <= i < v.ts.lanes.len()
            ==> (#[trigger] v.ts.lanes[i]).jb.entries.len() <= JB_MAX_DEPTH,
        forall|i: int, j: int| 0 <= i < v.discord.lanes.len()
            && 0 <= j < v.discord.lanes[i].jb.entries.len()
            ==> (#[trigger] v.discord.lanes[i].jb.entries[j]).payload.len()
                <= MAX_OPUS_FRAME_SIZE,
        forall|i: int, j: int| 0 <= i < v.ts.lanes.len()
            && 0 <= j < v.ts.lanes[i].jb.entries.len()
            ==> (#[trigger] v.ts.lanes[i].jb.entries[j]).payload.len() <= MAX_OPUS_FRAME_SIZE,
{
    assert forall|i: int, j: int| 0 <= i < v.discord.lanes.len()
        && 0 <= j < v.discord.lanes[i].jb.entries.len() implies
        (#[trigger] v.discord.lanes[i].jb.entries[j]).payload.len() <= MAX_OPUS_FRAME_SIZE by {
        assert(jb_wf(v.discord.lanes[i].jb));
        assert(payload_ok(v.discord.lanes[i].jb.entries[j].payload));
    }
    assert forall|i: int, j: int| 0 <= i < v.ts.lanes.len()
        && 0 <= j < v.ts.lanes[i].jb.entries.len() implies
        (#[trigger] v.ts.lanes[i].jb.entries[j]).payload.len() <= MAX_OPUS_FRAME_SIZE by {
        assert(jb_wf(v.ts.lanes[i].jb));
        assert(payload_ok(v.ts.lanes[i].jb.entries[j].payload));
    }
}

impl Bridge {
    /// A stopped bridge with no speakers, an empty ring, unity gain toward
    /// TS, and the given operator volume (clamped) toward Discord.
    pub fn new(volume: u32) -> (r: Bridge)
        ensures
            bridge_wf(r@),
            !r@.running,
            r@.discord.lanes.len() == 0,
            r@.ts.lanes.len() == 0,
            r@.ring.len() == 0,
            r@.discord.gain == GAIN_UNIT,
            r@.ts.gain == clamp_gain(volume),
    {
        Bridge {
            discord_rx: Receiver::new(),
            ts_rx: TsReceiver::new(volume),
            ring: CrossRing::new(),
            running: false,
        }
    }

    /// Whether the bridge currently runs.
    pub fn is_running(&self) -> (r: bool)
        ensures
            r == self@.running,
    {
        self.running
    }

    /// Starts the bridge once the voice driver reported its join outcome:
    /// refuses to start twice, propagates a failed join, and otherwise
    /// begins from a clean slate.
    pub fn start(&mut self, voice_join_ok: bool) -> (r: Result<(), StartError>)
        requires
            bridge_wf(old(self)@),
        ensures
            bridge_wf(final(self)@),
            old(self)@.running ==> r == Err::<(), StartError>(StartError::AlreadyRunning)
                && final(self)@ == old(self)@,
            !old(self)@.running && !voice_join_ok
                ==> r == Err::<(), StartError>(StartError::VoiceJoinFailed)
                    && final(self)@ == old(self)@,
            !old(self)@.running && voice_join_ok ==> r is Ok
                && final(self)@ == (BridgeView { running: true, ..bridge_reset_spec(old(self)@) }),
    {
        if self.running {
            return Err(StartError::AlreadyRunning);
        }
        if !voice_join_ok {
            return Err(StartError::VoiceJoinFailed);
        }
        self.reset();
        self.running = true;
        Ok(())
    }

    /// Stops the bridge: idempotent; drops all jitter buffers on both
    /// sides and drains the ring.
    pub fn stop(&mut self)
        requires
            bridge_wf(old(self)@),
        ensures
            bridge_wf(final(self)@),
            final(self)@ == bridge_stopped_spec(old(self)@),
    {
        self.reset();
        self.running = false;
    }

    /// Clears all jitter buffers on both sides and empties the ring, for
    /// audio that got stuck after long silence.  Volumes and the lifecycle
    /// flag stay.
    pub fn reset(&mut self)
        requires
            bridge_wf(old(self)@),
        ensures
            bridge_wf(final(self)@),
            final(self)@ == bridge_reset_spec(old(self)@),
    {
        self.discord_rx.clear_speakers();
        self.ts_rx.clear_speakers();
        self.ring.clear();
        proof {
            assert(self@.discord.lanes =~= Seq::<crate::mixer::LaneView>::empty());
            assert(self@.ts.lanes =~= Seq::<crate::mixer::LaneView>::empty());
        }
    }

    /// Sets the operator volume, clamped; it scales the Discord-bound mix
    /// only.
    pub fn set_volume(&mut self, v: u32)
        ensures
            final(self)@ == bridge_set_volume_spec(old(self)@, v),
    {
        self.ts_rx.set_gain(v);
    }

    /// The operator volume currently applied.
    pub fn get_volume(&self) -> (g: u32)
        ensures
            g == self@.ts.gain,
    {
        self.ts_rx.gain()
    }

    /// Routes one raw RTP packet from the voice driver into the jitter
    /// buffer of its synchronization source.
    pub fn handle_discord_rtp(&mut self, bytes: &[u8]) -> (r: Result<(SpeakerKey, u16,
        PushOutcome), BridgeError>)
        requires
            bridge_wf(old(self)@),
        ensures
            bridge_wf(final(self)@),
            final(self)@.ts == old(self)@.ts,
            final(self)@.ring == old(self)@.ring,
            final(self)@.running == old(self)@.running,
            final(self)@.discord.gain == old(self)@.discord.gain,
            r is Ok <==> (rtp_valid(bytes@) && rtp_payload(bytes@).len() <= MAX_OPUS_FRAME_SIZE),
            r is Err ==> final(self)@ == old(self)@
                && r == Err::<(SpeakerKey, u16, PushOutcome), BridgeError>(
                    BridgeError::MalformedPacket),
            r matches Ok((key, seq, o)) ==> {
                &&& key == SpeakerKey::Discord(u32_be(bytes@, 8) as u32)
                &&& seq == u16_be(bytes@, 2)
                &&& sm_push_post(old(self)@.discord, final(self)@.discord, key, seq,
                    rtp_payload(bytes@), o)
            },
    {
        self.discord_rx.handle_rtp(bytes)
    }

    /// Drops one Discord speaker (client disconnect or end of speaking).
    pub fn remove_discord_ssrc(&mut self, ssrc: u32)
        requires
            bridge_wf(old(self)@),
        ensures
            bridge_wf(final(self)@),
            final(self)@.ts == old(self)@.ts,
            final(self)@.ring == old(self)@.ring,
            final(self)@.running == old(self)@.running,
            final(self)@.discord.gain == old(self)@.discord.gain,
            !sm_has(final(self)@.discord, SpeakerKey::Discord(ssrc)),
            forall|k2: SpeakerKey| k2 != SpeakerKey::Discord(ssrc)
                ==> (#[trigger] sm_has(final(self)@.discord, k2)
                    <==> sm_has(old(self)@.discord, k2)),
            forall|k2: SpeakerKey| k2 != SpeakerKey::Discord(ssrc)
                && #[trigger] sm_has(old(self)@.discord, k2)
                ==> sm_jb(final(self)@.discord, k2) == sm_jb(old(self)@.discord, k2),
    {
        self.discord_rx.remove_ssrc(ssrc)
    }

    /// Routes one reduced TS audio event into the jitter buffer of its
    /// sending client.
    pub fn handle_ts_audio(&mut self, connection_id: u64, ev: TsInboundAudio)
        -> (r: Result<(SpeakerKey, u16, PushOutcome), BridgeError>)
        requires
            bridge_wf(old(self)@),
        ensures
            bridge_wf(final(self)@),
            final(self)@.discord == old(self)@.discord,
            final(self)@.ring == old(self)@.ring,
            final(self)@.running == old(self)@.running,
            final(self)@.ts.gain == old(self)@.ts.gain,
            r is Err ==> final(self)@ == old(self)@,
            match ev {
                TsInboundAudio::Voice { id, from, data } => {
                    &&& (r is Ok <==> payload_ok(data@))
                    &&& (r matches Ok((key, seq, o)) ==> {
                        &&& key == SpeakerKey::Ts { connection_id, client_id: from }
                        &&& seq == id
                        &&& sm_push_post(old(self)@.ts, final(self)@.ts, key, seq, data@, o)
                    })
                },
                TsInboundAudio::Whisper { id, from, data } => {
                    &&& (r is Ok <==> payload_ok(data@))
                    &&& (r matches Ok((key, seq, o)) ==> {
                        &&& key == SpeakerKey::Ts { connection_id, client_id: from }
                        &&& seq == id
                        &&& sm_push_post(old(self)@.ts, final(self)@.ts, key, seq, data@, o)
                    })
                },
                TsInboundAudio::Outbound => r == Err::<(SpeakerKey, u16, PushOutcome),
                    BridgeError>(BridgeError::UnexpectedDirection),
            },
    {
        self.ts_rx.handle_audio(connection_id, ev)
    }

    /// Handles one framed TS audio packet: reduces it and routes it.
    pub fn handle_ts_packet(&mut self, connection_id: u64,
        packet: &tsproto_packets::packets::InAudioBuf)
        -> (r: Result<(SpeakerKey, u16, PushOutcome), BridgeError>)
        requires
            bridge_wf(old(self)@),
        ensures
            bridge_wf(final(self)@),
            final(self)@.discord == old(self)@.discord,
            final(self)@.ring == old(self)@.ring,
            final(self)@.running == old(self)@.running,
            final(self)@.ts.gain == old(self)@.ts.gain,
            r is Err ==> final(self)@ == old(self)@,
            r matches Err(e) ==> (e == BridgeError::UnexpectedDirection
                || e == BridgeError::MalformedPacket),
            r matches Ok((key, seq, o)) ==> {
                &&& key matches SpeakerKey::Ts { connection_id: cid, client_id }
                    && cid == connection_id
                &&& exists|payload: Seq<u8>| payload_ok(payload)
                    && #[trigger] sm_push_post(old(self)@.ts, final(self)@.ts, key, seq,
                        payload, o)
            },
    {
        self.ts_rx.handle_ts_packet(connection_id, packet)
    }

    /// Drops one TS speaker (the client left the channel).
    pub fn remove_ts_client(&mut self, connection_id: u64, client_id: u16)
        requires
            bridge_wf(old(self)@),
        ensures
            bridge_wf(final(self)@),
            final(self)@.discord == old(self)@.discord,
            final(self)@.ring == old(self)@.ring,
            final(self)@.running == old(self)@.running,
            final(self)@.ts.gain == old(self)@.ts.gain,
            !sm_has(final(self)@.ts, SpeakerKey::Ts { connection_id, client_id }),
            forall|k2: SpeakerKey| k2 != (SpeakerKey::Ts { connection_id, client_id })
                ==> (#[trigger] sm_has(final(self)@.ts, k2) <==> sm_has(old(self)@.ts, k2)),
            forall|k2: SpeakerKey| k2 != (SpeakerKey::Ts { connection_id, client_id })
                && #[trigger] sm_has(old(self)@.ts, k2)
                ==> sm_jb(final(self)@.ts, k2) == sm_jb(old(self)@.ts, k2),
    {
        self.ts_rx.remove_client(connection_id, client_id)
    }

    /// One TS-bound tick: every Discord speaker's jitter buffer decides
    /// what the codec adapter does this tick.
    pub fn ts_bound_tick(&mut self) -> (steps: Vec<(SpeakerKey, PullStep)>)
        requires
            bridge_wf(old(self)@),
        ensures
            bridge_wf(final(self)@),
            final(self)@.ts == old(self)@.ts,
            final(self)@.ring == old(self)@.ring,
            final(self)@.running == old(self)@.running,
            final(self)@.discord.gain == old(self)@.discord.gain,
            final(self)@.discord.lanes.len() == old(self)@.discord.lanes.len(),
            steps@.len() == old(self)@.discord.lanes.len(),
            forall|i: int| 0 <= i < old(self)@.discord.lanes.len() ==> {
                &&& steps@[i].0 == old(self)@.discord.lanes[i].key
                &&& jb_pull_post(old(self)@.discord.lanes[i].jb,
                    final(self)@.discord.lanes[i].jb, steps@[i].1)
            },
    {
        self.discord_rx.tick()
    }

    /// Mixes the decoded TS-bound frames of one tick (unity gain).
    pub fn mix_to_ts(&self, frames: &Vec<PcmFrame>) -> (out: PcmFrame)
        requires
            bridge_wf(self@),
            forall|i: int| 0 <= i < frames@.len() ==> (#[trigger] frames@[i]).wf(),
        ensures
            out.wf(),
            forall|k: int| 0 <= k < STEREO_20MS
                ==> out@[k] == mixed_sample(frame_views(frames@), self@.discord.gain as int, k),
    {
        self.discord_rx.mix_tick(frames)
    }

    /// One Discord-bound tick: every TS speaker's jitter buffer decides
    /// what the codec adapter does this tick.
    pub fn discord_bound_tick(&mut self) -> (steps: Vec<(SpeakerKey, PullStep)>)
        requires
            bridge_wf(old(self)@),
        ensures
            bridge_wf(final(self)@),
            final(self)@.discord == old(self)@.discord,
            final(self)@.ring == old(self)@.ring,
            final(self)@.running == old(self)@.running,
            final(self)@.ts.gain == old(self)@.ts.gain,
            final(self)@.ts.lanes.len() == old(self)@.ts.lanes.len(),
            steps@.len() == old(self)@.ts.lanes.len(),
            forall|i: int| 0 <= i < old(self)@.ts.lanes.len() ==> {
                &&& steps@[i].0 == old(self)@.ts.lanes[i].key
                &&& jb_pull_post(old(self)@.ts.lanes[i].jb, final(self)@.ts.lanes[i].jb,
                    steps@[i].1)
            },
    {
        self.ts_rx.tick()
    }

    /// Mixes the decoded Discord-bound frames of one tick at the operator
    /// volume.
    pub fn mix_to_discord(&self, frames: &Vec<PcmFrame>) -> (out: PcmFrame)
        requires
            bridge_wf(self@),
            forall|i: int| 0 <= i < frames@.len() ==> (#[trigger] frames@[i]).wf(),
        ensures
            out.wf(),
            forall|k: int| 0 <= k < STEREO_20MS
                ==> out@[k] == mixed_sample(frame_views(frames@), self@.ts.gain as int, k),
    {
        self.ts_rx.mix_tick(frames)
    }

    /// Removes, on both sides, speakers that have been silent for the
    /// removal threshold.
    pub fn collect_expired(&mut self)
        requires
            bridge_wf(old(self)@),
        ensures
            bridge_wf(final(self)@),
            final(self)@.ring == old(self)@.ring,
            final(self)@.running == old(self)@.running,
            final(self)@.discord.gain == old(self)@.discord.gain,
            final(self)@.ts.gain == old(self)@.ts.gain,
            forall|k2: SpeakerKey| #[trigger] sm_has(final(self)@.discord, k2)
                ==> sm_has(old(self)@.discord, k2)
                    && sm_jb(final(self)@.discord, k2) == sm_jb(old(self)@.discord, k2)
                    && sm_jb(old(self)@.discord, k2).silent_run < crate::JB_GC_TICKS,
            forall|k2: SpeakerKey| sm_has(old(self)@.discord, k2)
                && (#[trigger] sm_jb(old(self)@.discord, k2)).silent_run < crate::JB_GC_TICKS
                ==> sm_has(final(self)@.discord, k2),
            forall|k2: SpeakerKey| #[trigger] sm_has(final(self)@.ts, k2)
                ==> sm_has(old(self)@.ts, k2)
                    && sm_jb(final(self)@.ts, k2) == sm_jb(old(self)@.ts, k2)
                    && sm_jb(old(self)@.ts, k2).silent_run < crate::JB_GC_TICKS,
            forall|k2: SpeakerKey| sm_has(old(self)@.ts, k2)
                && (#[trigger] sm_jb(old(self)@.ts, k2)).silent_run < crate::JB_GC_TICKS
                ==> sm_has(final(self)@.ts, k2),
    {
        self.discord_rx.collect_expired();
        self.ts_rx.collect_expired();
    }

    /// Appends one serialized Discord-bound frame to the ring, dropping one
    /// frame-sized chunk from the head first when the ring is full.
    pub fn ring_write(&mut self, chunk: &[u8])
        requires
            bridge_wf(old(self)@),
            chunk@.len() == FRAME_BYTES,
        ensures
            bridge_wf(final(self)@),
            final(self)@.discord == old(self)@.discord,
            final(self)@.ts == old(self)@.ts,
            final(self)@.running == old(self)@.running,
            final(self)@.ring == ring_after_push(old(self)@.ring, chunk@),
    {
        self.ring.push_frame(chunk)
    }

    /// Serves one driver pull from the ring: exactly `n` bytes, buffered
    /// bytes first, zeroes for the rest; never an end of stream.
    pub fn ring_read(&mut self, n: usize) -> (r: Vec<u8>)
        requires
            bridge_wf(old(self)@),
        ensures
            bridge_wf(final(self)@),
            final(self)@.discord == old(self)@.discord,
            final(self)@.ts == old(self)@.ts,
            final(self)@.running == old(self)@.running,
            r@.len() == n,
            ({
                let served = if n <= old(self)@.ring.len() {
                    n as int
                } else {
                    old(self)@.ring.len() as int
                };
                &&& forall|i: int| 0 <= i < served ==> r@[i] == old(self)@.ring[i]
                &&& forall|i: int| served <= i < n ==> r@[i] == 0u8
                &&& final(self)@.ring == old(self)@.ring.skip(served)
            }),
    {
        self.ring.read_exact(n)
    }


    /// Number of Discord speakers currently tracked.
    pub fn discord_speaker_count(&self) -> (n: usize)
        ensures
            n == self@.discord.lanes.len(),
    {
        self.discord_rx.speaker_count()
    }

    /// Number of TS speakers currently tracked.
    pub fn ts_speaker_count(&self) -> (n: usize)
        ensures
            n == self@.ts.lanes.len(),
    {
        self.ts_rx.speaker_count()
    }

    /// Bytes currently queued toward the voice driver.
    pub fn ring_len(&self) -> (n: usize)
        ensures
            n == self@.ring.len(),
    {
        self.ring.len()
    }
}

} // verus!
