//! TS-side pipelines.  Inbound: the transport delivers framed audio events
//! tagged with the sending client; only server-to-client audio is accepted,
//! everything else is rejected without touching any state.  Outbound: one
//! encoded frame per tick is framed as a TS voice packet for the transport
//! to send.
use vstd::prelude::*;

use crate::{MAX_OPUS_FRAME_SIZE, STEREO_20MS};
use crate::jitter::{jb_pull_post, payload_ok};
use crate::mixer::{clamp_gain, frame_views, mix, mixed_sample, sm_has, sm_jb, sm_push_post,
    sm_wf, SideMixerState, SmView};
use crate::types::{BridgeError, PcmFrame, PullStep, PushOutcome, SpeakerKey};

verus! {

#[verifier::external_type_specification]
#[verifier::external_body]
pub struct ExInAudioBuf(tsproto_packets::packets::InAudioBuf);

#[verifier::external_type_specification]
#[verifier::external_body]
pub struct ExOutPacket(tsproto_packets::packets::OutPacket);

/// One inbound audio event, reduced to what the bridge routes on.
pub enum TsInboundAudio {
    /// Server-to-client voice: packet id, sending client, opaque payload.
    Voice { id: u16, from: u16, data: Vec<u8> },
    /// Server-to-client whisper voice, handled like plain voice.
    Whisper { id: u16, from: u16, data: Vec<u8> },
    /// A client-to-server payload: wrong direction for a receive path.
    Outbound,
}

/// Relies on `InAudioBuf::data` and `AudioData`: tells the audio packet's
/// direction and variant apart and hands the id, source client and payload
/// through unchanged.  What it returns depends on the opaque packet alone;
/// the verified router below is proved for every possible event.
#[verifier::external_body]
fn inbound_audio_event(p: &tsproto_packets::packets::InAudioBuf) -> (r: TsInboundAudio) {
    match p.data().data() {
        tsproto_packets::packets::AudioData::S2C { id, from, data, .. } =>
            TsInboundAudio::Voice { id: *id, from: *from, data: data.to_vec() },
        tsproto_packets::packets::AudioData::S2CWhisper { id, from, data, .. } =>
            TsInboundAudio::Whisper { id: *id, from: *from, data: data.to_vec() },
        tsproto_packets::packets::AudioData::C2S { .. }
        | tsproto_packets::packets::AudioData::C2SWhisper { .. }
        | tsproto_packets::packets::AudioData::C2SWhisperNew { .. } => TsInboundAudio::Outbound,
    }
}

/// Relies on `OutAudio::new`: builds one client-to-server voice packet whose
/// content is the packet id, the Opus Music codec marker and the encoded
/// payload, after the packet header.
#[verifier::external_body]
fn out_audio_c2s(id: u16, data: &[u8]) -> tsproto_packets::packets::OutPacket {
    tsproto_packets::packets::OutAudio::new(&tsproto_packets::packets::AudioData::C2S {
        id,
        codec: tsproto_packets::packets::CodecType::OpusMusic,
        data,
    })
}

/// Frames one encoded Opus frame as the TS voice packet of this tick.
/// Succeeds exactly on payloads the transport can carry; an empty or
/// oversized encoder result is a codec failure and the tick sends nothing.
pub fn ts_voice_packet(encoded: &[u8]) -> (r: Result<tsproto_packets::packets::OutPacket,
    BridgeError>)
    ensures
        r is Ok <==> payload_ok(encoded@),
        r is Err ==> r == Err::<tsproto_packets::packets::OutPacket, BridgeError>(
            BridgeError::CodecError),
{
    if encoded.len() == 0 || encoded.len() > MAX_OPUS_FRAME_SIZE {
        return Err(BridgeError::CodecError);
    }
    Ok(out_audio_c2s(0, encoded))
}

/// The receive side of the TS transport, feeding the Discord-bound mix.
/// Its gain is the operator volume.
pub struct TsReceiver {
    state: SideMixerState,
}

impl View for TsReceiver {
    type V = SmView;

    closed spec fn view(&self) -> SmView {
        self.state@
    }
}

impl TsReceiver {
    /// A receiver with no speakers, mixing at the given volume (clamped).
    pub fn new(volume: u32) -> (r: TsReceiver)
        ensures
            sm_wf(r@),
            r@.lanes.len() == 0,
            r@.gain == clamp_gain(volume),
    {
        TsReceiver { state: SideMixerState::new(volume) }
    }

    /// Routes one reduced audio event: server-to-client voice goes to the
    /// jitter buffer of `SpeakerKey::Ts(connection, client)`; a
    /// client-to-server payload is rejected as the wrong direction; an
    /// untransportable payload is rejected as malformed.  Rejections have
    /// no side effect.
    pub fn handle_audio(&mut self, connection_id: u64, ev: TsInboundAudio)
        -> (r: Result<(SpeakerKey, u16, PushOutcome), BridgeError>)
        requires
            sm_wf(old(self)@),
        ensures
            sm_wf(final(self)@),
            final(self)@.gain == old(self)@.gain,
            r is Err ==> final(self)@ == old(self)@,
            match ev {
                TsInboundAudio::Voice { id, from, data } => {
                    &&& (r is Ok <==> payload_ok(data@))
                    &&& (r is Err ==> r == Err::<(SpeakerKey, u16, PushOutcome), BridgeError>(
                        BridgeError::MalformedPacket))
                    &&& (r matches Ok((key, seq, o)) ==> {
                        &&& key == SpeakerKey::Ts { connection_id, client_id: from }
                        &&& seq == id
                        &&& sm_push_post(old(self)@, final(self)@, key, seq, data@, o)
                    })
                },
                TsInboundAudio::Whisper { id, from, data } => {
                    &&& (r is Ok <==> payload_ok(data@))
                    &&& (r is Err ==> r == Err::<(SpeakerKey, u16, PushOutcome), BridgeError>(
                        BridgeError::MalformedPacket))
                    &&& (r matches Ok((key, seq, o)) ==> {
                        &&& key == SpeakerKey::Ts { connection_id, client_id: from }
                        &&& seq == id
                        &&& sm_push_post(old(self)@, final(self)@, key, seq, data@, o)
                    })
                },
                TsInboundAudio::Outbound => r == Err::<(SpeakerKey, u16, PushOutcome),
                    BridgeError>(BridgeError::UnexpectedDirection),
            },
    {
        match ev {
            TsInboundAudio::Voice { id, from, data } => {
                let key = SpeakerKey::Ts { connection_id, client_id: from };
                match self.state.push_packet(key, id, data) {
                    Ok(o) => Ok((key, id, o)),
                    Err(e) => Err(e),
                }
            },
            TsInboundAudio::Whisper { id, from, data } => {
                let key = SpeakerKey::Ts { connection_id, client_id: from };
                match self.state.push_packet(key, id, data) {
                    Ok(o) => Ok((key, id, o)),
                    Err(e) => Err(e),
                }
            },
            TsInboundAudio::Outbound => Err(BridgeError::UnexpectedDirection),
        }
    }

    /// Handles one framed audio packet from the transport: reduces it and
    /// routes it.  Whatever the opaque packet held, a success stored one
    /// transportable payload in the buffer of one speaker of this
    /// connection and moved nothing else; a rejection changed nothing.
    pub fn handle_ts_packet(&mut self, connection_id: u64,
        packet: &tsproto_packets::packets::InAudioBuf)
        -> (r: Result<(SpeakerKey, u16, PushOutcome), BridgeError>)
        requires
            sm_wf(old(self)@),
        ensures
            sm_wf(final(self)@),
            final(self)@.gain == old(self)@.gain,
            r is Err ==> final(self)@ == old(self)@,
            r matches Err(e) ==> (e == BridgeError::UnexpectedDirection
                || e == BridgeError::MalformedPacket),
            r matches Ok((key, seq, o)) ==> {
                &&& key matches SpeakerKey::Ts { connection_id: cid, client_id }
                    && cid == connection_id
                &&& exists|payload: Seq<u8>| payload_ok(payload)
                    && #[trigger] sm_push_post(old(self)@, final(self)@, key, seq, payload, o)
            },
    {
        let ev = inbound_audio_event(packet);
        self.handle_audio(connection_id, ev)
    }

    /// Sets the operator volume for the Discord-bound mix, clamped.
    pub fn set_gain(&mut self, v: u32)
        ensures
            final(self)@ == (SmView { gain: clamp_gain(v), ..old(self)@ }),
    {
        self.state.set_gain(v)
    }

    /// The operator volume currently applied.
    pub fn gain(&self) -> (g: u32)
        ensures
            g == self@.gain,
    {
        self.state.gain()
    }

    /// Drops the lane of one TS client.
    pub fn remove_client(&mut self, connection_id: u64, client_id: u16)
        requires
            sm_wf(old(self)@),
        ensures
            sm_wf(final(self)@),
            final(self)@.gain == old(self)@.gain,
            !sm_has(final(self)@, SpeakerKey::Ts { connection_id, client_id }),
            forall|k2: SpeakerKey| k2 != (SpeakerKey::Ts { connection_id, client_id })
                ==> (#[trigger] sm_has(final(self)@, k2) <==> sm_has(old(self)@, k2)),
            forall|k2: SpeakerKey| k2 != (SpeakerKey::Ts { connection_id, client_id })
                && #[trigger] sm_has(old(self)@, k2)
                ==> sm_jb(final(self)@, k2) == sm_jb(old(self)@, k2),
    {
        self.state.remove_speaker(SpeakerKey::Ts { connection_id, client_id });
    }

    /// One Discord-bound tick: every speaker's jitter buffer decides its
    /// step.
    pub fn tick(&mut self) -> (steps: Vec<(SpeakerKey, PullStep)>)
        requires
            sm_wf(old(self)@),
        ensures
            sm_wf(final(self)@),
            final(self)@.gain == old(self)@.gain,
            final(self)@.lanes.len() == old(self)@.lanes.len(),
            steps@.len() == old(self)@.lanes.len(),
            forall|i: int| 0 <= i < old(self)@.lanes.len() ==> {
                &&& (#[trigger] final(self)@.lanes[i]).key == old(self)@.lanes[i].key
                &&& steps@[i].0 == old(self)@.lanes[i].key
                &&& jb_pull_post(old(self)@.lanes[i].jb, final(self)@.lanes[i].jb, steps@[i].1)
            },
    {
        self.state.tick()
    }

    /// Removes speakers that have been silent for the removal threshold.
    pub fn collect_expired(&mut self)
        requires
            sm_wf(old(self)@),
        ensures
            sm_wf(final(self)@),
            final(self)@.gain == old(self)@.gain,
            forall|k2: SpeakerKey| #[trigger] sm_has(final(self)@, k2)
                ==> sm_has(old(self)@, k2)
                    && sm_jb(final(self)@, k2) == sm_jb(old(self)@, k2)
                    && sm_jb(old(self)@, k2).silent_run < crate::JB_GC_TICKS,
            forall|k2: SpeakerKey| sm_has(old(self)@, k2)
                && (#[trigger] sm_jb(old(self)@, k2)).silent_run < crate::JB_GC_TICKS
                ==> sm_has(final(self)@, k2),
    {
        self.state.collect_expired()
    }

    /// Drops every speaker (bridge stop or reset).
    pub fn clear_speakers(&mut self)
        requires
            sm_wf(old(self)@),
        ensures
            final(self)@.lanes.len() == 0,
            final(self)@.gain == old(self)@.gain,
            sm_wf(final(self)@),
    {
        self.state.clear_speakers()
    }

    /// Number of speakers currently tracked.
    pub fn speaker_count(&self) -> (n: usize)
        ensures
            n == self@.lanes.len(),
    {
        self.state.speaker_count()
    }

    /// Mixes the decoded frames of one tick at the operator volume.
    pub fn mix_tick(&self, frames: &Vec<PcmFrame>) -> (out: PcmFrame)
        requires
            sm_wf(self@),
            forall|i: int| 0 <= i < frames@.len() ==> (#[trigger] frames@[i]).wf(),
        ensures
            out.wf(),
            forall|k: int| 0 <= k < STEREO_20MS
                ==> out@[k] == mixed_sample(frame_views(frames@), self@.gain as int, k),
    {
        mix(frames, self.state.gain())
    }
}

} // verus!
