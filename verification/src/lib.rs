//! Real-time voice bridge core: the audio plane that sits between two
//! voice-chat transports.
//!
//! Two independently clocked receive pipelines demultiplex per-speaker Opus
//! streams, reorder them by 16-bit sequence number, and jitter-buffer each
//! speaker.  A mixing stage sums all active speakers of a side into one
//! 48 kHz stereo frame per 20 ms tick, applies a global gain and clips.
//! A byte-oriented ring buffer decouples the two clocks on the way back to
//! the pull-based voice driver.
//!
//! Samples are interleaved stereo PCM held as `i16` values; full scale
//! (`-1.0` / `+1.0` of the codec's floating-point interface) corresponds to
//! [`SAMPLE_MIN`] / [`SAMPLE_MAX`].  Mixer gain is a fixed-point factor with
//! unit [`GAIN_UNIT`], so `GAIN_UNIT` means unity and `2 * GAIN_UNIT` is the
//! largest accepted gain.
use vstd::prelude::*;

pub mod bridge;
pub mod jitter;
pub mod mixer;
pub mod receiver;
pub mod ring;
pub mod rtp;
pub mod tick;
pub mod ts;
pub mod types;

verus! {

/// Frame period of the send pipelines, in milliseconds.
pub const TICK_MS: u64 = 20;

/// Interleaved stereo samples in one 20 ms frame at 48 kHz:
/// `48000 * 2 * 20 / 1000`.
pub const STEREO_20MS: usize = 1920;

/// Upper bound on the size of one encoded Opus packet, in bytes.
pub const MAX_OPUS_FRAME_SIZE: usize = 1275;

/// Most frames a single speaker's jitter buffer may hold (200 ms).
pub const JB_MAX_DEPTH: usize = 10;

/// A pushed sequence number is accepted if it is within this distance of the
/// last emitted one (modulo 2^16); anything farther away resets the stream.
pub const JB_REORDER_WINDOW: u16 = 32;

/// Frames that must accumulate after a reset before emission resumes.
pub const JB_PREROLL: usize = 3;

/// Largest gap (in frames) that packet-loss concealment may bridge.
pub const JB_PLC_GAP: u16 = 3;

/// Consecutive silent ticks after which a buffer counts as idle (1 s).
pub const JB_IDLE_TICKS: u32 = 50;

/// Consecutive silent ticks after which the owning mixer state removes the
/// buffer (30 s).
pub const JB_GC_TICKS: u32 = 1500;

/// Capacity of the cross-side ring buffer in bytes: one second of stereo
/// 32-bit PCM, `48000 * 2 * 4`.
pub const RING_CAP: usize = 384000;

/// Byte length of one serialized 20 ms frame in the ring buffer:
/// `1920 * 4`.
pub const FRAME_BYTES: usize = 7680;

/// Smallest sample value; stands for the codec's `-1.0`.
pub const SAMPLE_MIN: i16 = -32768;

/// Largest sample value; stands for the codec's `+1.0`.
pub const SAMPLE_MAX: i16 = 32767;

/// Fixed-point unit of the mixer gain: a gain of `GAIN_UNIT` is `1.0`.
pub const GAIN_UNIT: u32 = 1024;

/// Largest accepted gain, the fixed-point form of `2.0`.
pub const GAIN_MAX: u32 = 2048;

} // verus!
