//! Mixing stage: per 20 ms tick the decoded frames of all speakers of one
//! side are summed sample-wise, scaled by the side's global gain and hard
//! clipped; and the per-side mixer state that owns one jitter buffer per
//! speaker.
use vstd::prelude::*;
use vstd::arithmetic::mul::{lemma_mul_inequality, lemma_mul_upper_bound};

use crate::{GAIN_MAX, GAIN_UNIT, JB_GC_TICKS, SAMPLE_MAX, SAMPLE_MIN, STEREO_20MS};
use crate::jitter::{jb_fresh, jb_pull_post, jb_push_post, jb_wf, payload_ok, JbView,
    JitterBuffer};
use crate::types::{BridgeError, PcmFrame, PullStep, PushOutcome, SpeakerKey};

verus! {

/// Sample-wise sum of several frames at index `k`.
pub open spec fn sum_at(fs: Seq<Seq<i16>>, k: int) -> int
    decreases fs.len(),
{
    if fs.len() == 0 {
        0
    } else {
        sum_at(fs.drop_last(), k) + fs.last()[k]
    }
}

/// Fixed-point gain scaling with the rounding of the executable code:
/// magnitudes are divided by [`GAIN_UNIT`] after multiplication, rounding
/// toward zero.
pub open spec fn scale_gain(s: int, g: int) -> int {
    if s >= 0 {
        (s * g) / (GAIN_UNIT as int)
    } else {
        -(((-s) * g) / (GAIN_UNIT as int))
    }
}

/// The hard clipper: values beyond full scale saturate.
pub open spec fn clip(v: int) -> i16 {
    if v < SAMPLE_MIN {
        SAMPLE_MIN
    } else if v > SAMPLE_MAX {
        SAMPLE_MAX
    } else {
        v as i16
    }
}

/// Sample `k` of the mix of `fs` under gain `g`: sum, scale, clip.
pub open spec fn mixed_sample(fs: Seq<Seq<i16>>, g: int, k: int) -> i16 {
    clip(scale_gain(sum_at(fs, k), g))
}


/// Sample validity: whatever is summed, the clipper keeps every mixed
/// sample within full scale, so every sample handed to the encoder lies in
/// `SAMPLE_MIN ..= SAMPLE_MAX`.
pub proof fn lemma_mixed_sample_in_range(fs: Seq<Seq<i16>>, g: int, k: int)
    ensures
        SAMPLE_MIN <= mixed_sample(fs, g, k) <= SAMPLE_MAX,
{
}

/// With a single active speaker the mix is that speaker's frame scaled by
/// the gain (and clipped): the output scales linearly with the gain up to
/// full scale.
pub proof fn lemma_single_speaker_mix(f: Seq<i16>, g: int, k: int)
    ensures
        mixed_sample(seq![f], g, k) == clip(scale_gain(f[k] as int, g)),
{
    assert(seq![f].drop_last() =~= Seq::<Seq<i16>>::empty());
    assert(sum_at(Seq::<Seq<i16>>::empty(), k) == 0);
    assert(seq![f].last() == f);
    assert(sum_at(seq![f], k) == f[k]);
}

/// The views of a sequence of frames.
pub open spec fn frame_views(fs: Seq<PcmFrame>) -> Seq<Seq<i16>> {
    fs.map_values(|f: PcmFrame| f@)
}

/// Sums one sample index over all frames.
fn sum_sample(frames: &Vec<PcmFrame>, k: usize) -> (acc: i128)
    requires
        forall|i: int| 0 <= i < frames@.len() ==> (#[trigger] frames@[i]).wf(),
        k < STEREO_20MS,
    ensures
        acc == sum_at(frame_views(frames@), k as int),
        -(frames@.len() * 32768) <= acc <= frames@.len() * 32767,
{
    let ghost views = frame_views(frames@);
    let mut acc: i128 = 0;
    let mut j: usize = 0;
    let n = frames.len();
    proof {
        assert(views.take(0) =~= Seq::<Seq<i16>>::empty());
        lemma_mul_inequality(n as int, usize::MAX as int, 32768);
    }
    while j < n
        invariant
            0 <= j <= n,
            n == frames@.len(),
            forall|i: int| 0 <= i < frames@.len() ==> (#[trigger] frames@[i]).wf(),
            k < STEREO_20MS,
            views == frame_views(frames@),
            acc == sum_at(views.take(j as int), k as int),
            -((j as int) * 32768) <= acc <= (j as int) * 32767,
            n * 32768 <= usize::MAX * 32768,
        decreases n - j,
    {
        proof {
            assert(frames@[j as int].wf());
        }
        let s: i16 = frames[j].sample(k);
        proof {
            assert(views[j as int] == frames@[j as int]@);
            assert(views.take(j + 1 as int).drop_last() =~= views.take(j as int));
            assert(views.take(j + 1 as int).last() == views[j as int]);
            lemma_mul_inequality(j as int + 1, usize::MAX as int, 32768);
        }
        acc = acc + s as i128;
        j = j + 1;
    }
    proof {
        assert(views.take(n as int) =~= views);
    }
    acc
}

/// Scales one summed sample by the gain and clips it to full scale.
fn scale_and_clip(acc: i128, gain: u32) -> (r: i16)
    requires
        gain <= GAIN_MAX,
        -(usize::MAX * 32768) <= acc <= usize::MAX * 32768,
    ensures
        r == clip(scale_gain(acc as int, gain as int)),
{
    if acc >= 0 {
        let mag: u128 = acc as u128;
        proof {
            lemma_mul_upper_bound(mag as int, usize::MAX * 32768, gain as int, GAIN_MAX as int);
        }
        let sc: u128 = (mag * gain as u128) / (GAIN_UNIT as u128);
        if sc > SAMPLE_MAX as u128 {
            SAMPLE_MAX
        } else {
            sc as u16 as i16
        }
    } else {
        let mag: u128 = (-acc) as u128;
        proof {
            lemma_mul_upper_bound(mag as int, usize::MAX * 32768, gain as int, GAIN_MAX as int);
        }
        let sc: u128 = (mag * gain as u128) / (GAIN_UNIT as u128);
        if sc > 32768u128 {
            SAMPLE_MIN
        } else {
            -(sc as i32) as i16
        }
    }
}

/// Mixes the decoded frames of one tick: sums all speakers sample-wise,
/// applies the side's global gain, and clips every sample to full scale.
/// An empty speaker list yields the silent frame.
pub fn mix(frames: &Vec<PcmFrame>, gain: u32) -> (out: PcmFrame)
    requires
        forall|i: int| 0 <= i < frames@.len() ==> (#[trigger] frames@[i]).wf(),
        gain <= GAIN_MAX,
    ensures
        out.wf(),
        forall|k: int| 0 <= k < STEREO_20MS
            ==> out@[k] == mixed_sample(frame_views(frames@), gain as int, k),
{
    let ghost views = frame_views(frames@);
    let mut samples: Vec<i16> = Vec::new();
    let mut k: usize = 0;
    while k < STEREO_20MS
        invariant
            0 <= k <= STEREO_20MS,
            forall|i: int| 0 <= i < frames@.len() ==> (#[trigger] frames@[i]).wf(),
            gain <= GAIN_MAX,
            views == frame_views(frames@),
            samples@.len() == k,
            forall|kk: int| 0 <= kk < k
                ==> samples@[kk] == mixed_sample(views, gain as int, kk),
        decreases STEREO_20MS - k,
    {
        let n = frames.len();
        let acc = sum_sample(frames, k);
        proof {
            lemma_mul_inequality(n as int, usize::MAX as int, 32768);
            lemma_mul_inequality(n as int, usize::MAX as int, 32767);
        }
        let s = scale_and_clip(acc, gain);
        samples.push(s);
        k = k + 1;
    }
    PcmFrame::from_samples(samples).unwrap()
}

/// One speaker's lane: identity plus jitter buffer.
pub struct SpeakerLane {
    key: SpeakerKey,
    jb: JitterBuffer,
}

/// Mathematical image of one lane.
pub ghost struct LaneView {
    pub key: SpeakerKey,
    pub jb: JbView,
}

impl View for SpeakerLane {
    type V = LaneView;

    closed spec fn view(&self) -> LaneView {
        LaneView { key: self.key, jb: self.jb@ }
    }
}

/// Per-side mixer state: one jitter buffer per speaker and the side's
/// global gain.
pub struct SideMixerState {
    lanes: Vec<SpeakerLane>,
    gain: u32,
}

/// Mathematical image of one side's mixer state.
pub ghost struct SmView {
    pub lanes: Seq<LaneView>,
    pub gain: u32,
}

impl View for SideMixerState {
    type V = SmView;

    closed spec fn view(&self) -> SmView {
        SmView { lanes: self.lanes@.map_values(|l: SpeakerLane| l@), gain: self.gain }
    }
}

/// Gains are clamped into `0 ..= GAIN_MAX`.
pub open spec fn clamp_gain(g: u32) -> u32 {
    if g > GAIN_MAX {
        GAIN_MAX
    } else {
        g
    }
}

/// Well-formedness: clamped gain, well-formed buffers, distinct speakers.
pub open spec fn sm_wf(v: SmView) -> bool {
    &&& v.gain <= GAIN_MAX
    &&& forall|i: int| 0 <= i < v.lanes.len() ==> jb_wf((#[trigger] v.lanes[i]).jb)
    &&& forall|i: int, j: int| 0 <= i < j < v.lanes.len()
        ==> (#[trigger] v.lanes[i]).key != (#[trigger] v.lanes[j]).key
}

/// Whether the side holds a lane for `key`.
pub open spec fn sm_has(v: SmView, key: SpeakerKey) -> bool {
    exists|i: int| 0 <= i < v.lanes.len() && (#[trigger] v.lanes[i]).key == key
}

/// The jitter buffer of `key`'s lane (meaningful only when `sm_has`).
pub open spec fn sm_jb(v: SmView, key: SpeakerKey) -> JbView {
    let i = choose|i: int| 0 <= i < v.lanes.len() && (#[trigger] v.lanes[i]).key == key;
    v.lanes[i].jb
}

/// Replacing the buffer of lane `i` keeps the side well formed and leaves
/// every other speaker's buffer alone.
proof fn lemma_update_lane(pre: SmView, post: SmView, i: int, newjb: JbView)
    requires
        sm_wf(pre),
        0 <= i < pre.lanes.len(),
        jb_wf(newjb),
        post.lanes == pre.lanes.update(i, LaneView { key: pre.lanes[i].key, jb: newjb }),
        post.gain == pre.gain,
    ensures
        sm_wf(post),
        sm_has(post, pre.lanes[i].key),
        sm_jb(post, pre.lanes[i].key) == newjb,
        forall|k2: SpeakerKey| k2 != pre.lanes[i].key
            ==> (#[trigger] sm_has(post, k2) <==> sm_has(pre, k2)),
        forall|k2: SpeakerKey| k2 != pre.lanes[i].key && #[trigger] sm_has(pre, k2)
            ==> sm_jb(post, k2) == sm_jb(pre, k2),
{
    let key = pre.lanes[i].key;
    assert(post.lanes[i].key == key);
    assert(sm_has(post, key));
    assert(sm_jb(post, key) == newjb) by {
        let k = choose|k: int| 0 <= k < post.lanes.len() && (#[trigger] post.lanes[k]).key == key;
        if k != i {
            assert(pre.lanes[k].key == key);
        }
    }
    assert forall|k2: SpeakerKey| k2 != key implies
        (sm_has(post, k2) <==> sm_has(pre, k2)) by {
        if sm_has(post, k2) {
            let k = choose|k: int| 0 <= k < post.lanes.len()
                && (#[trigger] post.lanes[k]).key == k2;
            assert(pre.lanes[k].key == k2);
        }
        if sm_has(pre, k2) {
            let k = choose|k: int| 0 <= k < pre.lanes.len()
                && (#[trigger] pre.lanes[k]).key == k2;
            assert(post.lanes[k].key == k2);
        }
    }
    assert forall|k2: SpeakerKey| k2 != key && #[trigger] sm_has(pre, k2) implies
        sm_jb(post, k2) == sm_jb(pre, k2) by {
        let k = choose|k: int| 0 <= k < post.lanes.len() && (#[trigger] post.lanes[k]).key == k2;
        let k2i = choose|k2i: int| 0 <= k2i < pre.lanes.len()
            && (#[trigger] pre.lanes[k2i]).key == k2;
        assert(pre.lanes[k].key == k2);
        assert(k == k2i) by {
            if k != k2i {
                assert(pre.lanes[k].key != pre.lanes[k2i].key);
            }
        }
    }
}

/// Appending a lane for a new speaker keeps the side well formed and leaves
/// every other speaker's buffer alone.
proof fn lemma_append_lane(pre: SmView, post: SmView, key: SpeakerKey, jb: JbView)
    requires
        sm_wf(pre),
        !sm_has(pre, key),
        jb_wf(jb),
        post.lanes == pre.lanes.push(LaneView { key, jb }),
        post.gain == pre.gain,
    ensures
        sm_wf(post),
        sm_has(post, key),
        sm_jb(post, key) == jb,
        forall|k2: SpeakerKey| k2 != key ==> (#[trigger] sm_has(post, k2) <==> sm_has(pre, k2)),
        forall|k2: SpeakerKey| k2 != key && #[trigger] sm_has(pre, k2)
            ==> sm_jb(post, k2) == sm_jb(pre, k2),
{
    let n = pre.lanes.len() as int;
    assert(post.lanes[n].key == key);
    assert(sm_has(post, key));
    assert forall|i: int, j: int| 0 <= i < j < post.lanes.len() implies
        (#[trigger] post.lanes[i]).key != (#[trigger] post.lanes[j]).key by {
        if j == n {
            assert(post.lanes[i] == pre.lanes[i]);
            if pre.lanes[i].key == key {
                assert(sm_has(pre, key));
            }
        }
    }
    assert(sm_jb(post, key) == jb) by {
        let k = choose|k: int| 0 <= k < post.lanes.len() && (#[trigger] post.lanes[k]).key == key;
        if k != n {
            assert(pre.lanes[k].key == key);
            assert(sm_has(pre, key));
        }
    }
    assert forall|k2: SpeakerKey| k2 != key implies
        (sm_has(post, k2) <==> sm_has(pre, k2)) by {
        if sm_has(post, k2) {
            let k = choose|k: int| 0 <= k < post.lanes.len()
                && (#[trigger] post.lanes[k]).key == k2;
            assert(pre.lanes[k].key == k2);
        }
        if sm_has(pre, k2) {
            let k = choose|k: int| 0 <= k < pre.lanes.len()
                && (#[trigger] pre.lanes[k]).key == k2;
            assert(post.lanes[k].key == k2);
        }
    }
    assert forall|k2: SpeakerKey| k2 != key && #[trigger] sm_has(pre, k2) implies
        sm_jb(post, k2) == sm_jb(pre, k2) by {
        let k = choose|k: int| 0 <= k < post.lanes.len() && (#[trigger] post.lanes[k]).key == k2;
        let k2i = choose|k2i: int| 0 <= k2i < pre.lanes.len()
            && (#[trigger] pre.lanes[k2i]).key == k2;
        assert(k < n && pre.lanes[k].key == k2);
        assert(k == k2i) by {
            if k != k2i {
                assert(pre.lanes[k].key != pre.lanes[k2i].key);
            }
        }
    }
}

/// Removing lane `i` keeps the side well formed, forgets exactly that
/// speaker, and leaves every other speaker's buffer alone.
proof fn lemma_remove_lane(pre: SmView, post: SmView, i: int)
    requires
        sm_wf(pre),
        0 <= i < pre.lanes.len(),
        post.lanes == pre.lanes.remove(i),
        post.gain == pre.gain,
    ensures
        sm_wf(post),
        !sm_has(post, pre.lanes[i].key),
        forall|k2: SpeakerKey| k2 != pre.lanes[i].key
            ==> (#[trigger] sm_has(post, k2) <==> sm_has(pre, k2)),
        forall|k2: SpeakerKey| k2 != pre.lanes[i].key && #[trigger] sm_has(pre, k2)
            ==> sm_jb(post, k2) == sm_jb(pre, k2),
        forall|k2: SpeakerKey| #[trigger] sm_has(post, k2)
            ==> sm_has(pre, k2) && sm_jb(post, k2) == sm_jb(pre, k2),
{
    let key = pre.lanes[i].key;
    assert forall|m: int| 0 <= m < post.lanes.len() implies
        #[trigger] post.lanes[m] == pre.lanes[if m < i { m } else { m + 1 }] by {
    }
    assert(!sm_has(post, key)) by {
        if sm_has(post, key) {
            let k = choose|k: int| 0 <= k < post.lanes.len()
                && (#[trigger] post.lanes[k]).key == key;
            let kp = if k < i { k } else { k + 1 };
            assert(pre.lanes[kp].key == key);
            assert(pre.lanes[i].key == key);
        }
    }
    assert forall|k2: SpeakerKey| k2 != key implies
        (sm_has(post, k2) <==> sm_has(pre, k2)) by {
        if sm_has(post, k2) {
            let k = choose|k: int| 0 <= k < post.lanes.len()
                && (#[trigger] post.lanes[k]).key == k2;
            let kp = if k < i { k } else { k + 1 };
            assert(pre.lanes[kp].key == k2);
        }
        if sm_has(pre, k2) {
            let k = choose|k: int| 0 <= k < pre.lanes.len()
                && (#[trigger] pre.lanes[k]).key == k2;
            assert(k != i);
            let kq = if k < i { k } else { k - 1 };
            assert(post.lanes[kq].key == k2);
        }
    }
    assert forall|k2: SpeakerKey| #[trigger] sm_has(post, k2) implies
        sm_has(pre, k2) && sm_jb(post, k2) == sm_jb(pre, k2) by {
        let k = choose|k: int| 0 <= k < post.lanes.len() && (#[trigger] post.lanes[k]).key == k2;
        let kp = if k < i { k } else { k + 1 };
        assert(pre.lanes[kp].key == k2);
        assert(sm_has(pre, k2));
        let kc = choose|kc: int| 0 <= kc < pre.lanes.len()
            && (#[trigger] pre.lanes[kc]).key == k2;
        assert(kc == kp) by {
            if kc != kp {
                assert(pre.lanes[kc].key != pre.lanes[kp].key);
            }
        }
    }
    assert forall|k2: SpeakerKey| k2 != key && #[trigger] sm_has(pre, k2) implies
        sm_jb(post, k2) == sm_jb(pre, k2) by {
        assert(sm_has(post, k2));
    }
}

/// What one accepted packet did to a side: the speaker's own buffer follows
/// the jitter-buffer push contract (from a fresh buffer when the speaker is
/// new) and nobody else's buffer moves.
pub open spec fn sm_push_post(
    pre: SmView,
    post: SmView,
    key: SpeakerKey,
    seq: u16,
    payload: Seq<u8>,
    o: PushOutcome,
) -> bool {
    let pre_jb = if sm_has(pre, key) { sm_jb(pre, key) } else { jb_fresh() };
    &&& sm_has(post, key)
    &&& jb_push_post(pre_jb, sm_jb(post, key), seq, payload, o)
    &&& post.lanes.len() == pre.lanes.len() + (if sm_has(pre, key) { 0int } else { 1int })
    &&& forall|k2: SpeakerKey| k2 != key ==> (#[trigger] sm_has(post, k2) <==> sm_has(pre, k2))
    &&& forall|k2: SpeakerKey| k2 != key && #[trigger] sm_has(pre, k2)
        ==> sm_jb(post, k2) == sm_jb(pre, k2)
}

impl SideMixerState {
    /// An empty side with the given gain, clamped.
    pub fn new(gain: u32) -> (r: SideMixerState)
        ensures
            sm_wf(r@),
            r@.lanes.len() == 0,
            r@.gain == clamp_gain(gain),
    {
        let g: u32 = if gain > GAIN_MAX { GAIN_MAX } else { gain };
        let r = SideMixerState { lanes: Vec::new(), gain: g };
        proof {
            assert(r@.lanes =~= Seq::<LaneView>::empty());
        }
        r
    }

    /// The side's global gain.
    pub fn gain(&self) -> (g: u32)
        ensures
            g == self@.gain,
    {
        self.gain
    }

    /// Sets the side's global gain, clamped into `0 ..= GAIN_MAX`.
    pub fn set_gain(&mut self, v: u32)
        ensures
            final(self)@ == (SmView { gain: clamp_gain(v), ..old(self)@ }),
    {
        self.gain = if v > GAIN_MAX { GAIN_MAX } else { v };
    }

    /// Number of speakers currently tracked.
    pub fn speaker_count(&self) -> (n: usize)
        ensures
            n == self@.lanes.len(),
    {
        self.lanes.len()
    }

    /// Routes one packet to its speaker's jitter buffer, creating the lane
    /// on the first packet from a source.  Rejects untransportable payloads
    /// without touching any state.
    pub fn push_packet(&mut self, key: SpeakerKey, seq: u16, payload: Vec<u8>)
        -> (r: Result<PushOutcome, BridgeError>)
        requires
            sm_wf(old(self)@),
        ensures
            sm_wf(final(self)@),
            final(self)@.gain == old(self)@.gain,
            r is Ok <==> payload_ok(payload@),
            r is Err ==> final(self)@ == old(self)@
                && r == Err::<PushOutcome, BridgeError>(BridgeError::MalformedPacket),
            r matches Ok(o) ==> sm_push_post(old(self)@, final(self)@, key, seq, payload@, o),
    {
        if payload.len() == 0 || payload.len() > crate::MAX_OPUS_FRAME_SIZE {
            return Err(BridgeError::MalformedPacket);
        }
        let ghost pre = self@;
        let mut i: usize = 0;
        while i < self.lanes.len() && !(self.lanes[i].key == key)
            invariant
                0 <= i <= self.lanes.len(),
                forall|m: int| 0 <= m < i ==> (#[trigger] self@.lanes[m]).key != key,
                self@ == pre,
            decreases self.lanes.len() - i,
        {
            i = i + 1;
        }
        if i < self.lanes.len() {
            proof {
                assert(pre.lanes[i as int].key == key);
                assert(sm_has(pre, key));
                assert(sm_jb(pre, key) == pre.lanes[i as int].jb) by {
                    let k = choose|k: int| 0 <= k < pre.lanes.len()
                        && (#[trigger] pre.lanes[k]).key == key;
                    if k != i as int {
                        assert(pre.lanes[k].key != pre.lanes[i as int].key);
                    }
                }
            }
            let mut lane = self.lanes.remove(i);
            let ghost removed = self@;
            let r = lane.jb.push(seq, payload);
            self.lanes.insert(i, lane);
            proof {
                assert(self@.lanes =~= pre.lanes.update(i as int,
                    LaneView { key, jb: lane@.jb }));
                lemma_update_lane(pre, self@, i as int, lane@.jb);
            }
            match r {
                Ok(o) => Ok(o),
                Err(e) => Err(e),
            }
        } else {
            proof {
                assert(!sm_has(pre, key));
            }
            let mut jb = JitterBuffer::new();
            let r = jb.push(seq, payload);
            let ghost newjb = jb@;
            self.lanes.push(SpeakerLane { key, jb });
            proof {
                assert(self@.lanes =~= pre.lanes.push(LaneView { key, jb: newjb }));
                lemma_append_lane(pre, self@, key, newjb);
            }
            match r {
                Ok(o) => Ok(o),
                Err(e) => Err(e),
            }
        }
    }

    /// One 20 ms tick of this side: every lane's jitter buffer decides its
    /// step.  The returned steps are aligned with the lanes; silence steps
    /// contribute nothing to the mix and cost the codec adapter nothing.
    pub fn tick(&mut self) -> (steps: Vec<(SpeakerKey, PullStep)>)
        requires
            sm_wf(old(self)@),
        ensures
            sm_wf(final(self)@),
            final(self)@.gain == old(self)@.gain,
            final(self)@.lanes.len() == old(self)@.lanes.len(),
            steps@.len() == old(self)@.lanes.len(),
            forall|i: int| 0 <= i < old(self)@.lanes.len() ==> {
                &&& (#[trigger] final(self)@.lanes[i]).key == old(self)@.lanes[i].key
                &&& steps@[i].0 == old(self)@.lanes[i].key
                &&& jb_pull_post(old(self)@.lanes[i].jb, final(self)@.lanes[i].jb, steps@[i].1)
            },
    {
        let ghost pre = self@;
        let mut steps: Vec<(SpeakerKey, PullStep)> = Vec::new();
        let mut i: usize = 0;
        while i < self.lanes.len()
            invariant
                0 <= i <= self.lanes.len(),
                self@.gain == pre.gain,
                self@.lanes.len() == pre.lanes.len(),
                steps@.len() == i,
                forall|m: int| i <= m < pre.lanes.len()
                    ==> #[trigger] self@.lanes[m] == pre.lanes[m],
                forall|m: int| 0 <= m < i ==> {
                    &&& (#[trigger] self@.lanes[m]).key == pre.lanes[m].key
                    &&& steps@[m].0 == pre.lanes[m].key
                    &&& jb_pull_post(pre.lanes[m].jb, self@.lanes[m].jb, steps@[m].1)
                },
                forall|m: int| 0 <= m < pre.lanes.len() ==> jb_wf((#[trigger] self@.lanes[m]).jb),
            decreases self.lanes.len() - i,
        {
            let ghost before = self@;
            let mut lane = self.lanes.remove(i);
            proof {
                assert(lane@ == before.lanes[i as int]);
                assert(before.lanes[i as int] == pre.lanes[i as int]);
                assert(jb_wf(lane@.jb));
            }
            let k = lane.key;
            let step = lane.jb.pull();
            let ghost newjb = lane@.jb;
            self.lanes.insert(i, lane);
            steps.push((k, step));
            proof {
                assert(self@.lanes =~= before.lanes.update(i as int,
                    LaneView { key: k, jb: newjb }));
                assert(steps@[i as int] == (k, step));
                assert(jb_pull_post(pre.lanes[i as int].jb, self@.lanes[i as int].jb, step));
            }
            i = i + 1;
        }
        proof {
            assert forall|a: int, b: int| 0 <= a < b < self@.lanes.len() implies
                (#[trigger] self@.lanes[a]).key != (#[trigger] self@.lanes[b]).key by {
                assert(self@.lanes[a].key == pre.lanes[a].key);
                assert(self@.lanes[b].key == pre.lanes[b].key);
            }
        }
        steps
    }

    /// Drops every speaker at once (bridge stop or reset).
    pub fn clear_speakers(&mut self)
        requires
            sm_wf(old(self)@),
        ensures
            final(self)@.lanes.len() == 0,
            final(self)@.gain == old(self)@.gain,
            sm_wf(final(self)@),
    {
        self.lanes.clear();
        proof {
            assert(self@.lanes =~= Seq::<LaneView>::empty());
        }
    }

    /// Removes the lane of one speaker, if present (a disconnect or an
    /// explicit removal signal).
    pub fn remove_speaker(&mut self, key: SpeakerKey)
        requires
            sm_wf(old(self)@),
        ensures
            sm_wf(final(self)@),
            final(self)@.gain == old(self)@.gain,
            !sm_has(final(self)@, key),
            forall|k2: SpeakerKey| k2 != key
                ==> (#[trigger] sm_has(final(self)@, k2) <==> sm_has(old(self)@, k2)),
            forall|k2: SpeakerKey| k2 != key && #[trigger] sm_has(old(self)@, k2)
                ==> sm_jb(final(self)@, k2) == sm_jb(old(self)@, k2),
    {
        let ghost pre = self@;
        let mut i: usize = 0;
        while i < self.lanes.len() && !(self.lanes[i].key == key)
            invariant
                0 <= i <= self.lanes.len(),
                forall|m: int| 0 <= m < i ==> (#[trigger] self@.lanes[m]).key != key,
                self@ == pre,
            decreases self.lanes.len() - i,
        {
            i = i + 1;
        }
        if i < self.lanes.len() {
            self.lanes.remove(i);
            proof {
                assert(self@.lanes =~= pre.lanes.remove(i as int));
                lemma_remove_lane(pre, self@, i as int);
            }
        } else {
            proof {
                assert(!sm_has(pre, key));
            }
        }
    }

    /// Removes every lane that has been silent for [`JB_GC_TICKS`]
    /// consecutive ticks: the speaker went away.
    pub fn collect_expired(&mut self)
        requires
            sm_wf(old(self)@),
        ensures
            sm_wf(final(self)@),
            final(self)@.gain == old(self)@.gain,
            forall|k2: SpeakerKey| #[trigger] sm_has(final(self)@, k2)
                ==> sm_has(old(self)@, k2)
                    && sm_jb(final(self)@, k2) == sm_jb(old(self)@, k2)
                    && sm_jb(old(self)@, k2).silent_run < JB_GC_TICKS,
            forall|k2: SpeakerKey| sm_has(old(self)@, k2)
                && (#[trigger] sm_jb(old(self)@, k2)).silent_run < JB_GC_TICKS
                ==> sm_has(final(self)@, k2),
    {
        let ghost pre = self@;
        let mut i: usize = 0;
        while i < self.lanes.len()
            invariant
                sm_wf(self@),
                self@.gain == pre.gain,
                0 <= i <= self@.lanes.len(),
                forall|m: int| 0 <= m < i
                    ==> (#[trigger] self@.lanes[m]).jb.silent_run < JB_GC_TICKS,
                forall|k2: SpeakerKey| #[trigger] sm_has(self@, k2)
                    ==> sm_has(pre, k2) && sm_jb(self@, k2) == sm_jb(pre, k2),
                forall|k2: SpeakerKey| #[trigger] sm_has(pre, k2)
                    ==> (sm_has(self@, k2) || sm_jb(pre, k2).silent_run >= JB_GC_TICKS),
            decreases self@.lanes.len() - i,
        {
            let expired = self.lanes[i].jb.is_expired();
            if expired {
                let ghost cur = self@;
                self.lanes.remove(i);
                proof {
                    assert(self@.lanes =~= cur.lanes.remove(i as int));
                    let key = cur.lanes[i as int].key;
                    assert(sm_has(cur, key));
                    assert(sm_jb(cur, key) == cur.lanes[i as int].jb) by {
                        let k = choose|k: int| 0 <= k < cur.lanes.len()
                            && (#[trigger] cur.lanes[k]).key == key;
                        if k != i as int {
                            assert(cur.lanes[k].key != cur.lanes[i as int].key);
                        }
                    }
                    lemma_remove_lane(cur, self@, i as int);
                    assert forall|m: int| 0 <= m < i implies
                        (#[trigger] self@.lanes[m]).jb.silent_run < JB_GC_TICKS by {
                        assert(self@.lanes[m] == cur.lanes[m]);
                    }
                }
            } else {
                i = i + 1;
            }
        }
    }
}

} // verus!
