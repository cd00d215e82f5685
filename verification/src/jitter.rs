//! Per-speaker jitter buffer: holds encoded payloads keyed by their 16-bit
//! transport sequence number, absorbs reordering inside a fixed window, and
//! decides on every 20 ms tick whether the codec adapter should decode the
//! next payload, conceal a lost one, or emit silence.
//!
//! The buffer never decodes itself: [`JitterBuffer::pull`] returns a
//! [`PullStep`] and the caller runs the codec on it, so every decision here
//! is verified for every possible codec outcome.
//!
//! Idleness is tracked by one counter of consecutive silent ticks; a pushed
//! packet is activity and resets it.  A buffer whose counter reaches
//! [`JB_GC_TICKS`] is removed by the owning mixer state.
use vstd::prelude::*;

use crate::{JB_GC_TICKS, JB_MAX_DEPTH, JB_PLC_GAP, JB_PREROLL, JB_REORDER_WINDOW,
    MAX_OPUS_FRAME_SIZE};
use crate::types::{BridgeError, PullStep, PushOutcome};

verus! {

/// How far `to` lies ahead of `from` on the 16-bit sequence circle, as a
/// value in `0 ..= 65535`.
pub open spec fn seq_ahead(from: u16, to: u16) -> int {
    if to >= from {
        to - from
    } else {
        to - from + 0x10000
    }
}

/// The sequence number after `s`, wrapping at 2^16.
pub open spec fn seq_next_spec(s: u16) -> u16 {
    if s == 0xffff {
        0u16
    } else {
        (s + 1) as u16
    }
}

/// The sequence number before `s`, wrapping at 2^16.
pub open spec fn seq_prev_spec(s: u16) -> u16 {
    if s == 0 {
        0xffffu16
    } else {
        (s - 1) as u16
    }
}

/// Computes [`seq_ahead`].
pub fn seq_distance(from: u16, to: u16) -> (r: u16)
    ensures
        r == seq_ahead(from, to),
{
    if to >= from {
        to - from
    } else {
        ((0x10000u32 - from as u32) + to as u32) as u16
    }
}

/// Computes [`seq_next_spec`].
pub fn seq_next(s: u16) -> (r: u16)
    ensures
        r == seq_next_spec(s),
{
    if s == 0xffff {
        0
    } else {
        s + 1
    }
}

/// Computes [`seq_prev_spec`].
pub fn seq_prev(s: u16) -> (r: u16)
    ensures
        r == seq_prev_spec(s),
{
    if s == 0 {
        0xffff
    } else {
        s - 1
    }
}

/// Advancing the base by one shortens every ahead-distance by one.
pub proof fn lemma_ahead_step(a: u16, b: u16)
    requires
        seq_ahead(a, b) >= 1,
    ensures
        seq_ahead(seq_next_spec(a), b) == seq_ahead(a, b) - 1,
{
}

/// Two sequence numbers at the same distance from one base are equal.
pub proof fn lemma_ahead_injective(l: u16, x: u16, y: u16)
    requires
        seq_ahead(l, x) == seq_ahead(l, y),
    ensures
        x == y,
{
}

/// Distance one ahead is exactly the successor.
pub proof fn lemma_ahead_one(a: u16, b: u16)
    ensures
        seq_ahead(a, b) == 1 <==> b == seq_next_spec(a),
{
}

/// One buffered payload.
pub struct JitterEntry {
    seq: u16,
    payload: Vec<u8>,
}

/// Mathematical image of one buffered payload.
pub ghost struct JitterEntryView {
    pub seq: u16,
    pub payload: Seq<u8>,
}

impl View for JitterEntry {
    type V = JitterEntryView;

    closed spec fn view(&self) -> JitterEntryView {
        JitterEntryView { seq: self.seq, payload: self.payload@ }
    }
}

/// Per-speaker reorder and smoothing queue.
pub struct JitterBuffer {
    entries: Vec<JitterEntry>,
    last_emitted: u16,
    started: bool,
    prerolling: bool,
    silent_run: u32,
    plc_run: u8,
}

/// Mathematical image of a jitter buffer: the buffered payloads ordered by
/// their distance ahead of the playout position, the playout position
/// itself, and the preroll, idleness and concealment counters.
pub ghost struct JbView {
    /// Buffered payloads, ordered by ascending [`seq_ahead`] distance from
    /// `last_emitted`.
    pub entries: Seq<JitterEntryView>,
    /// The sequence number of the frame emitted last (for a fresh stream,
    /// the predecessor of the first pushed sequence).
    pub last_emitted: u16,
    /// Whether any packet has been accepted yet.
    pub started: bool,
    /// Whether emission waits for [`JB_PREROLL`] buffered frames.
    pub prerolling: bool,
    /// Consecutive ticks that passed without emitting a decoded or concealed
    /// frame and without a packet arriving; saturates at [`JB_GC_TICKS`].
    pub silent_run: u32,
    /// Consecutive concealment emissions so far (either zero or one).
    pub plc_run: u8,
}

impl View for JitterBuffer {
    type V = JbView;

    closed spec fn view(&self) -> JbView {
        JbView {
            entries: self.entries@.map_values(|e: JitterEntry| e@),
            last_emitted: self.last_emitted,
            started: self.started,
            prerolling: self.prerolling,
            silent_run: self.silent_run,
            plc_run: self.plc_run,
        }
    }
}

/// A payload the bridge transports: non-empty and within the Opus bound.
pub open spec fn payload_ok(p: Seq<u8>) -> bool {
    0 < p.len() <= MAX_OPUS_FRAME_SIZE
}

/// The state of a buffer that has seen no packet.
pub open spec fn jb_fresh() -> JbView {
    JbView {
        entries: Seq::empty(),
        last_emitted: 0u16,
        started: false,
        prerolling: true,
        silent_run: 0u32,
        plc_run: 0u8,
    }
}

/// Well-formedness: bounded depth, every buffered sequence strictly inside
/// the reorder window ahead of the playout position, strictly sorted by
/// distance (hence duplicate-free), transportable payloads, and counters in
/// range.
pub open spec fn jb_wf(v: JbView) -> bool {
    &&& v.entries.len() <= JB_MAX_DEPTH
    &&& (!v.started ==> v.entries.len() == 0 && v.prerolling)
    &&& forall|i: int| 0 <= i < v.entries.len()
        ==> 1 <= seq_ahead(v.last_emitted, (#[trigger] v.entries[i]).seq) <= JB_REORDER_WINDOW
    &&& forall|i: int, j: int| 0 <= i < j < v.entries.len()
        ==> seq_ahead(v.last_emitted, (#[trigger] v.entries[i]).seq)
            < seq_ahead(v.last_emitted, (#[trigger] v.entries[j]).seq)
    &&& forall|i: int| 0 <= i < v.entries.len()
        ==> payload_ok((#[trigger] v.entries[i]).payload)
    &&& v.plc_run <= 1
    &&& v.silent_run <= JB_GC_TICKS
}

/// Whether sequence `s` is buffered.
pub open spec fn jb_has(v: JbView, s: u16) -> bool {
    exists|i: int| 0 <= i < v.entries.len() && (#[trigger] v.entries[i]).seq == s
}

/// The payload buffered for sequence `s` (meaningful only when `jb_has`).
pub open spec fn jb_payload(v: JbView, s: u16) -> Seq<u8> {
    let i = choose|i: int| 0 <= i < v.entries.len() && (#[trigger] v.entries[i]).seq == s;
    v.entries[i].payload
}

/// The silent-run counter after one more silent tick.
pub open spec fn inc_silent(u: u32) -> u32 {
    if u < JB_GC_TICKS {
        (u + 1) as u32
    } else {
        u
    }
}

/// What `push` did to the buffer, by the distance of the pushed sequence
/// from the playout position: first packet and in-window packets are stored
/// (dropping the oldest entry when the buffer is full), packets at or behind
/// the position are dropped as late, and packets outside the window on both
/// sides restart the stream at the pushed sequence.
/// The insert case of [`jb_push_post`]: the pushed payload is stored under
/// its sequence, every other buffered payload survives unchanged, except that
/// a full buffer first drops its oldest entry; the playout position and the
/// preroll and concealment state do not move, and the arrival counts as
/// activity.
pub open spec fn jb_insert_post(pre: JbView, post: JbView, seq: u16, payload: Seq<u8>) -> bool {
    let dropped = !jb_has(pre, seq) && pre.entries.len() == JB_MAX_DEPTH;
    &&& post.last_emitted == pre.last_emitted
    &&& post.started
    &&& post.prerolling == pre.prerolling
    &&& post.silent_run == 0
    &&& post.plc_run == pre.plc_run
    &&& jb_has(post, seq)
    &&& jb_payload(post, seq) == payload
    &&& forall|s: u16| s != seq ==> (#[trigger] jb_has(post, s)
        <==> (jb_has(pre, s) && !(dropped && s == pre.entries[0].seq)))
    &&& forall|s: u16| s != seq && #[trigger] jb_has(post, s)
        ==> jb_payload(post, s) == jb_payload(pre, s)
    &&& post.entries.len() == (if jb_has(pre, seq) {
        pre.entries.len() as int
    } else if dropped {
        JB_MAX_DEPTH as int
    } else {
        pre.entries.len() + 1 as int
    })
}

/// Inserting a sequence that is not yet buffered at its distance-ordered
/// position (after a full buffer dropped its oldest entry) yields a well
/// formed buffer and satisfies the insert case of the push contract.
#[verifier::rlimit(100)]
proof fn lemma_fresh_insert(
    pre: JbView,
    post: JbView,
    mids: Seq<JitterEntryView>,
    i: int,
    seq: u16,
    payload: Seq<u8>,
    dropped: bool,
)
    requires
        jb_wf(pre),
        pre.started,
        payload_ok(payload),
        !jb_has(pre, seq),
        1 <= seq_ahead(pre.last_emitted, seq) <= JB_REORDER_WINDOW,
        dropped == (pre.entries.len() == JB_MAX_DEPTH),
        mids == if dropped { pre.entries.skip(1) } else { pre.entries },
        0 <= i <= mids.len(),
        forall|m: int| 0 <= m < i ==> seq_ahead(pre.last_emitted, (#[trigger] mids[m]).seq)
            < seq_ahead(pre.last_emitted, seq),
        i < mids.len() ==> seq_ahead(pre.last_emitted, mids[i].seq)
            >= seq_ahead(pre.last_emitted, seq),
        post.entries == mids.insert(i, JitterEntryView { seq, payload }),
        post.last_emitted == pre.last_emitted,
        post.started,
        post.prerolling == pre.prerolling,
        post.silent_run == 0,
        post.plc_run == pre.plc_run,
    ensures
        jb_wf(post),
        jb_insert_post(pre, post, seq, payload),
{
    let last = pre.last_emitted;
    let a = seq_ahead(last, seq);
    let off: int = if dropped { 1 } else { 0 };
    assert forall|m: int| 0 <= m < mids.len() implies #[trigger] mids[m] == pre.entries[m + off]
        by {
        assert(pre.entries[m + off] == pre.entries[m + off]);
    }
    // No buffered entry sits at the new sequence's distance.
    assert forall|m: int| 0 <= m < mids.len() implies
        seq_ahead(last, (#[trigger] mids[m]).seq) != a by {
        if seq_ahead(last, mids[m].seq) == a {
            lemma_ahead_injective(last, mids[m].seq, seq);
            assert(pre.entries[m + off].seq == seq);
            assert(jb_has(pre, seq));
        }
    }
    // Everything at or past the insertion point is strictly farther ahead.
    assert forall|m: int| i <= m < mids.len() implies
        seq_ahead(last, (#[trigger] mids[m]).seq) > a by {
        if m > i {
            assert(seq_ahead(last, pre.entries[i + off].seq)
                < seq_ahead(last, pre.entries[m + off].seq));
        }
    }
    assert(post.entries[i] == JitterEntryView { seq, payload });
    assert(jb_has(post, seq));
    // Well-formedness of the result.
    assert forall|m: int, n: int| 0 <= m < n < post.entries.len() implies
        seq_ahead(last, (#[trigger] post.entries[m]).seq)
            < seq_ahead(last, (#[trigger] post.entries[n]).seq) by {
        if m < i { assert(post.entries[m] == mids[m]); }
        if m > i { assert(post.entries[m] == mids[m - 1]); }
        if n < i { assert(post.entries[n] == mids[n]); }
        if n > i { assert(post.entries[n] == mids[n - 1]); }
        if m > i && n > i {
            assert(seq_ahead(last, pre.entries[m - 1 + off].seq)
                < seq_ahead(last, pre.entries[n - 1 + off].seq));
        }
        if m < i && n < i {
            assert(seq_ahead(last, pre.entries[m + off].seq)
                < seq_ahead(last, pre.entries[n + off].seq));
        }
        if m < i && n > i {
            assert(seq_ahead(last, pre.entries[m + off].seq)
                <= seq_ahead(last, pre.entries[n - 1 + off].seq));
        }
    }
    assert forall|m: int| 0 <= m < post.entries.len() implies
        1 <= seq_ahead(last, (#[trigger] post.entries[m]).seq) <= JB_REORDER_WINDOW
            && payload_ok(post.entries[m].payload) by {
        if m < i { assert(post.entries[m] == mids[m]); }
        if m > i { assert(post.entries[m] == mids[m - 1]); }
    }
    // The contract's view of what is buffered afterwards.
    assert(jb_payload(post, seq) == payload) by {
        let k = choose|k: int| 0 <= k < post.entries.len()
            && (#[trigger] post.entries[k]).seq == seq;
        if k != i {
            let k2 = if k < i { k } else { k - 1 };
            assert(post.entries[k] == mids[k2]);
            assert(seq_ahead(last, mids[k2].seq) != a);
            lemma_ahead_injective(last, mids[k2].seq, seq);
        }
    }
    assert forall|s: u16| s != seq implies (jb_has(post, s)
        <==> (jb_has(pre, s) && !(dropped && s == pre.entries[0].seq))) by {
        if jb_has(post, s) {
            let k = choose|k: int| 0 <= k < post.entries.len()
                && (#[trigger] post.entries[k]).seq == s;
            let k2 = if k < i { k } else { k - 1 };
            assert(post.entries[k] == mids[k2]);
            assert(pre.entries[k2 + off].seq == s);
            assert(jb_has(pre, s));
            if dropped && s == pre.entries[0].seq {
                lemma_ahead_injective(last, pre.entries[k2 + 1].seq, pre.entries[0].seq);
            }
        }
        if jb_has(pre, s) && !(dropped && s == pre.entries[0].seq) {
            let k = choose|k: int| 0 <= k < pre.entries.len()
                && (#[trigger] pre.entries[k]).seq == s;
            if dropped && k == 0 {
                assert(s == pre.entries[0].seq);
            }
            let k2 = k - off;
            assert(mids[k2].seq == s);
            let k3 = if k2 < i { k2 } else { k2 + 1 };
            assert(post.entries[k3].seq == s);
            assert(jb_has(post, s));
        }
    }
    assert forall|s: u16| s != seq && #[trigger] jb_has(post, s) implies
        jb_payload(post, s) == jb_payload(pre, s) by {
        let k = choose|k: int| 0 <= k < post.entries.len()
            && (#[trigger] post.entries[k]).seq == s;
        let k2 = if k < i { k } else { k - 1 };
        assert(post.entries[k] == mids[k2]);
        assert(pre.entries[k2 + off] == post.entries[k]);
        let kc = choose|kc: int| 0 <= kc < pre.entries.len()
            && (#[trigger] pre.entries[kc]).seq == s;
        lemma_ahead_injective(last, pre.entries[k2 + off].seq, pre.entries[kc].seq);
        assert(kc == k2 + off);
    }
}

pub open spec fn jb_push_post(
    pre: JbView,
    post: JbView,
    seq: u16,
    payload: Seq<u8>,
    o: PushOutcome,
) -> bool {
    if !pre.started {
        &&& o == PushOutcome::Inserted
        &&& post.entries == seq![JitterEntryView { seq, payload }]
        &&& post.last_emitted == seq_prev_spec(seq)
        &&& post.started
        &&& post.prerolling == pre.prerolling
        &&& post.silent_run == 0
        &&& post.plc_run == pre.plc_run
    } else {
        let a = seq_ahead(pre.last_emitted, seq);
        if 1 <= a <= JB_REORDER_WINDOW {
            &&& o == PushOutcome::Inserted
            &&& jb_insert_post(pre, post, seq, payload)
        } else if a == 0 || 0x10000 - a <= JB_REORDER_WINDOW {
            &&& o == PushOutcome::Late
            &&& post == pre
        } else {
            &&& o == PushOutcome::Reset
            &&& post.entries == seq![JitterEntryView { seq, payload }]
            &&& post.last_emitted == seq_prev_spec(seq)
            &&& post.started
            &&& post.prerolling
            &&& post.silent_run == 0
            &&& post.plc_run == 0
        }
    }
}

/// What `pull` did, by the state of the buffer: silence while prerolling,
/// the next payload when it is buffered, concealment (at most one in a row,
/// then silence with a decoder reset) when the next payload is missing but a
/// near successor is buffered, and counted silence otherwise.  Every emitted
/// step advances the playout position by exactly one.
pub open spec fn jb_pull_post(pre: JbView, post: JbView, step: PullStep) -> bool {
    let next = seq_next_spec(pre.last_emitted);
    if pre.prerolling && pre.entries.len() < JB_PREROLL {
        &&& step matches PullStep::Silence { reset_decoder } && !reset_decoder
        &&& post == JbView { silent_run: inc_silent(pre.silent_run), ..pre }
    } else if pre.entries.len() > 0 && pre.entries[0].seq == next {
        &&& step matches PullStep::Frame { seq, payload } && seq == next
            && payload@ == pre.entries[0].payload
        &&& post == JbView {
            entries: pre.entries.skip(1),
            last_emitted: next,
            prerolling: false,
            silent_run: 0u32,
            plc_run: 0u8,
            ..pre
        }
    } else if pre.entries.len() > 0 && seq_ahead(pre.last_emitted, pre.entries[0].seq)
        <= JB_PLC_GAP {
        if pre.plc_run == 0 {
            &&& step matches PullStep::Conceal { seq } && seq == next
            &&& post == JbView {
                last_emitted: next,
                prerolling: false,
                silent_run: 0u32,
                plc_run: 1u8,
                ..pre
            }
        } else {
            &&& step matches PullStep::Silence { reset_decoder } && reset_decoder
            &&& post == JbView {
                last_emitted: next,
                prerolling: false,
                silent_run: 0u32,
                plc_run: 0u8,
                ..pre
            }
        }
    } else {
        &&& step matches PullStep::Silence { reset_decoder } && !reset_decoder
        &&& post == JbView {
            prerolling: false,
            silent_run: inc_silent(pre.silent_run),
            plc_run: 0u8,
            ..pre
        }
    }
}



/// The successor of the playout position, when buffered, sits at the front
/// of the distance-ordered buffer, so the next pull will emit it.
pub proof fn lemma_next_is_first(v: JbView, s: u16)
    requires
        jb_wf(v),
        jb_has(v, s),
        seq_ahead(v.last_emitted, s) == 1,
    ensures
        v.entries.len() > 0,
        v.entries[0].seq == s,
{
    let i = choose|i: int| 0 <= i < v.entries.len() && (#[trigger] v.entries[i]).seq == s;
    if i != 0 {
        assert(seq_ahead(v.last_emitted, v.entries[0].seq)
            < seq_ahead(v.last_emitted, v.entries[i].seq));
    }
}


/// In-order delivery end to end: a packet stored at the playout head is
/// what the next pull emits, payload intact, provided preroll is satisfied.
pub proof fn lemma_push_then_pull(
    pre: JbView,
    mid: JbView,
    post: JbView,
    seq: u16,
    payload: Seq<u8>,
    step: PullStep,
)
    requires
        jb_wf(pre),
        pre.started,
        jb_push_post(pre, mid, seq, payload, PushOutcome::Inserted),
        seq == seq_next_spec(pre.last_emitted),
        jb_wf(mid),
        !(mid.prerolling && mid.entries.len() < JB_PREROLL),
        jb_pull_post(mid, post, step),
    ensures
        step matches PullStep::Frame { seq: s, payload: p } && s == seq && p@ == payload,
{
    lemma_ahead_one(pre.last_emitted, seq);
    lemma_next_is_first(mid, seq);
    assert(jb_payload(mid, seq) == mid.entries[0].payload) by {
        let k = choose|k: int| 0 <= k < mid.entries.len() && (#[trigger] mid.entries[k]).seq
            == seq;
        if k != 0 {
            assert(seq_ahead(mid.last_emitted, mid.entries[0].seq)
                < seq_ahead(mid.last_emitted, mid.entries[k].seq));
        }
    }
}

/// Ordering: an emitting pull (a decoded or concealed frame) always carries
/// the successor of the playout position and advances the position to it.
pub proof fn lemma_pull_emits_in_order(pre: JbView, post: JbView, step: PullStep)
    requires
        jb_pull_post(pre, post, step),
    ensures
        step matches PullStep::Frame { seq, .. }
            ==> seq == seq_next_spec(pre.last_emitted) && post.last_emitted == seq,
        step matches PullStep::Conceal { seq }
            ==> seq == seq_next_spec(pre.last_emitted) && post.last_emitted == seq,
{
}

/// Ordering: over two consecutive emitting pulls the emitted sequence
/// numbers are strictly increasing modulo 2^16, by exactly one.
pub proof fn lemma_consecutive_emissions(
    s0: JbView,
    s1: JbView,
    s2: JbView,
    st1: PullStep,
    st2: PullStep,
    e1: u16,
    e2: u16,
)
    requires
        jb_pull_post(s0, s1, st1),
        jb_pull_post(s1, s2, st2),
        (st1 matches PullStep::Frame { seq, .. } && seq == e1)
            || (st1 matches PullStep::Conceal { seq } && seq == e1),
        (st2 matches PullStep::Frame { seq, .. } && seq == e2)
            || (st2 matches PullStep::Conceal { seq } && seq == e2),
    ensures
        e2 == seq_next_spec(e1),
        seq_ahead(e1, e2) == 1,
{
    lemma_pull_emits_in_order(s0, s1, st1);
    lemma_pull_emits_in_order(s1, s2, st2);
}

/// The playout position never regresses on a push: only a stream reset
/// moves it, and dropping the oldest frame on overflow leaves it alone.
pub proof fn lemma_push_never_regresses(
    pre: JbView,
    post: JbView,
    seq: u16,
    payload: Seq<u8>,
    o: PushOutcome,
)
    requires
        pre.started,
        jb_push_post(pre, post, seq, payload, o),
        o != PushOutcome::Reset,
    ensures
        post.last_emitted == pre.last_emitted,
{
}

impl JitterBuffer {
    /// A buffer that has seen no packet yet.
    pub fn new() -> (r: JitterBuffer)
        ensures
            r@ == jb_fresh(),
            jb_wf(r@),
    {
        let r = JitterBuffer {
            entries: Vec::new(),
            last_emitted: 0,
            started: false,
            prerolling: true,
            silent_run: 0,
            plc_run: 0,
        };
        proof {
            assert(r@.entries =~= Seq::<JitterEntryView>::empty());
            assert(r@ =~= jb_fresh());
        }
        r
    }

    /// Number of buffered payloads.
    pub fn depth(&self) -> (r: usize)
        ensures
            r == self@.entries.len(),
    {
        self.entries.len()
    }

    /// Whether the buffer has been silent for at least [`JB_IDLE_TICKS`]
    /// consecutive ticks.
    ///
    /// [`JB_IDLE_TICKS`]: crate::JB_IDLE_TICKS
    pub fn is_idle(&self) -> (r: bool)
        ensures
            r == (self@.silent_run >= crate::JB_IDLE_TICKS),
    {
        self.silent_run >= crate::JB_IDLE_TICKS
    }

    /// Whether the owning mixer state should remove this buffer.
    pub fn is_expired(&self) -> (r: bool)
        ensures
            r == (self@.silent_run >= JB_GC_TICKS),
    {
        self.silent_run >= JB_GC_TICKS
    }

    /// Stores one packet, as [`jb_push_post`] describes.  Rejects payloads
    /// that are empty or beyond the Opus bound without touching the buffer.
    pub fn push(&mut self, seq: u16, payload: Vec<u8>) -> (r: Result<PushOutcome, BridgeError>)
        requires
            jb_wf(old(self)@),
        ensures
            jb_wf(final(self)@),
            r is Ok <==> payload_ok(payload@),
            r is Err ==> final(self)@ == old(self)@
                && r == Err::<PushOutcome, BridgeError>(BridgeError::MalformedPacket),
            r matches Ok(o) ==> jb_push_post(old(self)@, final(self)@, seq, payload@, o),
    {
        if payload.len() == 0 || payload.len() > MAX_OPUS_FRAME_SIZE {
            return Err(BridgeError::MalformedPacket);
        }
        if !self.started {
            self.started = true;
            self.last_emitted = seq_prev(seq);
            self.entries.push(JitterEntry { seq, payload });
            self.silent_run = 0;
            proof {
                assert(self@.entries =~= seq![JitterEntryView { seq, payload: payload@ }]);
                assert(seq_ahead(seq_prev_spec(seq), seq) == 1);
            }
            return Ok(PushOutcome::Inserted);
        }
        let a = seq_distance(self.last_emitted, seq);
        if 1 <= a && a <= JB_REORDER_WINDOW {
            let o = self.insert_in_window(seq, payload, a);
            return Ok(o);
        }
        if a == 0 || (0x10000u32 - a as u32) <= JB_REORDER_WINDOW as u32 {
            return Ok(PushOutcome::Late);
        }
        // Out of the window on both sides: restart the stream here.
        self.entries.clear();
        self.last_emitted = seq_prev(seq);
        self.entries.push(JitterEntry { seq, payload });
        self.prerolling = true;
        self.silent_run = 0;
        self.plc_run = 0;
        proof {
            assert(self@.entries =~= seq![JitterEntryView { seq, payload: payload@ }]);
            assert(seq_ahead(seq_prev_spec(seq), seq) == 1);
        }
        Ok(PushOutcome::Reset)
    }

    /// In-window insertion: overwrites a duplicate, otherwise inserts in
    /// distance order, dropping the oldest entry first when the buffer is
    /// full.
    fn insert_in_window(&mut self, seq: u16, payload: Vec<u8>, a: u16) -> (o: PushOutcome)
        requires
            jb_wf(old(self)@),
            old(self)@.started,
            payload_ok(payload@),
            a == seq_ahead(old(self)@.last_emitted, seq),
            1 <= a <= JB_REORDER_WINDOW,
        ensures
            o == PushOutcome::Inserted,
            jb_wf(final(self)@),
            jb_push_post(old(self)@, final(self)@, seq, payload@, o),
    {
        let ghost pre = self@;
        // Look for a duplicate.
        let mut j: usize = 0;
        while j < self.entries.len() && self.entries[j].seq != seq
            invariant
                0 <= j <= self.entries.len(),
                forall|m: int| 0 <= m < j ==> (#[trigger] self@.entries[m]).seq != seq,
                self@ == pre,
            decreases self.entries.len() - j,
        {
            j = j + 1;
        }
        if j < self.entries.len() {
            self.overwrite_duplicate(j, seq, payload);
        } else {
            proof {
                assert(!jb_has(pre, seq));
            }
            self.insert_fresh(seq, payload, a);
        }
        PushOutcome::Inserted
    }

    /// Replaces the payload already buffered under `seq`.
    fn overwrite_duplicate(&mut self, j: usize, seq: u16, payload: Vec<u8>)
        requires
            jb_wf(old(self)@),
            old(self)@.started,
            payload_ok(payload@),
            j < old(self)@.entries.len(),
            old(self)@.entries[j as int].seq == seq,
        ensures
            jb_wf(final(self)@),
            jb_insert_post(old(self)@, final(self)@, seq, payload@),
    {
        let ghost pre = self@;
        proof {
            assert(jb_has(pre, seq));
        }
        self.entries.remove(j);
        self.entries.insert(j, JitterEntry { seq, payload });
        self.silent_run = 0;
        proof {
            let post = self@;
            let last = pre.last_emitted;
            assert(post.entries =~= pre.entries.update(j as int,
                JitterEntryView { seq, payload: payload@ }));
            assert(post.entries[j as int].seq == seq);
            assert(jb_has(post, seq));
            assert(jb_payload(post, seq) == payload@) by {
                let i = choose|i: int| 0 <= i < post.entries.len()
                    && (#[trigger] post.entries[i]).seq == seq;
                if i != j as int {
                    assert(pre.entries[i].seq == seq);
                    lemma_ahead_injective(last, pre.entries[i].seq, pre.entries[j as int].seq);
                }
            }
            assert forall|s: u16| s != seq implies
                (jb_has(post, s) <==> jb_has(pre, s)) by {
                if jb_has(post, s) {
                    let i = choose|i: int| 0 <= i < post.entries.len()
                        && (#[trigger] post.entries[i]).seq == s;
                    assert(pre.entries[i].seq == s);
                }
                if jb_has(pre, s) {
                    let i = choose|i: int| 0 <= i < pre.entries.len()
                        && (#[trigger] pre.entries[i]).seq == s;
                    assert(i != j as int);
                    assert(post.entries[i].seq == s);
                }
            }
            assert forall|s: u16| s != seq && #[trigger] jb_has(post, s) implies
                jb_payload(post, s) == jb_payload(pre, s) by {
                let i = choose|i: int| 0 <= i < post.entries.len()
                    && (#[trigger] post.entries[i]).seq == s;
                let i2 = choose|i2: int| 0 <= i2 < pre.entries.len()
                    && (#[trigger] pre.entries[i2]).seq == s;
                assert(pre.entries[i].seq == s);
                lemma_ahead_injective(last, pre.entries[i].seq, pre.entries[i2].seq);
                assert(i == i2);
            }
        }
    }

    /// Inserts a sequence that is not yet buffered, keeping distance order
    /// and dropping the oldest entry first when the buffer is full.
    fn insert_fresh(&mut self, seq: u16, payload: Vec<u8>, a: u16)
        requires
            jb_wf(old(self)@),
            old(self)@.started,
            payload_ok(payload@),
            !jb_has(old(self)@, seq),
            a == seq_ahead(old(self)@.last_emitted, seq),
            1 <= a <= JB_REORDER_WINDOW,
        ensures
            jb_wf(final(self)@),
            jb_insert_post(old(self)@, final(self)@, seq, payload@),
    {
        let ghost pre = self@;
        let last = self.last_emitted;
        let ghost dropped = pre.entries.len() == JB_MAX_DEPTH;
        if self.entries.len() == JB_MAX_DEPTH {
            self.entries.remove(0);
        }
        let ghost mids = self@.entries;
        proof {
            if dropped {
                assert(mids =~= pre.entries.skip(1));
            } else {
                assert(mids =~= pre.entries);
            }
        }
        // Find the insertion position: the first entry farther ahead.
        let mut i: usize = 0;
        while i < self.entries.len() && seq_distance(last, self.entries[i].seq) < a
            invariant
                0 <= i <= self.entries.len(),
                self@.entries == mids,
                last == pre.last_emitted,
                forall|m: int| 0 <= m < i
                    ==> seq_ahead(last, (#[trigger] mids[m]).seq) < a,
            decreases self.entries.len() - i,
        {
            i = i + 1;
        }
        let ghost pos_bound = i as int;
        proof {
            assert(i < mids.len() ==> seq_ahead(last, mids[pos_bound].seq) >= a);
        }
        self.entries.insert(i, JitterEntry { seq, payload });
        self.silent_run = 0;
        proof {
            assert(self@.entries =~= mids.insert(pos_bound,
                JitterEntryView { seq, payload: payload@ }));
            lemma_fresh_insert(pre, self@, mids, pos_bound, seq, payload@, dropped);
        }
    }

    /// Decides what this tick emits, as [`jb_pull_post`] describes.
    pub fn pull(&mut self) -> (step: PullStep)
        requires
            jb_wf(old(self)@),
        ensures
            jb_wf(final(self)@),
            jb_pull_post(old(self)@, final(self)@, step),
    {
        let ghost pre = self@;
        if self.prerolling && self.entries.len() < JB_PREROLL {
            if self.silent_run < JB_GC_TICKS {
                self.silent_run = self.silent_run + 1;
            }
            proof {
                assert(final(self)@ == JbView { silent_run: inc_silent(pre.silent_run), ..pre });
            }
            return PullStep::Silence { reset_decoder: false };
        }
        self.prerolling = false;
        let next = seq_next(self.last_emitted);
        if self.entries.len() > 0 {
            let d0 = seq_distance(self.last_emitted, self.entries[0].seq);
            if d0 == 1 {
                proof {
                    lemma_ahead_one(pre.last_emitted, pre.entries[0].seq);
                }
                let e = self.entries.remove(0);
                self.last_emitted = next;
                self.silent_run = 0;
                self.plc_run = 0;
                proof {
                    assert(self@.entries =~= pre.entries.skip(1));
                    assert forall|m: int| 0 <= m < self@.entries.len() implies
                        1 <= seq_ahead(next, (#[trigger] self@.entries[m]).seq)
                            <= JB_REORDER_WINDOW by {
                        assert(self@.entries[m] == pre.entries[m + 1]);
                        lemma_ahead_step(pre.last_emitted, pre.entries[m + 1].seq);
                    }
                    assert forall|m: int, n: int| 0 <= m < n < self@.entries.len() implies
                        seq_ahead(next, (#[trigger] self@.entries[m]).seq)
                            < seq_ahead(next, (#[trigger] self@.entries[n]).seq) by {
                        assert(self@.entries[m] == pre.entries[m + 1]);
                        assert(self@.entries[n] == pre.entries[n + 1]);
                        lemma_ahead_step(pre.last_emitted, pre.entries[m + 1].seq);
                        lemma_ahead_step(pre.last_emitted, pre.entries[n + 1].seq);
                    }
                }
                return PullStep::Frame { seq: e.seq, payload: e.payload };
            }
            if d0 <= JB_PLC_GAP {
                self.last_emitted = next;
                self.silent_run = 0;
                proof {
                    assert(seq_ahead(pre.last_emitted, pre.entries[0].seq) >= 2);
                    assert forall|m: int| 0 <= m < self@.entries.len() implies
                        1 <= seq_ahead(next, (#[trigger] self@.entries[m]).seq)
                            <= JB_REORDER_WINDOW by {
                        assert(self@.entries[m] == pre.entries[m]);
                        if m > 0 {
                            assert(seq_ahead(pre.last_emitted, pre.entries[0].seq)
                                < seq_ahead(pre.last_emitted, pre.entries[m].seq));
                        }
                        lemma_ahead_step(pre.last_emitted, pre.entries[m].seq);
                    }
                    assert forall|m: int, n: int| 0 <= m < n < self@.entries.len() implies
                        seq_ahead(next, (#[trigger] self@.entries[m]).seq)
                            < seq_ahead(next, (#[trigger] self@.entries[n]).seq) by {
                        lemma_ahead_step(pre.last_emitted, pre.entries[m].seq);
                        lemma_ahead_step(pre.last_emitted, pre.entries[n].seq);
                    }
                }
                if self.plc_run == 0 {
                    self.plc_run = 1;
                    return PullStep::Conceal { seq: next };
                }
                self.plc_run = 0;
                return PullStep::Silence { reset_decoder: true };
            }
        }
        if self.silent_run < JB_GC_TICKS {
            self.silent_run = self.silent_run + 1;
        }
        self.plc_run = 0;
        proof {
            assert(final(self)@ == JbView {
                prerolling: false,
                silent_run: inc_silent(pre.silent_run),
                plc_run: 0u8,
                ..pre
            });
        }
        PullStep::Silence { reset_decoder: false }
    }
}

} // verus!
