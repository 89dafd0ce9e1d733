//! Per-stream and per-session Yamux state: flow-control windows, the queue
//! of frames waiting for window credit, the undrained incoming byte buffer,
//! and the termination flag.

use std::collections::BTreeMap;
use std::collections::VecDeque;
use vstd::prelude::*;

use crate::yamux::frame::{
    decode_frame, frame_v_len, frames_view, spec_decode_frame, SpecParseOutcome, StreamId,
    YamuxFlags, YamuxFrame, YamuxFrameDecode, YamuxFrameInnerV, YamuxFrameParseError, YamuxFrameV,
    YamuxSessionError, YamuxTerminated,
};

verus! {

/// Default flow-control window for a new stream: 256 KiB of credit in each
/// direction.
pub const INITIAL_WINDOW: u32 = 262144;

/// Receive-window level below which the session proactively grants the
/// remote more credit (64 KiB).
pub const WINDOW_REFILL_THRESHOLD: u32 = 65536;

/// Credit granted in one proactive window refill (256 KiB).
pub const WINDOW_REFILL_AMOUNT: i32 = 262144;

/// State of one logical stream within a Yamux session.
#[derive(Debug)]
pub struct YamuxStreamState {
    /// True if the remote side opened the stream.
    pub incoming: bool,
    pub syn_sent: bool,
    pub established: bool,
    pub writable: bool,
    /// Credits granted to the remote: it may send up to this many more
    /// payload bytes.
    pub window_ours: u32,
    /// Credits the remote has granted the local side.
    pub window_theirs: u32,
    /// Frames queued because `window_theirs` was insufficient.
    pub pending: VecDeque<YamuxFrame>,
}

impl Default for YamuxStreamState {
    /// A locally opened stream with fresh default windows and nothing
    /// queued.
    fn default() -> (r: YamuxStreamState)
        ensures
            r.incoming == false,
            r.syn_sent == false,
            r.established == false,
            r.writable == true,
            r.window_ours == INITIAL_WINDOW,
            r.window_theirs == INITIAL_WINDOW,
            r.pending@.len() == 0,
    {
        YamuxStreamState {
            incoming: false,
            syn_sent: false,
            established: false,
            writable: true,
            window_ours: INITIAL_WINDOW,
            window_theirs: INITIAL_WINDOW,
            pending: VecDeque::new(),
        }
    }
}

impl YamuxStreamState {
    /// A stream opened by the remote side.
    pub fn incoming() -> (r: YamuxStreamState)
        ensures
            r.incoming == true,
            r.syn_sent == false,
            r.established == false,
            r.writable == true,
            r.window_ours == INITIAL_WINDOW,
            r.window_theirs == INITIAL_WINDOW,
            r.pending@.len() == 0,
    {
        YamuxStreamState {
            incoming: true,
            syn_sent: false,
            established: false,
            writable: true,
            window_ours: INITIAL_WINDOW,
            window_theirs: INITIAL_WINDOW,
            pending: VecDeque::new(),
        }
    }

    /// Applies a signed window delta to one of the two windows: `ours`
    /// selects the receive window, otherwise the send window. A negative
    /// delta saturates at zero — subtraction never yields a negative view —
    /// and a positive delta wraps modulo 2^32.
    pub fn update_window(&mut self, ours: bool, difference: i32)
        ensures
            ({
                let w0: int = if ours {
                    old(self).window_ours as int
                } else {
                    old(self).window_theirs as int
                };
                let w1: int = if ours {
                    final(self).window_ours as int
                } else {
                    final(self).window_theirs as int
                };
                if difference < 0 {
                    w1 == (if w0 + difference < 0 {
                        0int
                    } else {
                        w0 + difference
                    })
                } else {
                    w1 == (w0 + difference) % 0x1_0000_0000
                }
            }),
            ours ==> final(self).window_theirs == old(self).window_theirs,
            !ours ==> final(self).window_ours == old(self).window_ours,
            final(self).incoming == old(self).incoming,
            final(self).syn_sent == old(self).syn_sent,
            final(self).established == old(self).established,
            final(self).writable == old(self).writable,
            final(self).pending == old(self).pending,
    {
        let w0: u32 = if ours {
            self.window_ours
        } else {
            self.window_theirs
        };
        let w1: u32 = if difference < 0 {
            let decreasing: u32 = (-(difference as i64)) as u32;
            if w0 < decreasing {
                0
            } else {
                w0 - decreasing
            }
        } else {
            (((w0 as u64) + (difference as u64)) % 0x1_0000_0000u64) as u32
        };
        if ours {
            self.window_ours = w1;
        } else {
            self.window_theirs = w1;
        }
    }
}

/// Mathematical model of one stream's state.
#[verifier::ext_equal]
pub struct YamuxStreamStateV {
    pub incoming: bool,
    pub syn_sent: bool,
    pub established: bool,
    pub writable: bool,
    pub window_ours: u32,
    pub window_theirs: u32,
    pub pending: Seq<YamuxFrameV>,
}

impl View for YamuxStreamState {
    type V = YamuxStreamStateV;

    open spec fn view(&self) -> YamuxStreamStateV {
        YamuxStreamStateV {
            incoming: self.incoming,
            syn_sent: self.syn_sent,
            established: self.established,
            writable: self.writable,
            window_ours: self.window_ours,
            window_theirs: self.window_theirs,
            pending: frames_view(self.pending@),
        }
    }
}

/// Model of a fresh locally opened stream.
pub open spec fn stream_v_default() -> YamuxStreamStateV {
    YamuxStreamStateV {
        incoming: false,
        syn_sent: false,
        established: false,
        writable: true,
        window_ours: INITIAL_WINDOW,
        window_theirs: INITIAL_WINDOW,
        pending: Seq::empty(),
    }
}

/// Model of a fresh remotely opened stream.
pub open spec fn stream_v_incoming() -> YamuxStreamStateV {
    YamuxStreamStateV { incoming: true, ..stream_v_default() }
}

/// The models of a stream table.
pub open spec fn streams_map_view(m: Map<StreamId, YamuxStreamState>) -> Map<
    StreamId,
    YamuxStreamStateV,
> {
    m.map_values(|s: YamuxStreamState| s@)
}

pub proof fn lemma_streams_map_view_insert(
    m: Map<StreamId, YamuxStreamState>,
    k: StreamId,
    v: YamuxStreamState,
)
    ensures
        streams_map_view(m.insert(k, v)) =~= streams_map_view(m).insert(k, v@),
{
}

pub proof fn lemma_streams_map_view_remove(m: Map<StreamId, YamuxStreamState>, k: StreamId)
    ensures
        streams_map_view(m.remove(k)) =~= streams_map_view(m).remove(k),
{
}

/// Total payload bytes across a queue of pending frames.
pub open spec fn spec_pending_total(q: Seq<YamuxFrame>) -> int
    decreases q.len(),
{
    if q.len() == 0 {
        0
    } else {
        q[0].spec_len() + spec_pending_total(q.drop_first())
    }
}

pub proof fn lemma_pending_total_push(q: Seq<YamuxFrame>, f: YamuxFrame)
    ensures
        spec_pending_total(q.push(f)) == spec_pending_total(q) + f.spec_len(),
    decreases q.len(),
{
    if q.len() == 0 {
        assert(q.push(f).drop_first() =~= q);
    } else {
        assert(q.push(f).drop_first() =~= q.drop_first().push(f));
        lemma_pending_total_push(q.drop_first(), f);
    }
}

/// The total over a queue splits at any position into the totals of the
/// prefix and the suffix.
pub proof fn lemma_pending_total_split(q: Seq<YamuxFrame>, i: int)
    requires
        0 <= i <= q.len(),
    ensures
        spec_pending_total(q) == spec_pending_total(q.take(i)) + spec_pending_total(q.skip(i)),
    decreases i,
{
    if i == 0 {
        assert(q.take(0) =~= Seq::<YamuxFrame>::empty());
        assert(q.skip(0) =~= q);
    } else {
        lemma_pending_total_split(q.drop_first(), i - 1);
        assert(q.take(i).drop_first() =~= q.drop_first().take(i - 1));
        assert(q.skip(i) =~= q.drop_first().skip(i - 1));
        assert(q.take(i)[0] == q[0]);
        assert(spec_pending_total(q.take(i)) == q[0].spec_len() + spec_pending_total(
            q.drop_first().take(i - 1),
        ));
    }
}

pub proof fn lemma_pending_total_nonneg(q: Seq<YamuxFrame>)
    ensures
        spec_pending_total(q) >= 0,
    decreases q.len(),
{
    if q.len() > 0 {
        lemma_pending_total_nonneg(q.drop_first());
    }
}

/// Total payload bytes across a queue of frame models.
pub open spec fn spec_pending_total_v(q: Seq<YamuxFrameV>) -> int
    decreases q.len(),
{
    if q.len() == 0 {
        0
    } else {
        frame_v_len(q[0]) + spec_pending_total_v(q.drop_first())
    }
}

pub proof fn lemma_pending_total_view(q: Seq<YamuxFrame>)
    ensures
        spec_pending_total_v(frames_view(q)) == spec_pending_total(q),
    decreases q.len(),
{
    if q.len() > 0 {
        assert(frames_view(q).drop_first() =~= frames_view(q.drop_first()));
        lemma_pending_total_view(q.drop_first());
    }
}

pub proof fn lemma_pending_total_v_push(q: Seq<YamuxFrameV>, f: YamuxFrameV)
    ensures
        spec_pending_total_v(q.push(f)) == spec_pending_total_v(q) + frame_v_len(f),
    decreases q.len(),
{
    if q.len() == 0 {
        assert(q.push(f).drop_first() =~= q);
    } else {
        assert(q.push(f).drop_first() =~= q.drop_first().push(f));
        lemma_pending_total_v_push(q.drop_first(), f);
    }
}

pub proof fn lemma_pending_total_v_nonneg(q: Seq<YamuxFrameV>)
    ensures
        spec_pending_total_v(q) >= 0,
    decreases q.len(),
{
    if q.len() > 0 {
        lemma_pending_total_v_nonneg(q.drop_first());
    }
}

/// The prefix of a split Data frame: the first `w` payload bytes, under the
/// frame's own flags.
pub open spec fn spec_split_prefix(f: YamuxFrameV, w: int) -> YamuxFrameV
    recommends
        f.inner is Data,
{
    YamuxFrameV {
        inner: YamuxFrameInnerV::Data(spec_frame_data(f).take(w)),
        ..f
    }
}

/// The suffix of a split Data frame: the rest of the payload, inheriting
/// the flags except SYN and ACK.
pub open spec fn spec_split_suffix(f: YamuxFrameV, w: int) -> YamuxFrameV
    recommends
        f.inner is Data,
{
    YamuxFrameV {
        flags: YamuxFlags { syn: false, ack: false, fin: f.flags.fin, rst: f.flags.rst },
        stream_id: f.stream_id,
        inner: YamuxFrameInnerV::Data(spec_frame_data(f).skip(w)),
    }
}

/// Payload of a Data frame model.
pub open spec fn spec_frame_data(f: YamuxFrameV) -> Seq<u8> {
    match f.inner {
        YamuxFrameInnerV::Data(d) => d,
        _ => Seq::empty(),
    }
}

/// What a window grant releases from the head of the pending queue: as
/// many whole frames as the credit admits, in order, and, if the next
/// frame exceeds what is left, its prefix — the suffix stays queued at the
/// front.
pub struct SpecDrain {
    pub sent: Seq<YamuxFrameV>,
    pub remaining: Seq<YamuxFrameV>,
}

pub open spec fn spec_drain(pending: Seq<YamuxFrameV>, window: int) -> SpecDrain
    decreases pending.len(),
{
    if pending.len() == 0 {
        SpecDrain { sent: Seq::empty(), remaining: Seq::empty() }
    } else {
        let f = pending[0];
        let len = frame_v_len(f);
        if len <= window {
            let rest = spec_drain(pending.drop_first(), window - len);
            SpecDrain { sent: seq![f] + rest.sent, remaining: rest.remaining }
        } else {
            SpecDrain {
                sent: seq![spec_split_prefix(f, window)],
                remaining: seq![spec_split_suffix(f, window)] + pending.drop_first(),
            }
        }
    }
}

/// Pops frames off the head of `pending` into `out` while `window` credit
/// admits them whole; a frame that does not fit is split, its prefix sent
/// and its suffix pushed back at the front.
pub fn drain_pending(pending: &mut VecDeque<YamuxFrame>, window: u32, out: &mut VecDeque<
    YamuxFrame,
>)
    ensures
        ({
            let d = spec_drain(frames_view(old(pending)@), window as int);
            &&& frames_view(final(out)@) == frames_view(old(out)@) + d.sent
            &&& frames_view(final(pending)@) == d.remaining
        }),
{
    let ghost q0 = frames_view(old(pending)@);
    let ghost w0 = window as int;
    let ghost out0 = frames_view(old(out)@);
    let mut credit: u32 = window;
    loop
        invariant
            q0 == frames_view(old(pending)@),
            w0 == window as int,
            out0 == frames_view(old(out)@),
            ({
                let d0 = spec_drain(q0, w0);
                let d = spec_drain(frames_view(pending@), credit as int);
                &&& frames_view(out@) + d.sent == out0 + d0.sent
                &&& d.remaining == d0.remaining
            }),
        decreases pending@.len(),
    {
        let ghost cur = frames_view(pending@);
        let ghost curw = credit as int;
        match pending.pop_front() {
            None => {
                proof {
                    assert(frames_view(pending@) =~= Seq::<YamuxFrameV>::empty());
                    assert(spec_drain(cur, curw).sent =~= Seq::<YamuxFrameV>::empty());
                    assert(spec_drain(cur, curw).remaining =~= Seq::<YamuxFrameV>::empty());
                    assert(frames_view(out@) + Seq::<YamuxFrameV>::empty() =~= frames_view(out@));
                }
                return ;
            },
            Some(mut frame) => {
                proof {
                    assert(cur[0] == frame@);
                    assert(frames_view(pending@) =~= cur.drop_first());
                }
                let len = frame.len();
                if len as u64 <= credit as u64 {
                    let ghost pre_out = frames_view(out@);
                    out.push_back(frame);
                    proof {
                        assert(frames_view(out@) =~= pre_out.push(cur[0]));
                        assert(pre_out.push(cur[0]) =~= pre_out + seq![cur[0]]);
                        let rest = spec_drain(cur.drop_first(), curw - frame_v_len(cur[0]));
                        assert(pre_out + (seq![cur[0]] + rest.sent) =~= (pre_out + seq![cur[0]])
                            + rest.sent);
                    }
                    credit = credit - (len as u32);
                } else {
                    // `len > window`, so the frame is Data and the split
                    // point is strictly inside the payload.
                    let ghost pre_out = frames_view(out@);
                    let suffix = match frame.split_at(credit as usize) {
                        Some(s) => s,
                        None => {
                            // unreachable: a frame longer than the window
                            // has a Data payload longer than `window`
                            proof {
                                assert(false);
                            }
                            return ;
                        },
                    };
                    pending.push_front(suffix);
                    out.push_back(frame);
                    proof {
                        assert(frame@ =~= spec_split_prefix(cur[0], curw));
                        assert(suffix@ =~= spec_split_suffix(cur[0], curw));
                        assert(frames_view(out@) =~= pre_out + seq![spec_split_prefix(
                            cur[0],
                            curw,
                        )]);
                        assert(frames_view(pending@) =~= seq![spec_split_suffix(cur[0], curw)]
                            + cur.drop_first());
                        assert(spec_drain(cur, curw).sent =~= seq![spec_split_prefix(
                            cur[0],
                            curw,
                        )]);
                        assert(spec_drain(cur, curw).remaining =~= seq![spec_split_suffix(
                            cur[0],
                            curw,
                        )] + cur.drop_first());
                        assert(frames_view(out@) =~= out0 + spec_drain(q0, w0).sent);
                    }
                    return ;
                }
            },
        }
    }
}

/// The whole effect of draining one buffer of bytes: the frames parsed off
/// its head in order, how many bytes they consumed, and the termination, if
/// any, that a parse error, an oversize Data header or nothing at all
/// produced.
pub struct SpecIngest {
    pub frames: Seq<YamuxFrameV>,
    pub consumed: int,
    pub terminated: Option<YamuxTerminated>,
}

/// Parses frames repeatedly from the head of `b` until the bytes run out,
/// a header is malformed, or a Data header exceeds `limit`.
pub open spec fn spec_ingest(b: Seq<u8>, limit: int) -> SpecIngest
    decreases b.len(),
{
    match spec_decode_frame(b, limit) {
        SpecParseOutcome::Parsed { frame, consumed } => {
            if 12 <= consumed <= b.len() {
                let rest = spec_ingest(b.skip(consumed), limit);
                SpecIngest {
                    frames: seq![frame] + rest.frames,
                    consumed: consumed + rest.consumed,
                    terminated: rest.terminated,
                }
            } else {
                SpecIngest { frames: Seq::empty(), consumed: 0, terminated: None }
            }
        },
        SpecParseOutcome::Incomplete => SpecIngest {
            frames: Seq::empty(),
            consumed: 0,
            terminated: None,
        },
        SpecParseOutcome::Oversize => SpecIngest {
            frames: Seq::empty(),
            consumed: 0,
            terminated: Some(Ok(Err(YamuxSessionError::Internal))),
        },
        SpecParseOutcome::Error(e) => SpecIngest {
            frames: Seq::empty(),
            consumed: 0,
            terminated: Some(Err(e)),
        },
    }
}

/// State of one Yamux session over a connection.
#[derive(Debug)]
pub struct P2pNetworkYamuxState {
    /// Undrained incoming prefix not yet forming a complete frame.
    pub buffer: Vec<u8>,
    /// Frames parsed but not yet dispatched.
    pub incoming: VecDeque<YamuxFrame>,
    /// Per-stream state, by stream id.
    pub streams: BTreeMap<StreamId, YamuxStreamState>,
    /// Once set, the session refuses further work.
    pub terminated: Option<YamuxTerminated>,
    /// Largest accepted Data payload; a header claiming more closes the
    /// session with an Internal error.
    pub message_size_limit: usize,
    /// Ceiling on the total bytes queued across pending frames before a
    /// queue overflow is raised.
    pub pending_outgoing_limit: usize,
}

impl P2pNetworkYamuxState {
    pub fn new(message_size_limit: usize, pending_outgoing_limit: usize) -> (r:
        P2pNetworkYamuxState)
        ensures
            r.buffer@.len() == 0,
            r.incoming@.len() == 0,
            r.streams@ == Map::<StreamId, YamuxStreamState>::empty(),
            r.terminated is None,
            r.message_size_limit == message_size_limit,
            r.pending_outgoing_limit == pending_outgoing_limit,
    {
        P2pNetworkYamuxState {
            buffer: Vec::new(),
            incoming: VecDeque::new(),
            streams: BTreeMap::new(),
            terminated: None,
            message_size_limit,
            pending_outgoing_limit,
        }
    }

    /// Records a frame parse error; the session is terminated by it.
    pub fn set_err(&mut self, err: YamuxFrameParseError)
        ensures
            final(self).terminated == Some(Err::<Result<(), YamuxSessionError>,
                YamuxFrameParseError,
            >(err)),
            final(self).buffer == old(self).buffer,
            final(self).incoming == old(self).incoming,
            final(self).streams == old(self).streams,
            final(self).message_size_limit == old(self).message_size_limit,
            final(self).pending_outgoing_limit == old(self).pending_outgoing_limit,
    {
        self.terminated = Some(Err(err));
    }

    /// Records a session close: graceful (`Ok(())`) or with a session
    /// error; the session is terminated by it.
    pub fn set_res(&mut self, res: Result<(), YamuxSessionError>)
        ensures
            final(self).terminated == Some(Ok::<Result<(), YamuxSessionError>,
                YamuxFrameParseError,
            >(res)),
            final(self).buffer == old(self).buffer,
            final(self).incoming == old(self).incoming,
            final(self).streams == old(self).streams,
            final(self).message_size_limit == old(self).message_size_limit,
            final(self).pending_outgoing_limit == old(self).pending_outgoing_limit,
    {
        self.terminated = Some(Ok(res));
    }

    /// Appends newly received bytes to the buffer, then repeatedly decodes
    /// frames from its head: each parsed frame joins the `incoming` queue in
    /// order; an incomplete tail is kept for next time; a parse error or an
    /// oversize Data header terminates the session and stops parsing.
    pub fn ingest_bytes(&mut self, data: &Vec<u8>)
        requires
            old(self).terminated is None,
            old(self).buffer@.len() + data@.len() <= usize::MAX,
        ensures
            ({
                let b = old(self).buffer@ + data@;
                let r = spec_ingest(b, old(self).message_size_limit as int);
                &&& final(self).buffer@ == b.skip(r.consumed)
                &&& frames_view(final(self).incoming@) == frames_view(old(self).incoming@)
                    + r.frames
                &&& final(self).terminated == r.terminated
            }),
            final(self).streams == old(self).streams,
            final(self).message_size_limit == old(self).message_size_limit,
            final(self).pending_outgoing_limit == old(self).pending_outgoing_limit,
    {
        let ghost b = old(self).buffer@ + data@;
        let ghost limit = self.message_size_limit as int;
        let ghost old_frames = frames_view(old(self).incoming@);
        let mut i: usize = 0;
        while i < data.len()
            invariant
                i <= data@.len(),
                self.buffer@.len() == old(self).buffer@.len() + i,
                self.buffer@ =~= old(self).buffer@ + data@.take(i as int),
                self.incoming == old(self).incoming,
                self.streams == old(self).streams,
                self.terminated == old(self).terminated,
                self.message_size_limit == old(self).message_size_limit,
                self.pending_outgoing_limit == old(self).pending_outgoing_limit,
                old(self).buffer@.len() + data@.len() <= usize::MAX,
            decreases data@.len() - i,
        {
            self.buffer.push(data[i]);
            i = i + 1;
        }
        proof {
            assert(self.buffer@ =~= b);
        }
        proof {
            assert(b.skip(0) =~= b);
        }
        let mut offset: usize = 0;
        let mut stopped = false;
        while !stopped
            invariant
                offset <= b.len(),
                self.buffer@ == b,
                b.len() <= usize::MAX,
                self.streams == old(self).streams,
                self.message_size_limit == old(self).message_size_limit,
                self.pending_outgoing_limit == old(self).pending_outgoing_limit,
                limit == self.message_size_limit as int,
                !stopped ==> {
                    let rest = spec_ingest(b.skip(offset as int), limit);
                    &&& self.terminated is None
                    &&& frames_view(self.incoming@) + rest.frames == old_frames + spec_ingest(
                        b,
                        limit,
                    ).frames
                    &&& offset + rest.consumed == spec_ingest(b, limit).consumed
                    &&& rest.terminated == spec_ingest(b, limit).terminated
                },
                stopped ==> {
                    &&& frames_view(self.incoming@) == old_frames + spec_ingest(b, limit).frames
                    &&& offset == spec_ingest(b, limit).consumed
                    &&& self.terminated == spec_ingest(b, limit).terminated
                },
            decreases (if stopped {
                0int
            } else {
                1int
            }), b.len() - offset,
        {
            let ghost tail = b.skip(offset as int);
            match decode_frame(&self.buffer, offset, self.message_size_limit) {
                YamuxFrameDecode::Parsed { frame, consumed } => {
                    proof {
                        crate::yamux::frame::lemma_encode_decode(tail, limit);
                        assert(tail.skip(consumed as int) =~= b.skip(offset + consumed));
                    }
                    let ghost pre_incoming = self.incoming@;
                    let ghost fv = frame@;
                    self.incoming.push_back(frame);
                    proof {
                        assert(frames_view(self.incoming@) =~= frames_view(pre_incoming).push(fv));
                        assert(frames_view(pre_incoming).push(fv) =~= frames_view(pre_incoming)
                            + seq![fv]);
                        let rest_new = spec_ingest(b.skip(offset + consumed), limit);
                        assert(frames_view(self.incoming@) + rest_new.frames =~= (frames_view(
                            pre_incoming,
                        ) + (seq![fv] + rest_new.frames)));
                    }
                    offset = offset + consumed;
                },
                YamuxFrameDecode::Incomplete => {
                    stopped = true;
                    proof {
                        assert(spec_ingest(tail, limit).frames =~= Seq::<YamuxFrameV>::empty());
                        assert(frames_view(self.incoming@) + Seq::<YamuxFrameV>::empty()
                            =~= frames_view(self.incoming@));
                    }
                },
                YamuxFrameDecode::Oversize => {
                    self.set_res(Err(YamuxSessionError::Internal));
                    stopped = true;
                    proof {
                        assert(spec_ingest(tail, limit).frames =~= Seq::<YamuxFrameV>::empty());
                        assert(frames_view(self.incoming@) + Seq::<YamuxFrameV>::empty()
                            =~= frames_view(self.incoming@));
                    }
                },
                YamuxFrameDecode::Error(e) => {
                    self.set_err(e);
                    stopped = true;
                    proof {
                        assert(spec_ingest(tail, limit).frames =~= Seq::<YamuxFrameV>::empty());
                        assert(frames_view(self.incoming@) + Seq::<YamuxFrameV>::empty()
                            =~= frames_view(self.incoming@));
                    }
                },
            }
        }
        let rest = self.buffer.split_off(offset);
        self.buffer = rest;
    }
}

} // verus!
