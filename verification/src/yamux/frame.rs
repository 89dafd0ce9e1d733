//! Yamux frame types and the wire codec.
//!
//! Wire format per frame: a 12-byte header
//! `version(1) | type(1) | flags(2, BE) | stream_id(4, BE) | tail(4, BE)`,
//! where for `Data` frames the tail is the payload length and that many
//! payload bytes follow, and for `WindowUpdate` / `Ping` / `GoAway` the tail
//! carries a typed value (signed delta, opaque tag, session error code) and
//! no payload follows.

use vstd::prelude::*;

verus! {

/// Stream identifier. Id 0 is reserved for session-level control frames.
pub type StreamId = u32;

/// Per-frame flag bits: SYN opens a stream, ACK acknowledges the open,
/// FIN half-closes, RST aborts. On the wire they occupy the low four bits
/// of the 16-bit flags field.
#[derive(Clone, Copy, Debug, PartialEq, Eq, Structural)]
pub struct YamuxFlags {
    pub syn: bool,
    pub ack: bool,
    pub fin: bool,
    pub rst: bool,
}

impl YamuxFlags {
    /// The 16-bit field this flag set encodes to: SYN=0x1, ACK=0x2,
    /// FIN=0x4, RST=0x8.
    pub open spec fn spec_bits(self) -> u16 {
        ((if self.syn {
            1int
        } else {
            0int
        }) + (if self.ack {
            2int
        } else {
            0int
        }) + (if self.fin {
            4int
        } else {
            0int
        }) + (if self.rst {
            8int
        } else {
            0int
        })) as u16
    }

    /// The flag set denoted by a 16-bit field with no unknown bits set.
    pub open spec fn spec_from_bits(bits: u16) -> YamuxFlags {
        YamuxFlags {
            syn: bits % 2 == 1,
            ack: (bits / 2) % 2 == 1,
            fin: (bits / 4) % 2 == 1,
            rst: (bits / 8) % 2 == 1,
        }
    }

    pub fn empty() -> (r: YamuxFlags)
        ensures
            r == (YamuxFlags { syn: false, ack: false, fin: false, rst: false }),
    {
        YamuxFlags { syn: false, ack: false, fin: false, rst: false }
    }

    pub fn bits(&self) -> (r: u16)
        ensures
            r == self.spec_bits(),
    {
        let mut r: u16 = 0;
        if self.syn {
            r = r + 1;
        }
        if self.ack {
            r = r + 2;
        }
        if self.fin {
            r = r + 4;
        }
        if self.rst {
            r = r + 8;
        }
        r
    }

    /// Parses a 16-bit flags field; any bit outside the low four is
    /// unparseable and yields `None`.
    pub fn from_bits(bits: u16) -> (r: Option<YamuxFlags>)
        ensures
            bits < 16 ==> r == Some(YamuxFlags::spec_from_bits(bits)),
            bits >= 16 ==> r is None,
    {
        if bits < 16 {
            Some(
                YamuxFlags {
                    syn: bits % 2 == 1,
                    ack: (bits / 2) % 2 == 1,
                    fin: (bits / 4) % 2 == 1,
                    rst: (bits / 8) % 2 == 1,
                },
            )
        } else {
            None
        }
    }
}

/// Decoding a flag set and re-encoding it restores the field, and every
/// encoded flag set stays within the four known bits.
pub proof fn lemma_flags_bits_roundtrip(f: YamuxFlags, bits: u16)
    ensures
        f.spec_bits() < 16,
        YamuxFlags::spec_from_bits(f.spec_bits()) == f,
        bits < 16 ==> YamuxFlags::spec_from_bits(bits).spec_bits() == bits,
{
}

/// Session-level close codes carried by a GoAway frame.
#[derive(Clone, Copy, Debug, PartialEq, Eq, Structural)]
pub enum YamuxSessionError {
    Protocol,
    Internal,
}

/// Frame parse failures; each is fatal to the session.
#[derive(Clone, Copy, Debug, PartialEq, Eq, Structural)]
pub enum YamuxFrameParseError {
    Version(u8),
    Type(u8),
    Flags(u16),
    ErrorCode(u32),
}

/// What a session that stopped working ended with: `Err` for a frame parse
/// failure, `Ok` for a GoAway (itself graceful or carrying a session error).
pub type YamuxTerminated = Result<Result<(), YamuxSessionError>, YamuxFrameParseError>;

/// Payload-bearing part of a frame.
#[derive(Debug, PartialEq)]
pub enum YamuxFrameInner {
    Data(Vec<u8>),
    WindowUpdate { difference: i32 },
    Ping { opaque: i32 },
    GoAway(Result<(), YamuxSessionError>),
}

/// A parsed Yamux frame.
#[derive(Debug, PartialEq)]
pub struct YamuxFrame {
    pub flags: YamuxFlags,
    pub stream_id: StreamId,
    pub inner: YamuxFrameInner,
}

/// Mathematical model of a frame's payload-bearing part.
#[verifier::ext_equal]
pub enum YamuxFrameInnerV {
    Data(Seq<u8>),
    WindowUpdate { difference: i32 },
    Ping { opaque: i32 },
    GoAway(Result<(), YamuxSessionError>),
}

/// Mathematical model of a frame.
#[verifier::ext_equal]
pub struct YamuxFrameV {
    pub flags: YamuxFlags,
    pub stream_id: StreamId,
    pub inner: YamuxFrameInnerV,
}

impl View for YamuxFrameInner {
    type V = YamuxFrameInnerV;

    open spec fn view(&self) -> YamuxFrameInnerV {
        match self {
            YamuxFrameInner::Data(d) => YamuxFrameInnerV::Data(d@),
            YamuxFrameInner::WindowUpdate { difference } => YamuxFrameInnerV::WindowUpdate {
                difference: *difference,
            },
            YamuxFrameInner::Ping { opaque } => YamuxFrameInnerV::Ping { opaque: *opaque },
            YamuxFrameInner::GoAway(res) => YamuxFrameInnerV::GoAway(*res),
        }
    }
}

impl View for YamuxFrame {
    type V = YamuxFrameV;

    open spec fn view(&self) -> YamuxFrameV {
        YamuxFrameV { flags: self.flags, stream_id: self.stream_id, inner: self.inner@ }
    }
}

/// The models of a sequence of frames.
pub open spec fn frames_view(s: Seq<YamuxFrame>) -> Seq<YamuxFrameV> {
    s.map_values(|f: YamuxFrame| f@)
}

/// Payload length of a frame model: the Data payload's length, 0 for every
/// other kind.
pub open spec fn frame_v_len(f: YamuxFrameV) -> int {
    match f.inner {
        YamuxFrameInnerV::Data(d) => d.len() as int,
        _ => 0,
    }
}

/// Whether two byte vectors hold the same bytes.
pub fn bytes_eq(a: &Vec<u8>, b: &Vec<u8>) -> (r: bool)
    ensures
        r == (a@ == b@),
{
    let n = a.len();
    if n != b.len() {
        return false;
    }
    let mut i: usize = 0;
    while i < n
        invariant
            i <= n,
            n == a@.len(),
            n == b@.len(),
            forall|j: int| 0 <= j < i ==> a@[j] == b@[j],
        decreases n - i,
    {
        if a[i] != b[i] {
            return false;
        }
        i = i + 1;
    }
    proof {
        assert(a@ =~= b@);
    }
    true
}

/// Copies a byte vector, content for content.
pub fn clone_bytes(v: &Vec<u8>) -> (r: Vec<u8>)
    ensures
        r@ == v@,
{
    let r = v.clone();
    proof {
        assert forall|i: int| 0 <= i < v@.len() implies r@[i] == v@[i] by {
            assert(cloned::<u8>(v@[i], r@[i]));
        }
        assert(r@ =~= v@);
    }
    r
}

impl YamuxFrame {
    /// Whether this frame and another have the same model: same flags,
    /// same stream, same kind and same payload or value.
    pub fn frame_matches(&self, other: &YamuxFrame) -> (r: bool)
        ensures
            r == (self@ == other@),
    {
        if self.flags != other.flags || self.stream_id != other.stream_id {
            proof {
                assert(self@ != other@);
            }
            return false;
        }
        match (&self.inner, &other.inner) {
            (YamuxFrameInner::Data(a), YamuxFrameInner::Data(b)) => {
                let e = bytes_eq(a, b);
                proof {
                    if e {
                        assert(self.inner@ =~= other.inner@);
                        assert(self@ =~= other@);
                    }
                }
                e
            },
            (
                YamuxFrameInner::WindowUpdate { difference: d1 },
                YamuxFrameInner::WindowUpdate { difference: d2 },
            ) => {
                let e = *d1 == *d2;
                proof {
                    if e {
                        assert(self.inner@ =~= other.inner@);
                        assert(self@ =~= other@);
                    }
                }
                e
            },
            (YamuxFrameInner::Ping { opaque: o1 }, YamuxFrameInner::Ping { opaque: o2 }) => {
                let e = *o1 == *o2;
                proof {
                    if e {
                        assert(self.inner@ =~= other.inner@);
                        assert(self@ =~= other@);
                    }
                }
                e
            },
            (YamuxFrameInner::GoAway(r1), YamuxFrameInner::GoAway(r2)) => {
                let e = match (r1, r2) {
                    (Ok(()), Ok(())) => true,
                    (Err(e1), Err(e2)) => *e1 == *e2,
                    _ => false,
                };
                proof {
                    if e {
                        if *r1 is Ok {
                            assert(r1->Ok_0 == ());
                            assert(r2->Ok_0 == ());
                            assert(*r1 == Ok::<(), YamuxSessionError>(()));
                            assert(*r2 == Ok::<(), YamuxSessionError>(()));
                        }
                        assert(self.inner@ =~= other.inner@);
                        assert(self@ =~= other@);
                    }
                }
                e
            },
            _ => {
                proof {
                    assert(self.inner@ != other.inner@);
                }
                false
            },
        }
    }

    /// A copy of this frame with the same model.
    pub fn duplicate(&self) -> (r: YamuxFrame)
        ensures
            r@ == self@,
    {
        let inner = match &self.inner {
            YamuxFrameInner::Data(d) => {
                let c = clone_bytes(d);
                let i = YamuxFrameInner::Data(c);
                proof {
                    assert(i@ =~= self.inner@);
                }
                i
            },
            YamuxFrameInner::WindowUpdate { difference } => {
                let i = YamuxFrameInner::WindowUpdate { difference: *difference };
                proof {
                    assert(i@ =~= self.inner@);
                }
                i
            },
            YamuxFrameInner::Ping { opaque } => {
                let i = YamuxFrameInner::Ping { opaque: *opaque };
                proof {
                    assert(i@ =~= self.inner@);
                }
                i
            },
            YamuxFrameInner::GoAway(res) => YamuxFrameInner::GoAway(*res),
        };
        let r = YamuxFrame { flags: self.flags, stream_id: self.stream_id, inner };
        proof {
            assert(r@ =~= self@);
        }
        r
    }
}

// ---------------------------------------------------------------------------
// Big-endian integer fields
// ---------------------------------------------------------------------------
/// The four big-endian bytes of a 32-bit value.
pub open spec fn spec_u32_be(v: u32) -> Seq<u8> {
    seq![
        ((v / 0x1000000) % 0x100) as u8,
        ((v / 0x10000) % 0x100) as u8,
        ((v / 0x100) % 0x100) as u8,
        (v % 0x100) as u8,
    ]
}

/// The 32-bit value read from four big-endian bytes.
pub open spec fn spec_u32_from_be(b: Seq<u8>) -> u32
    recommends
        b.len() == 4,
{
    (b[0] * 0x1000000 + b[1] * 0x10000 + b[2] * 0x100 + b[3]) as u32
}

/// The two big-endian bytes of a 16-bit value.
pub open spec fn spec_u16_be(v: u16) -> Seq<u8> {
    seq![((v / 0x100) % 0x100) as u8, (v % 0x100) as u8]
}

/// The 16-bit value read from two big-endian bytes.
pub open spec fn spec_u16_from_be(b: Seq<u8>) -> u16
    recommends
        b.len() == 2,
{
    (b[0] * 0x100 + b[1]) as u16
}

pub proof fn lemma_u32_be_roundtrip(v: u32, b: Seq<u8>)
    ensures
        spec_u32_be(v).len() == 4,
        spec_u32_from_be(spec_u32_be(v)) == v,
        b.len() == 4 ==> spec_u32_be(spec_u32_from_be(b)) =~= b,
{
    assert(spec_u32_from_be(spec_u32_be(v)) == v) by {
        assert(((v / 0x1000000) % 0x100) * 0x1000000 + ((v / 0x10000) % 0x100) * 0x10000 + ((v
            / 0x100) % 0x100) * 0x100 + (v % 0x100) == v) by (nonlinear_arith);
    }
    if b.len() == 4 {
        let v2 = spec_u32_from_be(b);
        assert(b[0] < 0x100 && b[1] < 0x100 && b[2] < 0x100 && b[3] < 0x100);
        assert(v2 == b[0] * 0x1000000 + b[1] * 0x10000 + b[2] * 0x100 + b[3]);
        assert((v2 / 0x1000000) % 0x100 == b[0] && (v2 / 0x10000) % 0x100 == b[1] && (v2 / 0x100)
            % 0x100 == b[2] && v2 % 0x100 == b[3]) by (nonlinear_arith)
            requires
                v2 == b[0] * 0x1000000 + b[1] * 0x10000 + b[2] * 0x100 + b[3],
                b[0] < 0x100 && b[1] < 0x100 && b[2] < 0x100 && b[3] < 0x100,
        ;
    }
}

pub proof fn lemma_u16_be_roundtrip(v: u16, b: Seq<u8>)
    ensures
        spec_u16_be(v).len() == 2,
        spec_u16_from_be(spec_u16_be(v)) == v,
        b.len() == 2 ==> spec_u16_be(spec_u16_from_be(b)) =~= b,
{
    assert(spec_u16_from_be(spec_u16_be(v)) == v) by {
        assert(((v / 0x100) % 0x100) * 0x100 + (v % 0x100) == v) by (nonlinear_arith);
    }
    if b.len() == 2 {
        let v2 = spec_u16_from_be(b);
        assert(b[0] < 0x100 && b[1] < 0x100);
        assert((v2 / 0x100) % 0x100 == b[0] && v2 % 0x100 == b[1]) by (nonlinear_arith)
            requires
                v2 == b[0] * 0x100 + b[1],
                b[0] < 0x100 && b[1] < 0x100,
        ;
    }
}

pub fn u32_to_be(v: u32) -> (r: [u8; 4])
    ensures
        r@ =~= spec_u32_be(v),
{
    [((v / 0x1000000) % 0x100) as u8, ((v / 0x10000) % 0x100) as u8, ((v / 0x100) % 0x100) as u8, (
    v % 0x100) as u8]
}

pub fn u32_from_be(b0: u8, b1: u8, b2: u8, b3: u8) -> (r: u32)
    ensures
        r == spec_u32_from_be(seq![b0, b1, b2, b3]),
{
    (b0 as u32) * 0x1000000 + (b1 as u32) * 0x10000 + (b2 as u32) * 0x100 + (b3 as u32)
}

pub fn u16_from_be(b0: u8, b1: u8) -> (r: u16)
    ensures
        r == spec_u16_from_be(seq![b0, b1]),
{
    (b0 as u16) * 0x100 + (b1 as u16)
}

// ---------------------------------------------------------------------------
// Signed 32-bit fields (window deltas, ping tags) are carried on the wire in
// two's complement inside the unsigned tail field.
// ---------------------------------------------------------------------------
/// Two's-complement reading of an unsigned 32-bit field.
pub open spec fn spec_u32_as_i32(v: u32) -> i32 {
    if v < 0x8000_0000 {
        v as i32
    } else {
        (v - 0x1_0000_0000) as i32
    }
}

/// Two's-complement encoding of a signed 32-bit value.
pub open spec fn spec_i32_as_u32(d: i32) -> u32 {
    if d >= 0 {
        d as u32
    } else {
        (d + 0x1_0000_0000) as u32
    }
}

pub proof fn lemma_i32_u32_roundtrip(v: u32, d: i32)
    ensures
        spec_i32_as_u32(spec_u32_as_i32(v)) == v,
        spec_u32_as_i32(spec_i32_as_u32(d)) == d,
{
}

pub fn u32_as_i32(v: u32) -> (r: i32)
    ensures
        r == spec_u32_as_i32(v),
{
    if v < 0x8000_0000 {
        v as i32
    } else {
        ((v as i64) - 0x1_0000_0000i64) as i32
    }
}

pub fn i32_as_u32(d: i32) -> (r: u32)
    ensures
        r == spec_i32_as_u32(d),
{
    if d >= 0 {
        d as u32
    } else {
        ((d as i64) + 0x1_0000_0000i64) as u32
    }
}

// ---------------------------------------------------------------------------
// Encoding
// ---------------------------------------------------------------------------
/// Wire type byte of a frame: 0=Data, 1=WindowUpdate, 2=Ping, 3=GoAway.
pub open spec fn spec_frame_type_byte(inner: YamuxFrameInnerV) -> u8 {
    match inner {
        YamuxFrameInnerV::Data(_) => 0,
        YamuxFrameInnerV::WindowUpdate { .. } => 1,
        YamuxFrameInnerV::Ping { .. } => 2,
        YamuxFrameInnerV::GoAway(_) => 3,
    }
}

/// Session close code carried by a GoAway frame: 0=Ok, 1=Protocol, 2=Internal.
pub open spec fn spec_goaway_code(res: Result<(), YamuxSessionError>) -> u32 {
    match res {
        Ok(()) => 0,
        Err(YamuxSessionError::Protocol) => 1,
        Err(YamuxSessionError::Internal) => 2,
    }
}

/// The 4-byte tail of the header: payload length for Data, typed value
/// otherwise.
pub open spec fn spec_tail_value(inner: YamuxFrameInnerV) -> u32 {
    match inner {
        YamuxFrameInnerV::Data(d) => d.len() as u32,
        YamuxFrameInnerV::WindowUpdate { difference } => spec_i32_as_u32(difference),
        YamuxFrameInnerV::Ping { opaque } => spec_i32_as_u32(opaque),
        YamuxFrameInnerV::GoAway(res) => spec_goaway_code(res),
    }
}

/// Bytes following the header: the payload for Data frames, nothing
/// otherwise.
pub open spec fn spec_payload(inner: YamuxFrameInnerV) -> Seq<u8> {
    match inner {
        YamuxFrameInnerV::Data(d) => d,
        _ => Seq::empty(),
    }
}

/// A frame is well formed when its payload length fits the 4-byte length
/// field.
pub open spec fn frame_wf(f: YamuxFrameV) -> bool {
    match f.inner {
        YamuxFrameInnerV::Data(d) => d.len() <= u32::MAX,
        _ => true,
    }
}

/// The deterministic serialization of a frame: the 12-byte header followed
/// by the payload, if any.
pub open spec fn spec_encode_frame(f: YamuxFrameV) -> Seq<u8> {
    seq![0u8, spec_frame_type_byte(f.inner)] + spec_u16_be(f.flags.spec_bits()) + spec_u32_be(
        f.stream_id,
    ) + spec_u32_be(spec_tail_value(f.inner)) + spec_payload(f.inner)
}

impl YamuxFrame {
    /// Payload length of a Data frame; 0 for every other kind.
    pub open spec fn spec_len(self) -> int {
        match self@.inner {
            YamuxFrameInnerV::Data(d) => d.len() as int,
            _ => 0,
        }
    }

    pub fn len(&self) -> (r: usize)
        ensures
            r == self.spec_len(),
    {
        match &self.inner {
            YamuxFrameInner::Data(d) => d.len(),
            _ => 0,
        }
    }

    /// Splits a Data frame in two at `pos`: this frame keeps the first `pos`
    /// payload bytes and its flags; the returned suffix carries the rest,
    /// inheriting the flags except SYN and ACK, which fire only on the first
    /// fragment. Any other frame kind, or a split point at or past the end,
    /// leaves the frame alone.
    pub fn split_at(&mut self, pos: usize) -> (r: Option<YamuxFrame>)
        ensures
            match old(self)@.inner {
                YamuxFrameInnerV::Data(d) => {
                    if pos < d.len() {
                        &&& final(self)@ == (YamuxFrameV {
                            inner: YamuxFrameInnerV::Data(d.take(pos as int)),
                            ..old(self)@
                        })
                        &&& r matches Some(suffix) && suffix@ == (YamuxFrameV {
                            flags: YamuxFlags {
                                syn: false,
                                ack: false,
                                fin: old(self)@.flags.fin,
                                rst: old(self)@.flags.rst,
                            },
                            stream_id: old(self)@.stream_id,
                            inner: YamuxFrameInnerV::Data(d.skip(pos as int)),
                        })
                    } else {
                        *final(self) == *old(self) && r is None
                    }
                },
                _ => *final(self) == *old(self) && r is None,
            },
    {
        match &mut self.inner {
            YamuxFrameInner::Data(d) => {
                if pos < d.len() {
                    let tail = d.split_off(pos);
                    let suffix = YamuxFrame {
                        flags: YamuxFlags {
                            syn: false,
                            ack: false,
                            fin: self.flags.fin,
                            rst: self.flags.rst,
                        },
                        stream_id: self.stream_id,
                        inner: YamuxFrameInner::Data(tail),
                    };
                    proof {
                        assert(final(self)@ =~= (YamuxFrameV {
                            inner: YamuxFrameInnerV::Data(old(self)@.inner->Data_0.take(pos as int)),
                            ..old(self)@
                        }));
                        assert(suffix@.inner =~= YamuxFrameInnerV::Data(
                            old(self)@.inner->Data_0.skip(pos as int),
                        ));
                    }
                    Some(suffix)
                } else {
                    None
                }
            },
            _ => None,
        }
    }

    /// Serializes the frame: header then payload. Deterministic, and the
    /// inverse of decoding (`lemma_decode_encode`, `lemma_encode_decode`).
    pub fn into_bytes(self) -> (r: Vec<u8>)
        requires
            frame_wf(self@),
        ensures
            r@ == spec_encode_frame(self@),
    {
        let ghost fv = self@;
        let mut out: Vec<u8> = Vec::new();
        out.push(0u8);
        let type_byte: u8 = match &self.inner {
            YamuxFrameInner::Data(_) => 0,
            YamuxFrameInner::WindowUpdate { .. } => 1,
            YamuxFrameInner::Ping { .. } => 2,
            YamuxFrameInner::GoAway(_) => 3,
        };
        out.push(type_byte);
        let fb: u16 = self.flags.bits();
        out.push(((fb / 0x100) % 0x100) as u8);
        out.push((fb % 0x100) as u8);
        let sid = u32_to_be(self.stream_id);
        out.push(sid[0]);
        out.push(sid[1]);
        out.push(sid[2]);
        out.push(sid[3]);
        let tail_value: u32 = match &self.inner {
            YamuxFrameInner::Data(d) => d.len() as u32,
            YamuxFrameInner::WindowUpdate { difference } => i32_as_u32(*difference),
            YamuxFrameInner::Ping { opaque } => i32_as_u32(*opaque),
            YamuxFrameInner::GoAway(res) => match res {
                Ok(()) => 0,
                Err(YamuxSessionError::Protocol) => 1,
                Err(YamuxSessionError::Internal) => 2,
            },
        };
        let tb = u32_to_be(tail_value);
        out.push(tb[0]);
        out.push(tb[1]);
        out.push(tb[2]);
        out.push(tb[3]);
        proof {
            assert(tail_value == spec_tail_value(fv.inner));
            assert(out@ =~= seq![0u8, spec_frame_type_byte(fv.inner)] + spec_u16_be(
                fv.flags.spec_bits(),
            ) + spec_u32_be(fv.stream_id) + spec_u32_be(spec_tail_value(fv.inner)));
        }
        match self.inner {
            YamuxFrameInner::Data(mut d) => {
                out.append(&mut d);
            },
            _ => {},
        }
        proof {
            assert(out@ =~= spec_encode_frame(fv));
        }
        out
    }
}

// ---------------------------------------------------------------------------
// Decoding
// ---------------------------------------------------------------------------
/// Outcome of trying to decode one frame from the head of a byte sequence.
pub enum SpecParseOutcome {
    /// Fewer bytes than a full frame; nothing consumed.
    Incomplete,
    /// One frame parsed, consuming `consumed` bytes.
    Parsed { frame: YamuxFrameV, consumed: int },
    /// A Data header whose length field exceeds the session's message size
    /// limit; fatal to the session.
    Oversize,
    /// A malformed header; fatal to the session.
    Error(YamuxFrameParseError),
}

/// Decodes one frame from the head of `b`, enforcing `limit` on Data payload
/// lengths. Mirrored exactly by the executable `decode_frame`.
pub open spec fn spec_decode_frame(b: Seq<u8>, limit: int) -> SpecParseOutcome {
    if b.len() < 12 {
        SpecParseOutcome::Incomplete
    } else if b[0] != 0 {
        SpecParseOutcome::Error(YamuxFrameParseError::Version(b[0]))
    } else {
        let flags16 = spec_u16_from_be(b.subrange(2, 4));
        if flags16 >= 16 {
            SpecParseOutcome::Error(YamuxFrameParseError::Flags(flags16))
        } else {
            let flags = YamuxFlags::spec_from_bits(flags16);
            let stream_id = spec_u32_from_be(b.subrange(4, 8));
            let tail = spec_u32_from_be(b.subrange(8, 12));
            if b[1] == 0 {
                if tail > limit {
                    SpecParseOutcome::Oversize
                } else if b.len() < 12 + tail {
                    SpecParseOutcome::Incomplete
                } else {
                    SpecParseOutcome::Parsed {
                        frame: YamuxFrameV {
                            flags,
                            stream_id,
                            inner: YamuxFrameInnerV::Data(b.subrange(12, 12 + tail)),
                        },
                        consumed: 12 + tail,
                    }
                }
            } else if b[1] == 1 {
                SpecParseOutcome::Parsed {
                    frame: YamuxFrameV {
                        flags,
                        stream_id,
                        inner: YamuxFrameInnerV::WindowUpdate {
                            difference: spec_u32_as_i32(tail),
                        },
                    },
                    consumed: 12,
                }
            } else if b[1] == 2 {
                SpecParseOutcome::Parsed {
                    frame: YamuxFrameV {
                        flags,
                        stream_id,
                        inner: YamuxFrameInnerV::Ping { opaque: spec_u32_as_i32(tail) },
                    },
                    consumed: 12,
                }
            } else if b[1] == 3 {
                if tail == 0 {
                    SpecParseOutcome::Parsed {
                        frame: YamuxFrameV {
                            flags,
                            stream_id,
                            inner: YamuxFrameInnerV::GoAway(Ok(())),
                        },
                        consumed: 12,
                    }
                } else if tail == 1 {
                    SpecParseOutcome::Parsed {
                        frame: YamuxFrameV {
                            flags,
                            stream_id,
                            inner: YamuxFrameInnerV::GoAway(Err(YamuxSessionError::Protocol)),
                        },
                        consumed: 12,
                    }
                } else if tail == 2 {
                    SpecParseOutcome::Parsed {
                        frame: YamuxFrameV {
                            flags,
                            stream_id,
                            inner: YamuxFrameInnerV::GoAway(Err(YamuxSessionError::Internal)),
                        },
                        consumed: 12,
                    }
                } else {
                    SpecParseOutcome::Error(YamuxFrameParseError::ErrorCode(tail))
                }
            } else {
                SpecParseOutcome::Error(YamuxFrameParseError::Type(b[1]))
            }
        }
    }
}

/// Executable outcome of decoding one frame.
pub enum YamuxFrameDecode {
    Incomplete,
    Parsed { frame: YamuxFrame, consumed: usize },
    Oversize,
    Error(YamuxFrameParseError),
}

/// Whether an executable decode outcome models a spec outcome.
pub open spec fn decode_matches(r: YamuxFrameDecode, s: SpecParseOutcome) -> bool {
    match r {
        YamuxFrameDecode::Incomplete => s is Incomplete,
        YamuxFrameDecode::Parsed { frame, consumed } => s matches SpecParseOutcome::Parsed {
            frame: fv,
            consumed: c,
        } && frame@ == fv && consumed == c,
        YamuxFrameDecode::Oversize => s is Oversize,
        YamuxFrameDecode::Error(e) => s matches SpecParseOutcome::Error(e2) && e == e2,
    }
}

/// Decodes one frame from `buf` starting at `offset`, enforcing `limit` on
/// Data payload lengths.
pub fn decode_frame(buf: &Vec<u8>, offset: usize, limit: usize) -> (r: YamuxFrameDecode)
    requires
        offset <= buf@.len(),
    ensures
        decode_matches(r, spec_decode_frame(buf@.skip(offset as int), limit as int)),
{
    let ghost b = buf@.skip(offset as int);
    let n = buf.len();
    if n - offset < 12 {
        return YamuxFrameDecode::Incomplete;
    }
    let b0 = buf[offset];
    if b0 != 0 {
        return YamuxFrameDecode::Error(YamuxFrameParseError::Version(b0));
    }
    let flags16 = u16_from_be(buf[offset + 2], buf[offset + 3]);
    proof {
        assert(b.subrange(2, 4) =~= seq![buf@[offset + 2], buf@[offset + 3]]);
    }
    let flags = match YamuxFlags::from_bits(flags16) {
        Some(f) => f,
        None => {
            return YamuxFrameDecode::Error(YamuxFrameParseError::Flags(flags16));
        },
    };
    let stream_id = u32_from_be(buf[offset + 4], buf[offset + 5], buf[offset + 6], buf[offset + 7]);
    let tail = u32_from_be(buf[offset + 8], buf[offset + 9], buf[offset + 10], buf[offset + 11]);
    proof {
        assert(b.subrange(4, 8) =~= seq![
            buf@[offset + 4],
            buf@[offset + 5],
            buf@[offset + 6],
            buf@[offset + 7],
        ]);
        assert(b.subrange(8, 12) =~= seq![
            buf@[offset + 8],
            buf@[offset + 9],
            buf@[offset + 10],
            buf@[offset + 11],
        ]);
    }
    let type_byte = buf[offset + 1];
    if type_byte == 0 {
        if tail as u64 > limit as u64 {
            return YamuxFrameDecode::Oversize;
        }
        let len = tail as usize;
        if n - offset - 12 < len {
            return YamuxFrameDecode::Incomplete;
        }
        let mut payload: Vec<u8> = Vec::new();
        let mut i: usize = 0;
        while i < len
            invariant
                i <= len,
                offset + 12 + len <= buf@.len(),
                buf@.len() <= usize::MAX,
                payload@ =~= buf@.subrange(
                    offset + 12 as int,
                    offset + 12 + i as int,
                ),
            decreases len - i,
        {
            payload.push(buf[offset + 12 + i]);
            i = i + 1;
        }
        proof {
            assert(payload@ =~= b.subrange(12, 12 + tail));
        }
        YamuxFrameDecode::Parsed {
            frame: YamuxFrame { flags, stream_id, inner: YamuxFrameInner::Data(payload) },
            consumed: 12 + len,
        }
    } else if type_byte == 1 {
        YamuxFrameDecode::Parsed {
            frame: YamuxFrame {
                flags,
                stream_id,
                inner: YamuxFrameInner::WindowUpdate { difference: u32_as_i32(tail) },
            },
            consumed: 12,
        }
    } else if type_byte == 2 {
        YamuxFrameDecode::Parsed {
            frame: YamuxFrame {
                flags,
                stream_id,
                inner: YamuxFrameInner::Ping { opaque: u32_as_i32(tail) },
            },
            consumed: 12,
        }
    } else if type_byte == 3 {
        let res: Result<(), YamuxSessionError> = if tail == 0 {
            Ok(())
        } else if tail == 1 {
            Err(YamuxSessionError::Protocol)
        } else if tail == 2 {
            Err(YamuxSessionError::Internal)
        } else {
            return YamuxFrameDecode::Error(YamuxFrameParseError::ErrorCode(tail));
        };
        YamuxFrameDecode::Parsed {
            frame: YamuxFrame { flags, stream_id, inner: YamuxFrameInner::GoAway(res) },
            consumed: 12,
        }
    } else {
        YamuxFrameDecode::Error(YamuxFrameParseError::Type(type_byte))
    }
}

// ---------------------------------------------------------------------------
// Round-trip laws
// ---------------------------------------------------------------------------
/// Decoding an encoded well-formed frame gives the frame back, consuming
/// exactly the encoding, provided a Data payload is within the size limit.
pub proof fn lemma_decode_encode(f: YamuxFrameV, limit: int)
    requires
        frame_wf(f),
        f.inner matches YamuxFrameInnerV::Data(d) ==> d.len() <= limit,
        limit >= 0,
    ensures
        spec_decode_frame(spec_encode_frame(f), limit) matches SpecParseOutcome::Parsed {
            frame,
            consumed,
        } && frame == f && consumed == spec_encode_frame(f).len(),
{
    let b = spec_encode_frame(f);
    let p = spec_payload(f.inner);
    assert(b.len() == 12 + p.len());
    lemma_flags_bits_roundtrip(f.flags, 0);
    let bits = f.flags.spec_bits();
    lemma_u16_be_roundtrip(bits, Seq::empty());
    lemma_u32_be_roundtrip(f.stream_id, Seq::empty());
    lemma_u32_be_roundtrip(spec_tail_value(f.inner), Seq::empty());
    assert(b[0] == 0);
    assert(b[1] == spec_frame_type_byte(f.inner));
    assert(b.subrange(2, 4) =~= spec_u16_be(bits));
    assert(b.subrange(4, 8) =~= spec_u32_be(f.stream_id));
    assert(b.subrange(8, 12) =~= spec_u32_be(spec_tail_value(f.inner)));
    let tail = spec_tail_value(f.inner);
    assert(spec_u16_from_be(b.subrange(2, 4)) == bits);
    assert(spec_u32_from_be(b.subrange(4, 8)) == f.stream_id);
    assert(spec_u32_from_be(b.subrange(8, 12)) == tail);
    match f.inner {
        YamuxFrameInnerV::Data(d) => {
            assert(tail == d.len());
            assert(b.subrange(12, 12 + tail) =~= d);
            assert(spec_decode_frame(b, limit) matches SpecParseOutcome::Parsed {
                frame,
                consumed,
            } && frame =~= f && consumed == b.len());
        },
        YamuxFrameInnerV::WindowUpdate { difference } => {
            lemma_i32_u32_roundtrip(0, difference);
            assert(spec_decode_frame(b, limit) matches SpecParseOutcome::Parsed {
                frame,
                consumed,
            } && frame =~= f && consumed == b.len());
        },
        YamuxFrameInnerV::Ping { opaque } => {
            lemma_i32_u32_roundtrip(0, opaque);
            assert(spec_decode_frame(b, limit) matches SpecParseOutcome::Parsed {
                frame,
                consumed,
            } && frame =~= f && consumed == b.len());
        },
        YamuxFrameInnerV::GoAway(res) => {
            match res {
                Ok(()) => {
                    assert(tail == 0);
                    assert(res is Ok);
                    assert(res->Ok_0 == ());
                    assert(res == Ok::<(), YamuxSessionError>(()));
                    assert(spec_decode_frame(b, limit) matches SpecParseOutcome::Parsed {
                        frame,
                        consumed,
                    } && frame =~= f && consumed == b.len());
                },
                Err(YamuxSessionError::Protocol) => {
                    assert(tail == 1);
                    assert(spec_decode_frame(b, limit) matches SpecParseOutcome::Parsed {
                        frame,
                        consumed,
                    } && frame =~= f && consumed == b.len());
                },
                Err(YamuxSessionError::Internal) => {
                    assert(tail == 2);
                    assert(spec_decode_frame(b, limit) matches SpecParseOutcome::Parsed {
                        frame,
                        consumed,
                    } && frame =~= f && consumed == b.len());
                },
            }
        },
    }
}

/// Re-encoding a decoded frame reproduces exactly the bytes the decoder
/// consumed: decoding takes one frame off the head of the buffer and
/// nothing more.
pub proof fn lemma_encode_decode(b: Seq<u8>, limit: int)
    ensures
        spec_decode_frame(b, limit) matches SpecParseOutcome::Parsed { frame, consumed } ==> {
            &&& frame_wf(frame)
            &&& 12 <= consumed <= b.len()
            &&& spec_encode_frame(frame) =~= b.subrange(0, consumed)
        },
{
    match spec_decode_frame(b, limit) {
        SpecParseOutcome::Parsed { frame, consumed } => {
        let flags16 = spec_u16_from_be(b.subrange(2, 4));
        let sid = spec_u32_from_be(b.subrange(4, 8));
        let tail = spec_u32_from_be(b.subrange(8, 12));
        lemma_flags_bits_roundtrip(frame.flags, flags16);
        lemma_u16_be_roundtrip(flags16, b.subrange(2, 4));
        lemma_u32_be_roundtrip(sid, b.subrange(4, 8));
        lemma_u32_be_roundtrip(tail, b.subrange(8, 12));
        assert(frame.flags == YamuxFlags::spec_from_bits(flags16));
        assert(frame.flags.spec_bits() == flags16);
        assert(frame.stream_id == sid);
        if b[1] == 0 {
            let d = b.subrange(12, 12 + tail);
            assert(frame.inner == YamuxFrameInnerV::Data(d));
            assert(spec_tail_value(frame.inner) == tail);
            assert(spec_encode_frame(frame) =~= b.subrange(0, consumed));
        } else {
            assert(consumed == 12);
            if b[1] == 1 {
                lemma_i32_u32_roundtrip(tail, 0);
                assert(spec_tail_value(frame.inner) == tail);
            } else if b[1] == 2 {
                lemma_i32_u32_roundtrip(tail, 0);
                assert(spec_tail_value(frame.inner) == tail);
            } else {
                assert(b[1] == 3);
                assert(spec_tail_value(frame.inner) == tail);
            }
            assert(spec_encode_frame(frame) =~= b.subrange(0, consumed));
        }
        },
        _ => {},
    }
}

/// A Data frame whose payload length equals the session's message size
/// limit decodes; one byte more and the decoder reports it oversize, which
/// the session turns into an Internal close.
pub proof fn lemma_message_size_boundary(f: YamuxFrameV, limit: int)
    requires
        frame_wf(f),
        limit >= 0,
        f.inner is Data,
    ensures
        spec_payload(f.inner).len() <= limit ==> (spec_decode_frame(
            spec_encode_frame(f),
            limit,
        ) matches SpecParseOutcome::Parsed { frame, consumed } && frame == f),
        spec_payload(f.inner).len() > limit ==> spec_decode_frame(spec_encode_frame(f), limit)
            is Oversize,
{
    if spec_payload(f.inner).len() <= limit {
        lemma_decode_encode(f, limit);
    } else {
        let b = spec_encode_frame(f);
        let p = spec_payload(f.inner);
        assert(b.len() == 12 + p.len());
        lemma_flags_bits_roundtrip(f.flags, 0);
        lemma_u32_be_roundtrip(spec_tail_value(f.inner), Seq::empty());
        lemma_u16_be_roundtrip(f.flags.spec_bits(), Seq::empty());
        assert(b.subrange(2, 4) =~= spec_u16_be(f.flags.spec_bits()));
        assert(b.subrange(8, 12) =~= spec_u32_be(spec_tail_value(f.inner)));
        assert(spec_u32_from_be(b.subrange(8, 12)) == spec_tail_value(f.inner));
        assert(b[1] == 0);
    }
}

} // verus!
