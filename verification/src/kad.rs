//! Distributed-hash-table messages: the message and connection kinds of
//! the routing protocol with their wire numbering, and the wire writer —
//! fields tagged and length-delimited, varint-coded values, wire defaults
//! omitted — with every serialized size proven exact.

use vstd::prelude::*;

verus! {

/// What a routing message asks for or carries.
#[derive(Clone, Copy, Debug, PartialEq, Eq, Structural)]
pub enum MessageType {
    PutValue,
    GetValue,
    AddProvider,
    GetProviders,
    FindNode,
    Ping,
}

impl Default for MessageType {
    /// The wire default: a value store.
    fn default() -> (r: MessageType)
        ensures
            r == MessageType::PutValue,
    {
        MessageType::PutValue
    }
}

impl MessageType {
    /// The message type a wire tag denotes: 0 stores, 1 fetches, 2 and 3
    /// concern providers, 4 walks the routing table, 5 pings; anything
    /// else falls back to the default.
    pub open spec fn spec_from_code(i: i32) -> MessageType {
        if i == 0 {
            MessageType::PutValue
        } else if i == 1 {
            MessageType::GetValue
        } else if i == 2 {
            MessageType::AddProvider
        } else if i == 3 {
            MessageType::GetProviders
        } else if i == 4 {
            MessageType::FindNode
        } else if i == 5 {
            MessageType::Ping
        } else {
            MessageType::PutValue
        }
    }

    pub fn from_code(i: i32) -> (r: MessageType)
        ensures
            r == MessageType::spec_from_code(i),
    {
        if i == 0 {
            MessageType::PutValue
        } else if i == 1 {
            MessageType::GetValue
        } else if i == 2 {
            MessageType::AddProvider
        } else if i == 3 {
            MessageType::GetProviders
        } else if i == 4 {
            MessageType::FindNode
        } else if i == 5 {
            MessageType::Ping
        } else {
            MessageType::PutValue
        }
    }
}

/// How reachable a listed peer is.
#[derive(Clone, Copy, Debug, PartialEq, Eq, Structural)]
pub enum ConnectionType {
    NotConnected,
    Connected,
    CanConnect,
    CannotConnect,
}

impl Default for ConnectionType {
    /// The wire default: not connected.
    fn default() -> (r: ConnectionType)
        ensures
            r == ConnectionType::NotConnected,
    {
        ConnectionType::NotConnected
    }
}

impl ConnectionType {
    /// The connection state a wire tag denotes; anything unknown falls
    /// back to the default.
    pub open spec fn spec_from_code(i: i32) -> ConnectionType {
        if i == 0 {
            ConnectionType::NotConnected
        } else if i == 1 {
            ConnectionType::Connected
        } else if i == 2 {
            ConnectionType::CanConnect
        } else if i == 3 {
            ConnectionType::CannotConnect
        } else {
            ConnectionType::NotConnected
        }
    }

    pub fn from_code(i: i32) -> (r: ConnectionType)
        ensures
            r == ConnectionType::spec_from_code(i),
    {
        if i == 0 {
            ConnectionType::NotConnected
        } else if i == 1 {
            ConnectionType::Connected
        } else if i == 2 {
            ConnectionType::CanConnect
        } else if i == 3 {
            ConnectionType::CannotConnect
        } else {
            ConnectionType::NotConnected
        }
    }
}

/// A value carried by the table.
#[derive(Clone, Debug, PartialEq)]
pub struct Record {
    pub key: Vec<u8>,
    pub value: Vec<u8>,
    pub time_received: Vec<u8>,
}

/// A peer listed in a routing answer.
#[derive(Clone, Debug, PartialEq)]
pub struct Peer {
    pub id: Vec<u8>,
    pub addrs: Vec<Vec<u8>>,
    pub connection: ConnectionType,
}

/// One routing message.
#[derive(Debug, PartialEq)]
pub struct Message {
    pub type_pb: MessageType,
    pub cluster_level_raw: i32,
    pub key: Vec<u8>,
    pub record: Option<Record>,
    pub closer_peers: Vec<Peer>,
    pub provider_peers: Vec<Peer>,
}

// ---------------------------------------------------------------------------
// The wire writer
// ---------------------------------------------------------------------------
/// Little-endian base-128 encoding of an unsigned value: seven bits per
/// byte, the high bit marking continuation.
pub open spec fn spec_varint(v: u64) -> Seq<u8>
    decreases v,
{
    if v < 0x80 {
        seq![v as u8]
    } else {
        seq![((v % 0x80) + 0x80) as u8] + spec_varint(v / 0x80)
    }
}

/// 128 to the `k`th power, the count of values a `k`-byte varint covers.
pub open spec fn spec_pow128(k: int) -> int
    decreases k,
{
    if k <= 0 {
        1
    } else {
        128 * spec_pow128(k - 1)
    }
}

pub proof fn lemma_pow128_pos(k: int)
    ensures
        spec_pow128(k) >= 1,
    decreases k,
{
    if k > 0 {
        lemma_pow128_pos(k - 1);
    }
}

/// A value below 128^k encodes in at most k bytes.
proof fn lemma_varint_len_aux(v: u64, k: int)
    requires
        1 <= k,
        (v as int) < spec_pow128(k),
    ensures
        1 <= spec_varint(v).len() <= k,
    decreases k,
{
    if v >= 0x80 {
        lemma_pow128_pos(k - 1);
        if k == 1 {
            assert(spec_pow128(1) == 128);
        } else {
            assert(spec_pow128(k) == 128 * spec_pow128(k - 1));
            assert((v as int) / 128 < spec_pow128(k - 1)) by (nonlinear_arith)
                requires
                    (v as int) < 128 * spec_pow128(k - 1),
                    spec_pow128(k - 1) >= 1,
            ;
            lemma_varint_len_aux(v / 0x80, k - 1);
        }
    }
}

/// A varint spans at most ten bytes and at least one.
pub proof fn lemma_varint_len(v: u64)
    ensures
        1 <= spec_varint(v).len() <= 10,
{
    reveal_with_fuel(spec_pow128, 12);
    assert(spec_pow128(10) == 1180591620717411303424);
    lemma_varint_len_aux(v, 10);
}

/// Appends the varint encoding of a value.
pub fn push_varint(out: &mut Vec<u8>, v: u64)
    ensures
        final(out)@ == old(out)@ + spec_varint(v),
{
    let ghost base = old(out)@;
    let ghost v0 = v;
    let mut v = v;
    while v >= 0x80
        invariant
            base == old(out)@,
            base + spec_varint(v0) == out@ + spec_varint(v),
        decreases v,
    {
        let ghost pre = out@;
        out.push(((v % 0x80) + 0x80) as u8);
        proof {
            assert(out@ =~= pre + seq![((v % 0x80) + 0x80) as u8]);
            assert(spec_varint(v) =~= seq![((v % 0x80) + 0x80) as u8] + spec_varint(v / 0x80));
            assert((pre + seq![((v % 0x80) + 0x80) as u8]) + spec_varint(v / 0x80) =~= pre + (
            seq![((v % 0x80) + 0x80) as u8] + spec_varint(v / 0x80)));
        }
        v = v / 0x80;
    }
    let ghost pre = out@;
    out.push(v as u8);
    proof {
        assert(out@ =~= pre + seq![v as u8]);
        assert(spec_varint(v) =~= seq![v as u8]);
    }
}

/// The number of bytes the varint encoding of a value takes.
pub fn varint_len(v: u64) -> (r: usize)
    ensures
        r == spec_varint(v).len(),
        1 <= r <= 10,
{
    proof {
        lemma_varint_len(v);
    }
    let ghost v0 = v;
    let mut n: usize = 1;
    let mut v = v;
    while v >= 0x80
        invariant
            1 <= n <= 10,
            spec_varint(v0).len() == (n - 1) + spec_varint(v).len(),
            1 <= spec_varint(v0).len() <= 10,
            1 <= spec_varint(v).len() <= 10,
        decreases v,
    {
        proof {
            lemma_varint_len(v / 0x80);
            assert(spec_varint(v).len() == 1 + spec_varint(v / 0x80).len());
        }
        v = v / 0x80;
        n = n + 1;
    }
    proof {
        assert(spec_varint(v).len() == 1);
    }
    n
}

/// A length-delimited field: its tag byte, the payload length as a
/// varint, then the payload.
pub open spec fn spec_field_bytes(tag: u8, b: Seq<u8>) -> Seq<u8> {
    seq![tag] + spec_varint(b.len() as u64) + b
}

/// Appends one length-delimited field.
pub fn push_bytes_field(out: &mut Vec<u8>, tag: u8, data: &Vec<u8>)
    ensures
        final(out)@ == old(out)@ + spec_field_bytes(tag, data@),
{
    let ghost base = old(out)@;
    let ghost pre0 = out@;
    out.push(tag);
    proof {
        assert(out@ =~= base + seq![tag]);
    }
    push_varint(out, data.len() as u64);
    let ghost mid = out@;
    let n = data.len();
    let mut i: usize = 0;
    while i < n
        invariant
            i <= n,
            n == data@.len(),
            mid == base + seq![tag] + spec_varint(data@.len() as u64),
            out@ == mid + data@.take(i as int),
        decreases n - i,
    {
        let ghost pre = out@;
        out.push(data[i]);
        proof {
            assert(out@ =~= mid + data@.take(i + 1));
        }
        i = i + 1;
    }
    proof {
        assert(data@.take(n as int) =~= data@);
        assert(out@ =~= base + spec_field_bytes(tag, data@));
    }
}

/// The encoding of a value record: key, value and receipt time, each as a
/// length-delimited field, empty fields omitted, as the wire's defaults
/// prescribe.
pub open spec fn spec_record_encode(r: Record) -> Seq<u8> {
    (if r.key@.len() == 0 {
        Seq::<u8>::empty()
    } else {
        spec_field_bytes(10, r.key@)
    }) + (if r.value@.len() == 0 {
        Seq::<u8>::empty()
    } else {
        spec_field_bytes(18, r.value@)
    }) + (if r.time_received@.len() == 0 {
        Seq::<u8>::empty()
    } else {
        spec_field_bytes(42, r.time_received@)
    })
}

impl Record {
    /// Appends the record's encoding.
    pub fn write_message(&self, out: &mut Vec<u8>)
        ensures
            final(out)@ == old(out)@ + spec_record_encode(*self),
    {
        let ghost base = old(out)@;
        if self.key.len() > 0 {
            push_bytes_field(out, 10, &self.key);
        }
        if self.value.len() > 0 {
            push_bytes_field(out, 18, &self.value);
        }
        if self.time_received.len() > 0 {
            push_bytes_field(out, 42, &self.time_received);
        }
        proof {
            assert(final(out)@ =~= base + spec_record_encode(*self));
        }
    }

    /// The exact size of the record's encoding.
    pub fn get_size(&self) -> (r: usize)
        requires
            spec_record_encode(*self).len() <= usize::MAX,
        ensures
            r == spec_record_encode(*self).len(),
    {
        let mut size: usize = 0;
        if self.key.len() > 0 {
            size = size + 1 + varint_len(self.key.len() as u64) + self.key.len();
        }
        if self.value.len() > 0 {
            size = size + 1 + varint_len(self.value.len() as u64) + self.value.len();
        }
        if self.time_received.len() > 0 {
            size = size + 1 + varint_len(self.time_received.len() as u64)
                + self.time_received.len();
        }
        size
    }
}

/// The wire code of a connection state.
pub open spec fn spec_connection_code(c: ConnectionType) -> u64 {
    match c {
        ConnectionType::NotConnected => 0,
        ConnectionType::Connected => 1,
        ConnectionType::CanConnect => 2,
        ConnectionType::CannotConnect => 3,
    }
}

/// The encoding of a run of listed addresses, each a length-delimited
/// field, in order.
pub open spec fn spec_addrs_encode(s: Seq<Vec<u8>>) -> Seq<u8>
    decreases s.len(),
{
    if s.len() == 0 {
        Seq::empty()
    } else {
        spec_addrs_encode(s.drop_last()) + spec_field_bytes(18, s.last()@)
    }
}

/// The address run splits at any position into the runs of the prefix and
/// the suffix.
pub proof fn lemma_addrs_encode_split(s: Seq<Vec<u8>>, i: int)
    requires
        0 <= i <= s.len(),
    ensures
        spec_addrs_encode(s) == spec_addrs_encode(s.take(i)) + spec_addrs_encode(s.skip(i)),
    decreases s.len(),
{
    if i == s.len() {
        assert(s.take(i) =~= s);
        assert(s.skip(i) =~= Seq::<Vec<u8>>::empty());
        assert(spec_addrs_encode(s) + Seq::<u8>::empty() =~= spec_addrs_encode(s));
    } else {
        lemma_addrs_encode_split(s.drop_last(), i);
        assert(s.drop_last().take(i) =~= s.take(i));
        assert(s.skip(i).drop_last() =~= s.drop_last().skip(i));
        assert(s.skip(i).last() == s.last());
        assert(spec_addrs_encode(s.skip(i)) == spec_addrs_encode(s.drop_last().skip(i))
            + spec_field_bytes(18, s.last()@));
        assert((spec_addrs_encode(s.take(i)) + spec_addrs_encode(s.drop_last().skip(i)))
            + spec_field_bytes(18, s.last()@) =~= spec_addrs_encode(s.take(i)) + (
        spec_addrs_encode(s.drop_last().skip(i)) + spec_field_bytes(18, s.last()@)));
    }
}

/// The encoding of a listed peer: its identity, its addresses in order,
/// and its connection state as a varint, wire defaults omitted.
pub open spec fn spec_peer_encode(p: Peer) -> Seq<u8> {
    (if p.id@.len() == 0 {
        Seq::<u8>::empty()
    } else {
        spec_field_bytes(10, p.id@)
    }) + spec_addrs_encode(p.addrs@) + (if p.connection == ConnectionType::NotConnected {
        Seq::<u8>::empty()
    } else {
        seq![24u8] + spec_varint(spec_connection_code(p.connection))
    })
}

impl ConnectionType {
    /// The wire code of this connection state.
    pub fn to_code(&self) -> (r: u64)
        ensures
            r == spec_connection_code(*self),
    {
        match self {
            ConnectionType::NotConnected => 0,
            ConnectionType::Connected => 1,
            ConnectionType::CanConnect => 2,
            ConnectionType::CannotConnect => 3,
        }
    }
}

impl Peer {
    /// Appends the peer's encoding.
    pub fn write_message(&self, out: &mut Vec<u8>)
        ensures
            final(out)@ == old(out)@ + spec_peer_encode(*self),
    {
        let ghost base = old(out)@;
        if self.id.len() > 0 {
            push_bytes_field(out, 10, &self.id);
        }
        let ghost mid = out@;
        proof {
            assert(spec_addrs_encode(self.addrs@.take(0)) =~= Seq::<u8>::empty());
            assert(out@ =~= mid + spec_addrs_encode(self.addrs@.take(0)));
        }
        let n = self.addrs.len();
        let mut i: usize = 0;
        while i < n
            invariant
                i <= n,
                n == self.addrs@.len(),
                out@ == mid + spec_addrs_encode(self.addrs@.take(i as int)),
            decreases n - i,
        {
            push_bytes_field(out, 18, &self.addrs[i]);
            proof {
                assert(self.addrs@.take(i + 1).drop_last() =~= self.addrs@.take(i as int));
                assert(self.addrs@.take(i + 1).last() == self.addrs@[i as int]);
                assert((mid + spec_addrs_encode(self.addrs@.take(i as int))) + spec_field_bytes(
                    18,
                    self.addrs@[i as int]@,
                ) =~= mid + spec_addrs_encode(self.addrs@.take(i + 1)));
            }
            i = i + 1;
        }
        proof {
            assert(self.addrs@.take(n as int) =~= self.addrs@);
        }
        if !matches!(self.connection, ConnectionType::NotConnected) {
            let ghost pre = out@;
            out.push(24u8);
            proof {
                assert(out@ =~= pre + seq![24u8]);
            }
            push_varint(out, self.connection.to_code());
        }
        proof {
            assert(final(out)@ =~= base + spec_peer_encode(*self));
        }
    }

    /// The exact size of the peer's encoding.
    pub fn get_size(&self) -> (r: usize)
        requires
            spec_peer_encode(*self).len() <= usize::MAX,
        ensures
            r == spec_peer_encode(*self).len(),
    {
        let ghost total = spec_peer_encode(*self).len() as int;
        let ghost id_part: int = if self.id@.len() == 0 {
            0
        } else {
            spec_field_bytes(10, self.id@).len() as int
        };
        let mut size: usize = 0;
        if self.id.len() > 0 {
            size = size + 1 + varint_len(self.id.len() as u64) + self.id.len();
        }
        let n = self.addrs.len();
        let mut i: usize = 0;
        while i < n
            invariant
                i <= n,
                n == self.addrs@.len(),
                size == id_part + spec_addrs_encode(self.addrs@.take(i as int)).len(),
                id_part + spec_addrs_encode(self.addrs@).len() <= total,
                total <= usize::MAX,
                id_part == (if self.id@.len() == 0 {
                    0int
                } else {
                    spec_field_bytes(10, self.id@).len() as int
                }),
            decreases n - i,
        {
            proof {
                lemma_addrs_encode_split(self.addrs@, i as int);
                lemma_addrs_encode_split(self.addrs@, i + 1);
                assert(self.addrs@.take(i + 1).drop_last() =~= self.addrs@.take(i as int));
                assert(self.addrs@.take(i + 1).last() == self.addrs@[i as int]);
            }
            size = size + 1 + varint_len(self.addrs[i].len() as u64) + self.addrs[i].len();
            i = i + 1;
        }
        proof {
            assert(self.addrs@.take(n as int) =~= self.addrs@);
        }
        if !matches!(self.connection, ConnectionType::NotConnected) {
            size = size + 1 + varint_len(self.connection.to_code());
        }
        size
    }
}

/// The wire code of a message type.
pub open spec fn spec_message_type_code(t: MessageType) -> u64 {
    match t {
        MessageType::PutValue => 0,
        MessageType::GetValue => 1,
        MessageType::AddProvider => 2,
        MessageType::GetProviders => 3,
        MessageType::FindNode => 4,
        MessageType::Ping => 5,
    }
}

impl MessageType {
    /// The wire code of this message type.
    pub fn to_code(&self) -> (r: u64)
        ensures
            r == spec_message_type_code(*self),
    {
        match self {
            MessageType::PutValue => 0,
            MessageType::GetValue => 1,
            MessageType::AddProvider => 2,
            MessageType::GetProviders => 3,
            MessageType::FindNode => 4,
            MessageType::Ping => 5,
        }
    }
}

/// The sign-extended reading of a 32-bit signed value as the wire writes
/// it: a negative value takes the full ten varint bytes.
pub open spec fn spec_i32_extend(c: i32) -> u64 {
    if c >= 0 {
        c as u64
    } else {
        (c + 0x1_0000_0000_0000_0000) as u64
    }
}

/// The sign-extended value, executable.
pub fn i32_extend(c: i32) -> (r: u64)
    ensures
        r == spec_i32_extend(c),
{
    if c >= 0 {
        c as u64
    } else {
        ((c as i128) + 0x1_0000_0000_0000_0000i128) as u64
    }
}

/// The encoding of a run of listed peers, each embedded under one tag, in
/// order.
pub open spec fn spec_peers_encode(s: Seq<Peer>, tag: u8) -> Seq<u8>
    decreases s.len(),
{
    if s.len() == 0 {
        Seq::empty()
    } else {
        spec_peers_encode(s.drop_last(), tag) + spec_field_bytes(
            tag,
            spec_peer_encode(s.last()),
        )
    }
}

/// The peer run splits at any position into the runs of the prefix and
/// the suffix.
pub proof fn lemma_peers_encode_split(s: Seq<Peer>, tag: u8, i: int)
    requires
        0 <= i <= s.len(),
    ensures
        spec_peers_encode(s, tag) == spec_peers_encode(s.take(i), tag) + spec_peers_encode(
            s.skip(i),
            tag,
        ),
    decreases s.len(),
{
    if i == s.len() {
        assert(s.take(i) =~= s);
        assert(s.skip(i) =~= Seq::<Peer>::empty());
        assert(spec_peers_encode(s, tag) + Seq::<u8>::empty() =~= spec_peers_encode(s, tag));
    } else {
        lemma_peers_encode_split(s.drop_last(), tag, i);
        assert(s.drop_last().take(i) =~= s.take(i));
        assert(s.skip(i).drop_last() =~= s.drop_last().skip(i));
        assert(s.skip(i).last() == s.last());
        assert(spec_peers_encode(s.skip(i), tag) == spec_peers_encode(
            s.drop_last().skip(i),
            tag,
        ) + spec_field_bytes(tag, spec_peer_encode(s.last())));
        assert((spec_peers_encode(s.take(i), tag) + spec_peers_encode(
            s.drop_last().skip(i),
            tag,
        )) + spec_field_bytes(tag, spec_peer_encode(s.last())) =~= spec_peers_encode(
            s.take(i),
            tag,
        ) + (spec_peers_encode(s.drop_last().skip(i), tag) + spec_field_bytes(
            tag,
            spec_peer_encode(s.last()),
        )));
    }
}

/// The encoding of one routing message: type, cluster level, key, the
/// carried record and both peer lists, wire defaults omitted, exactly in
/// field order.
pub open spec fn spec_message_encode(m: Message) -> Seq<u8> {
    (if m.type_pb == MessageType::PutValue {
        Seq::<u8>::empty()
    } else {
        seq![8u8] + spec_varint(spec_message_type_code(m.type_pb))
    }) + (if m.cluster_level_raw == 0 {
        Seq::<u8>::empty()
    } else {
        seq![80u8] + spec_varint(spec_i32_extend(m.cluster_level_raw))
    }) + (if m.key@.len() == 0 {
        Seq::<u8>::empty()
    } else {
        spec_field_bytes(18, m.key@)
    }) + (match m.record {
        None => Seq::<u8>::empty(),
        Some(r) => spec_field_bytes(26, spec_record_encode(r)),
    }) + spec_peers_encode(m.closer_peers@, 66) + spec_peers_encode(m.provider_peers@, 74)
}

/// Appends one run of embedded peers under a tag.
fn push_peers(out: &mut Vec<u8>, tag: u8, peers: &Vec<Peer>)
    requires
        forall|i: int|
            0 <= i < peers@.len() ==> spec_peer_encode(#[trigger] peers@[i]).len() <= usize::MAX,
    ensures
        final(out)@ == old(out)@ + spec_peers_encode(peers@, tag),
{
    let ghost base = old(out)@;
    proof {
        assert(spec_peers_encode(peers@.take(0), tag) =~= Seq::<u8>::empty());
        assert(out@ =~= base + spec_peers_encode(peers@.take(0), tag));
    }
    let n = peers.len();
    let mut i: usize = 0;
    while i < n
        invariant
            i <= n,
            n == peers@.len(),
            base == old(out)@,
            out@ == base + spec_peers_encode(peers@.take(i as int), tag),
            forall|j: int|
                0 <= j < peers@.len() ==> spec_peer_encode(#[trigger] peers@[j]).len()
                    <= usize::MAX,
        decreases n - i,
    {
        let ghost pre = out@;
        let sub_size = peers[i].get_size();
        out.push(tag);
        push_varint(out, sub_size as u64);
        peers[i].write_message(out);
        proof {
            assert(peers@.take(i + 1).drop_last() =~= peers@.take(i as int));
            assert(peers@.take(i + 1).last() == peers@[i as int]);
            assert(out@ =~= ((pre + seq![tag]) + spec_varint(sub_size as u64))
                + spec_peer_encode(peers@[i as int]));
            assert(out@ =~= pre + spec_field_bytes(tag, spec_peer_encode(peers@[i as int])));
            assert(out@ =~= base + spec_peers_encode(peers@.take(i + 1), tag));
        }
        i = i + 1;
    }
    proof {
        assert(peers@.take(n as int) =~= peers@);
    }
}

impl Message {
    /// Appends the message's encoding.
    #[verifier::rlimit(100)]
    #[verifier::spinoff_prover]
    pub fn write_message(&self, out: &mut Vec<u8>)
        requires
            spec_message_encode(*self).len() <= usize::MAX,
        ensures
            final(out)@ == old(out)@ + spec_message_encode(*self),
    {
        let ghost base = old(out)@;
        let ghost e1: Seq<u8> = if self.type_pb == MessageType::PutValue {
            Seq::<u8>::empty()
        } else {
            seq![8u8] + spec_varint(spec_message_type_code(self.type_pb))
        };
        let ghost e2: Seq<u8> = if self.cluster_level_raw == 0 {
            Seq::<u8>::empty()
        } else {
            seq![80u8] + spec_varint(spec_i32_extend(self.cluster_level_raw))
        };
        let ghost e3: Seq<u8> = if self.key@.len() == 0 {
            Seq::<u8>::empty()
        } else {
            spec_field_bytes(18, self.key@)
        };
        let ghost e4: Seq<u8> = match &self.record {
            None => Seq::<u8>::empty(),
            Some(r) => spec_field_bytes(26, spec_record_encode(*r)),
        };
        let ghost e5: Seq<u8> = spec_peers_encode(self.closer_peers@, 66);
        let ghost e6: Seq<u8> = spec_peers_encode(self.provider_peers@, 74);
        proof {
            lemma_peer_fields_bounded(*self);
            assert(spec_message_encode(*self) == ((((e1 + e2) + e3) + e4) + e5) + e6);
        }
        if !matches!(self.type_pb, MessageType::PutValue) {
            let ghost pre = out@;
            out.push(8u8);
            proof {
                assert(out@ =~= pre + seq![8u8]);
            }
            push_varint(out, self.type_pb.to_code());
        }
        proof {
            assert(out@ =~= base + e1);
        }
        let ghost b1 = base + e1;
        if self.cluster_level_raw != 0 {
            let ghost pre = out@;
            out.push(80u8);
            proof {
                assert(out@ =~= pre + seq![80u8]);
            }
            push_varint(out, i32_extend(self.cluster_level_raw));
        }
        proof {
            assert(out@ =~= b1 + e2);
        }
        let ghost b2 = b1 + e2;
        if self.key.len() > 0 {
            push_bytes_field(out, 18, &self.key);
        }
        proof {
            assert(out@ =~= b2 + e3);
        }
        let ghost b3 = b2 + e3;
        match &self.record {
            Some(r) => {
                let ghost pre = out@;
                let sub_size = r.get_size();
                out.push(26u8);
                push_varint(out, sub_size as u64);
                r.write_message(out);
                proof {
                    assert(out@ =~= pre + spec_field_bytes(26, spec_record_encode(*r)));
                }
            },
            None => {},
        }
        proof {
            assert(out@ =~= b3 + e4);
        }
        let ghost b4 = b3 + e4;
        push_peers(out, 66, &self.closer_peers);
        proof {
            assert(out@ =~= b4 + e5);
        }
        let ghost b5 = b4 + e5;
        push_peers(out, 74, &self.provider_peers);
        proof {
            assert(out@ =~= b5 + e6);
            assert(((((base + e1) + e2) + e3) + e4) + e5 =~= base + ((((e1 + e2) + e3) + e4)
                + e5));
            assert((base + ((((e1 + e2) + e3) + e4) + e5)) + e6 =~= base + (((((e1 + e2) + e3)
                + e4) + e5) + e6));
            assert(final(out)@ =~= base + spec_message_encode(*self));
        }
    }

    /// The exact size of the message's encoding.
    #[verifier::rlimit(80)]
    pub fn get_size(&self) -> (r: usize)
        requires
            spec_message_encode(*self).len() <= usize::MAX,
        ensures
            r == spec_message_encode(*self).len(),
    {
        proof {
            lemma_peer_fields_bounded(*self);
        }
        let ghost total = spec_message_encode(*self).len() as int;
        let mut size: usize = 0;
        if !matches!(self.type_pb, MessageType::PutValue) {
            size = size + 1 + varint_len(self.type_pb.to_code());
        }
        if self.cluster_level_raw != 0 {
            size = size + 1 + varint_len(i32_extend(self.cluster_level_raw));
        }
        if self.key.len() > 0 {
            size = size + 1 + varint_len(self.key.len() as u64) + self.key.len();
        }
        match &self.record {
            Some(r) => {
                let sub = r.get_size();
                size = size + 1 + varint_len(sub as u64) + sub;
            },
            None => {},
        }
        let ghost head = size as int;
        let n = self.closer_peers.len();
        let mut i: usize = 0;
        proof {
            assert(spec_peers_encode(self.closer_peers@.take(0), 66) =~= Seq::<u8>::empty());
        }
        while i < n
            invariant
                i <= n,
                n == self.closer_peers@.len(),
                size == head + spec_peers_encode(self.closer_peers@.take(i as int), 66).len(),
                head + spec_peers_encode(self.closer_peers@, 66).len() <= total,
                total <= usize::MAX,
                forall|j: int|
                    0 <= j < self.closer_peers@.len() ==> spec_peer_encode(
                        #[trigger] self.closer_peers@[j],
                    ).len() <= usize::MAX,
            decreases n - i,
        {
            proof {
                lemma_peers_encode_split(self.closer_peers@, 66, i as int);
                lemma_peers_encode_split(self.closer_peers@, 66, i + 1);
                assert(self.closer_peers@.take(i + 1).drop_last() =~= self.closer_peers@.take(
                    i as int,
                ));
                assert(self.closer_peers@.take(i + 1).last() == self.closer_peers@[i as int]);
            }
            let sub = self.closer_peers[i].get_size();
            size = size + 1 + varint_len(sub as u64) + sub;
            i = i + 1;
        }
        proof {
            assert(self.closer_peers@.take(n as int) =~= self.closer_peers@);
        }
        let ghost head2 = size as int;
        let n2 = self.provider_peers.len();
        let mut i2: usize = 0;
        proof {
            assert(spec_peers_encode(self.provider_peers@.take(0), 74) =~= Seq::<u8>::empty());
        }
        while i2 < n2
            invariant
                i2 <= n2,
                n2 == self.provider_peers@.len(),
                size == head2 + spec_peers_encode(self.provider_peers@.take(i2 as int), 74).len(),
                head2 + spec_peers_encode(self.provider_peers@, 74).len() <= total,
                total <= usize::MAX,
                forall|j: int|
                    0 <= j < self.provider_peers@.len() ==> spec_peer_encode(
                        #[trigger] self.provider_peers@[j],
                    ).len() <= usize::MAX,
            decreases n2 - i2,
        {
            proof {
                lemma_peers_encode_split(self.provider_peers@, 74, i2 as int);
                lemma_peers_encode_split(self.provider_peers@, 74, i2 + 1);
                assert(self.provider_peers@.take(i2 + 1).drop_last()
                    =~= self.provider_peers@.take(i2 as int));
                assert(self.provider_peers@.take(i2 + 1).last() == self.provider_peers@[
                    i2 as int
                ]);
            }
            let sub = self.provider_peers[i2].get_size();
            size = size + 1 + varint_len(sub as u64) + sub;
            i2 = i2 + 1;
        }
        proof {
            assert(self.provider_peers@.take(n2 as int) =~= self.provider_peers@);
        }
        size
    }
}

/// Every embedded part of a bounded message encoding is itself bounded.
pub proof fn lemma_peer_fields_bounded(m: Message)
    requires
        spec_message_encode(m).len() <= usize::MAX,
    ensures
        m.record matches Some(r) ==> spec_record_encode(r).len() <= usize::MAX,
        forall|j: int|
            0 <= j < m.closer_peers@.len() ==> spec_peer_encode(
                #[trigger] m.closer_peers@[j],
            ).len() <= usize::MAX,
        forall|j: int|
            0 <= j < m.provider_peers@.len() ==> spec_peer_encode(
                #[trigger] m.provider_peers@[j],
            ).len() <= usize::MAX,
{
    assert forall|j: int|
        0 <= j < m.closer_peers@.len() implies spec_peer_encode(
        #[trigger] m.closer_peers@[j],
    ).len() <= usize::MAX by {
        lemma_peers_encode_split(m.closer_peers@, 66, j);
        lemma_peers_encode_split(m.closer_peers@.skip(j), 66, 1);
        assert(m.closer_peers@.skip(j).take(1).drop_last() =~= Seq::<Peer>::empty());
        assert(m.closer_peers@.skip(j).take(1).last() == m.closer_peers@[j]);
    }
    assert forall|j: int|
        0 <= j < m.provider_peers@.len() implies spec_peer_encode(
        #[trigger] m.provider_peers@[j],
    ).len() <= usize::MAX by {
        lemma_peers_encode_split(m.provider_peers@, 74, j);
        lemma_peers_encode_split(m.provider_peers@.skip(j), 74, 1);
        assert(m.provider_peers@.skip(j).take(1).drop_last() =~= Seq::<Peer>::empty());
        assert(m.provider_peers@.skip(j).take(1).last() == m.provider_peers@[j]);
    }
}

} // verus!
