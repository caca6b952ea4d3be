//! Bounded packet history and exact-record historical replay.
//!
//! A stream packet carries `n_records` records of `n_sources` 4-byte values
//! after its header. The history keeps whole packets, newest last, and drops
//! the oldest whole packets once the retained record count exceeds the
//! capacity. A replay of the most recent `n` records trims only the oldest
//! packet it returns.

use std::collections::VecDeque;

use vstd::prelude::*;

use crate::bytes::{
    from_le16, from_le32, le16, le32, lemma_le16_round_trip, lemma_le32_round_trip, put_u16,
    put_u32, u16_from_le, u32_from_le,
};

verus! {

/// Fields of a stream packet header.
#[derive(Clone, Copy, Debug, PartialEq, Eq, Structural)]
pub struct StreamHeader {
    pub n_sources: u8,
    pub seq: u32,
    pub first_index: u32,
    pub dropped: u32,
    pub decimation: u16,
    pub n_records: u16,
}

/// Bytes of the stream packet header: sources (1), sequence number (4),
/// first sample index (4), dropped records (4), decimation (2), records (2),
/// each little endian.
pub const STREAM_HEADER_LEN: usize = 17;

/// Wire bytes of a stream packet header.
pub open spec fn header_bytes(h: StreamHeader) -> Seq<u8> {
    seq![h.n_sources] + le32(h.seq) + le32(h.first_index) + le32(h.dropped) + le16(h.decimation)
        + le16(h.n_records)
}

/// The header read from the first `STREAM_HEADER_LEN` bytes of `w`.
pub open spec fn header_from(w: Seq<u8>) -> StreamHeader {
    StreamHeader {
        n_sources: w[0],
        seq: from_le32(w[1], w[2], w[3], w[4]),
        first_index: from_le32(w[5], w[6], w[7], w[8]),
        dropped: from_le32(w[9], w[10], w[11], w[12]),
        decimation: from_le16(w[13], w[14]),
        n_records: from_le16(w[15], w[16]),
    }
}

impl StreamHeader {
    /// Read the header at the start of a stream datagram; `None` when the
    /// datagram is shorter than a header.
    pub fn decode(wire: &[u8]) -> (r: Option<StreamHeader>)
        ensures
            r is Some <==> wire@.len() >= STREAM_HEADER_LEN,
            r matches Some(h) ==> h == header_from(wire@),
    {
        if wire.len() < STREAM_HEADER_LEN {
            return None;
        }
        Some(
            StreamHeader {
                n_sources: wire[0],
                seq: u32_from_le(wire[1], wire[2], wire[3], wire[4]),
                first_index: u32_from_le(wire[5], wire[6], wire[7], wire[8]),
                dropped: u32_from_le(wire[9], wire[10], wire[11], wire[12]),
                decimation: u16_from_le(wire[13], wire[14]),
                n_records: u16_from_le(wire[15], wire[16]),
            },
        )
    }

    /// Write the header into the first `STREAM_HEADER_LEN` bytes of `out`.
    pub fn encode(&self, out: &mut [u8])
        requires
            old(out)@.len() >= STREAM_HEADER_LEN,
        ensures
            final(out)@ == header_bytes(*self) + old(out)@.skip(STREAM_HEADER_LEN as int),
    {
        let ghost original = out@;
        out[0] = self.n_sources;
        put_u32(out, 1, self.seq);
        put_u32(out, 5, self.first_index);
        put_u32(out, 9, self.dropped);
        put_u16(out, 13, self.decimation);
        put_u16(out, 15, self.n_records);
        assert(out@ =~= header_bytes(*self) + original.skip(STREAM_HEADER_LEN as int));
    }
}

/// Round trip: the header read back from its wire bytes, whatever follows
/// them, is the header written.
pub proof fn lemma_header_round_trip(h: StreamHeader, rest: Seq<u8>)
    ensures
        header_from(header_bytes(h) + rest) == h,
        (header_bytes(h) + rest).len() == STREAM_HEADER_LEN + rest.len(),
{
    let w = header_bytes(h) + rest;
    lemma_le32_round_trip(h.seq);
    lemma_le32_round_trip(h.first_index);
    lemma_le32_round_trip(h.dropped);
    lemma_le16_round_trip(h.decimation);
    lemma_le16_round_trip(h.n_records);
    assert(w[1] == le32(h.seq)[0] && w[2] == le32(h.seq)[1] && w[3] == le32(h.seq)[2] && w[4]
        == le32(h.seq)[3]);
    assert(w[5] == le32(h.first_index)[0] && w[6] == le32(h.first_index)[1] && w[7] == le32(
        h.first_index,
    )[2] && w[8] == le32(h.first_index)[3]);
    assert(w[9] == le32(h.dropped)[0] && w[10] == le32(h.dropped)[1] && w[11] == le32(h.dropped)[2]
        && w[12] == le32(h.dropped)[3]);
    assert(w[13] == le16(h.decimation)[0] && w[14] == le16(h.decimation)[1]);
    assert(w[15] == le16(h.n_records)[0] && w[16] == le16(h.n_records)[1]);
}

#[derive(Clone, Copy, Debug, PartialEq, Eq, Structural)]
pub enum PacketError {
    /// The datagram is shorter than a stream header.
    ShortHeader,
    /// The packet has no sources or no records.
    Empty,
    /// The record bytes do not hold exactly `n_sources * n_records` values.
    BadLength,
}

/// One received stream packet: its header, the record bytes that follow the
/// header on the wire, and the reception time.
#[derive(Debug)]
pub struct Packet {
    header: StreamHeader,
    records: Vec<u8>,
    received_utc_ns: i64,
}

/// Bytes of `n_records` records of `n_sources` values.
pub open spec fn record_bytes_len(h: StreamHeader) -> int {
    4 * h.n_sources * h.n_records
}

impl Packet {
    pub closed spec fn spec_header(&self) -> StreamHeader {
        self.header
    }

    pub closed spec fn spec_records(&self) -> Seq<u8> {
        self.records@
    }

    pub closed spec fn spec_received(&self) -> i64 {
        self.received_utc_ns
    }

    #[verifier::type_invariant]
    closed spec fn wf(&self) -> bool {
        &&& self.header.n_sources > 0
        &&& self.header.n_records > 0
        &&& self.records@.len() == record_bytes_len(self.header)
    }

    /// Read a received stream datagram: its header, then record bytes that
    /// hold exactly `n_sources * n_records` values.
    pub fn decode(wire: &[u8], received_utc_ns: i64) -> (r: Result<Packet, PacketError>)
        ensures
            wire@.len() < STREAM_HEADER_LEN ==> r == Err::<Packet, PacketError>(
                PacketError::ShortHeader,
            ),
            ({
                let h = header_from(wire@);
                wire@.len() >= STREAM_HEADER_LEN ==> {
                    &&& h.n_sources == 0 || h.n_records == 0 ==> r == Err::<Packet, PacketError>(
                        PacketError::Empty,
                    )
                    &&& h.n_sources > 0 && h.n_records > 0 && wire@.len() != STREAM_HEADER_LEN
                        + record_bytes_len(h) ==> r == Err::<Packet, PacketError>(
                        PacketError::BadLength,
                    )
                    &&& h.n_sources > 0 && h.n_records > 0 && wire@.len() == STREAM_HEADER_LEN
                        + record_bytes_len(h) ==> r is Ok
                }
            }),
            r matches Ok(p) ==> p.spec_header() == header_from(wire@) && p.spec_records()
                == wire@.skip(STREAM_HEADER_LEN as int) && p.spec_received() == received_utc_ns,
    {
        let header = match StreamHeader::decode(wire) {
            Some(h) => h,
            None => {
                return Err(PacketError::ShortHeader);
            },
        };
        if header.n_sources == 0 || header.n_records == 0 {
            return Err(PacketError::Empty);
        }
        let ns = header.n_sources as usize;
        let nr = header.n_records as usize;
        assert(4 * ns * nr <= 4 * 255 * 65535) by (nonlinear_arith)
            requires
                ns <= 255,
                nr <= 65535,
        ;
        let expected = STREAM_HEADER_LEN + 4 * ns * nr;
        if wire.len() != expected {
            return Err(PacketError::BadLength);
        }
        let mut records: Vec<u8> = Vec::new();
        let mut i: usize = STREAM_HEADER_LEN;
        while i < wire.len()
            invariant
                STREAM_HEADER_LEN <= i <= wire@.len(),
                records@ == wire@.subrange(STREAM_HEADER_LEN as int, i as int),
            decreases wire@.len() - i,
        {
            records.push(wire[i]);
            i = i + 1;
            assert(records@ =~= wire@.subrange(STREAM_HEADER_LEN as int, i as int));
        }
        assert(records@ =~= wire@.skip(STREAM_HEADER_LEN as int));
        Ok(Packet { header, records, received_utc_ns })
    }

    pub fn header(&self) -> (h: StreamHeader)
        ensures
            h == self.spec_header(),
    {
        self.header
    }

    pub fn records(&self) -> (r: &[u8])
        ensures
            r@ == self.spec_records(),
    {
        self.records.as_slice()
    }

    pub fn received_utc_ns(&self) -> (t: i64)
        ensures
            t == self.spec_received(),
    {
        self.received_utc_ns
    }

    /// A copy of this packet.
    pub fn duplicate(&self) -> (p: Packet)
        ensures
            same_packet(p, *self),
    {
        proof {
            use_type_invariant(self);
        }
        let records = self.records.clone();
        assert(records@ =~= self.records@);
        Packet { header: self.header, records, received_utc_ns: self.received_utc_ns }
    }
}

/// The two packets have the same header, records and reception time.
pub open spec fn same_packet(a: Packet, b: Packet) -> bool {
    &&& a.spec_header() == b.spec_header()
    &&& a.spec_records() == b.spec_records()
    &&& a.spec_received() == b.spec_received()
}

/// Records held by a sequence of packets.
pub open spec fn total_records(s: Seq<Packet>) -> nat
    decreases s.len(),
{
    if s.len() == 0 {
        0
    } else {
        s[0].spec_header().n_records as nat + total_records(s.drop_first())
    }
}

/// The packets kept after dropping the oldest whole packets while more than
/// `capacity` records remain and more than one packet is held.
pub open spec fn trimmed(s: Seq<Packet>, capacity: nat) -> Seq<Packet>
    decreases s.len(),
{
    if total_records(s) > capacity && s.len() > 1 {
        trimmed(s.drop_first(), capacity)
    } else {
        s
    }
}

/// Appending a packet adds its records to the record count.
pub proof fn lemma_total_push(s: Seq<Packet>, p: Packet)
    ensures
        total_records(s.push(p)) == total_records(s) + p.spec_header().n_records,
    decreases s.len(),
{
    if s.len() > 0 {
        assert(s.push(p).drop_first() =~= s.drop_first().push(p));
        assert(s.push(p)[0] == s[0]);
        lemma_total_push(s.drop_first(), p);
        assert(total_records(s.push(p)) == s[0].spec_header().n_records as nat + total_records(
            s.drop_first().push(p),
        ));
        assert(total_records(s) == s[0].spec_header().n_records as nat + total_records(
            s.drop_first(),
        ));
    } else {
        assert(s.push(p).drop_first() =~= Seq::<Packet>::empty());
        assert(s.push(p)[0] == p);
        assert(total_records(s.push(p)) == p.spec_header().n_records as nat + total_records(
            Seq::<Packet>::empty(),
        ));
    }
}

/// Suffix form of the record count: the records from `i` on are packet `i`'s
/// plus those after it.
pub proof fn lemma_total_skip(s: Seq<Packet>, i: int)
    requires
        0 <= i < s.len(),
    ensures
        total_records(s.skip(i)) == s[i].spec_header().n_records + total_records(s.skip(i + 1)),
{
    assert(s.skip(i).drop_first() =~= s.skip(i + 1));
}

/// Trimming keeps a suffix of the packets: it removes whole packets only,
/// and only from the oldest end.
pub proof fn lemma_trimmed_is_suffix(s: Seq<Packet>, capacity: nat)
    ensures
        trimmed(s, capacity).len() <= s.len(),
        trimmed(s, capacity) == s.skip(s.len() - trimmed(s, capacity).len()),
        s.len() > 0 ==> trimmed(s, capacity).len() > 0,
    decreases s.len(),
{
    if total_records(s) > capacity && s.len() > 1 {
        lemma_trimmed_is_suffix(s.drop_first(), capacity);
        let t = trimmed(s.drop_first(), capacity);
        assert(s.drop_first().skip(s.drop_first().len() - t.len()) =~= s.skip(s.len() - t.len()));
    } else {
        assert(s.skip(0) =~= s);
    }
}

/// The history bound: after trimming, the retained records fit the capacity
/// unless a single packet alone exceeds it.
pub proof fn lemma_trimmed_within_capacity(s: Seq<Packet>, capacity: nat)
    ensures
        total_records(trimmed(s, capacity)) <= capacity || trimmed(s, capacity).len() <= 1,
    decreases s.len(),
{
    if total_records(s) > capacity && s.len() > 1 {
        lemma_trimmed_within_capacity(s.drop_first(), capacity);
    }
}

/// What a history holds after pushing `ps` in order onto an empty history
/// of capacity `capacity`: each push appends and then trims.
pub open spec fn pushed(ps: Seq<Packet>, capacity: nat) -> Seq<Packet>
    decreases ps.len(),
{
    if ps.len() == 0 {
        Seq::empty()
    } else {
        trimmed(pushed(ps.drop_last(), capacity).push(ps.last()), capacity)
    }
}

/// The first index from `a` on whose suffix of `s` holds at most
/// `capacity` records, or the last index when none before it does.
pub open spec fn first_fit(s: Seq<Packet>, a: int, capacity: nat) -> int
    decreases s.len() - a,
{
    if a >= s.len() - 1 || total_records(s.skip(a)) <= capacity {
        a
    } else {
        first_fit(s, a + 1, capacity)
    }
}

proof fn lemma_trimmed_suffix_fit(s: Seq<Packet>, a: int, capacity: nat)
    requires
        0 <= a < s.len(),
    ensures
        trimmed(s.skip(a), capacity) == s.skip(first_fit(s, a, capacity)),
        a <= first_fit(s, a, capacity) < s.len(),
        forall|j: int|
            a <= j < first_fit(s, a, capacity) ==> j < s.len() - 1 && total_records(#[trigger] s.skip(j))
                > capacity,
    decreases s.len() - a,
{
    if a >= s.len() - 1 || total_records(s.skip(a)) <= capacity {
    } else {
        assert(s.skip(a).drop_first() =~= s.skip(a + 1));
        lemma_trimmed_suffix_fit(s, a + 1, capacity);
    }
}

proof fn lemma_first_fit_skips(s: Seq<Packet>, k: int, capacity: nat)
    requires
        0 <= k < s.len(),
        forall|j: int| 0 <= j < k ==> total_records(#[trigger] s.skip(j)) > capacity,
    ensures
        first_fit(s, 0, capacity) == first_fit(s, k, capacity),
    decreases k,
{
    if k > 0 {
        lemma_first_fit_skips_from(s, 0, k, capacity);
    }
}

proof fn lemma_first_fit_skips_from(s: Seq<Packet>, a: int, k: int, capacity: nat)
    requires
        0 <= a <= k < s.len(),
        forall|j: int| a <= j < k ==> total_records(#[trigger] s.skip(j)) > capacity,
    ensures
        first_fit(s, a, capacity) == first_fit(s, k, capacity),
    decreases k - a,
{
    if a < k {
        assert(total_records(s.skip(a)) > capacity);
        lemma_first_fit_skips_from(s, a + 1, k, capacity);
    }
}

/// Whole-packet retention: after `reset` and pushes of `ps` with no clear
/// in between, the history holds exactly the packets from the first one
/// whose suffix fits the capacity, or only the newest when it alone exceeds
/// the capacity.
pub proof fn lemma_history_keeps_fitting_suffix(ps: Seq<Packet>, capacity: nat)
    requires
        ps.len() >= 1,
    ensures
        pushed(ps, capacity) == ps.skip(first_fit(ps, 0, capacity)),
    decreases ps.len(),
{
    let m = ps.len();
    let d = ps.drop_last();
    let p = ps.last();
    if m == 1 {
        assert(pushed(d, capacity) =~= Seq::<Packet>::empty());
        assert(Seq::<Packet>::empty().push(p) =~= ps.skip(0));
        lemma_trimmed_suffix_fit(ps, 0, capacity);
    } else {
        lemma_history_keeps_fitting_suffix(d, capacity);
        let k = first_fit(d, 0, capacity);
        lemma_trimmed_suffix_fit(d, 0, capacity);
        assert(d.skip(k).push(p) =~= ps.skip(k));
        lemma_trimmed_suffix_fit(ps, k, capacity);
        assert forall|j: int| 0 <= j < k implies total_records(#[trigger] ps.skip(j)) > capacity by {
            assert(d.skip(j).push(p) =~= ps.skip(j));
            lemma_total_push(d.skip(j), p);
            assert(total_records(d.skip(j)) > capacity);
        }
        lemma_first_fit_skips(ps, k, capacity);
    }
}

/// Bounded history of whole packets, newest last.
#[derive(Debug)]
pub struct History {
    packets: VecDeque<Packet>,
    records: usize,
    capacity_records: usize,
}

impl Default for History {
    fn default() -> (h: Self)
        ensures
            h.wf(),
            h.spec_packets().len() == 0,
            h.spec_capacity() == 0,
    {
        History::new()
    }
}

/// Index of the oldest packet a replay of `requested` records starts from:
/// the newest packets are taken until they hold at least `requested`
/// records.
pub open spec fn replay_start(s: Seq<Packet>, requested: int) -> int
    decreases s.len(),
{
    if s.len() == 0 {
        0
    } else if s.last().spec_header().n_records >= requested {
        s.len() - 1
    } else {
        replay_start(s.drop_last(), requested - s.last().spec_header().n_records)
    }
}

/// Header of the oldest replayed packet after dropping its first `excess`
/// records.
pub open spec fn trimmed_header(h: StreamHeader, excess: int) -> StreamHeader {
    StreamHeader {
        first_index: ((h.first_index + excess * h.decimation) % 4294967296) as u32,
        n_records: (h.n_records - excess) as u16,
        ..h
    }
}

/// `v` replays the most recent `requested` records of `s`: the newest
/// packets that hold them, the oldest one trimmed to drop the records
/// before them.
pub open spec fn is_replay(s: Seq<Packet>, requested: int, v: Seq<Packet>) -> bool {
    let start = replay_start(s, requested);
    let excess = total_records(s.skip(start)) - requested;
    &&& 0 <= start < s.len()
    &&& v.len() == s.len() - start
    &&& total_records(v) == requested
    &&& 0 <= excess < s[start].spec_header().n_records
    &&& v[0].spec_header() == trimmed_header(s[start].spec_header(), excess)
    &&& v[0].spec_records() == s[start].spec_records().skip(
        excess * 4 * s[start].spec_header().n_sources,
    )
    &&& v[0].spec_received() == s[start].spec_received()
    &&& forall|j: int| 0 < j < v.len() ==> #[trigger] same_packet(v[j], s[start + j])
}

impl History {
    /// Packets held, oldest first.
    pub closed spec fn spec_packets(&self) -> Seq<Packet> {
        self.packets@
    }

    /// Retention limit in records.
    pub closed spec fn spec_capacity(&self) -> nat {
        self.capacity_records as nat
    }

    /// The record count matches the packets held.
    pub closed spec fn wf(&self) -> bool {
        self.records == total_records(self.packets@)
    }

    /// An empty history with capacity zero (every push keeps only the newest
    /// packet until `reset` sets a capacity).
    pub fn new() -> (h: Self)
        ensures
            h.wf(),
            h.spec_packets().len() == 0,
            h.spec_capacity() == 0,
    {
        History { packets: VecDeque::new(), records: 0, capacity_records: 0 }
    }

    /// Empty the history and set its capacity (at least one record).
    pub fn reset(&mut self, capacity_records: usize)
        ensures
            final(self).wf(),
            final(self).spec_packets().len() == 0,
            final(self).spec_capacity() == if capacity_records >= 1 {
                capacity_records as nat
            } else {
                1
            },
    {
        self.packets.clear();
        self.records = 0;
        self.capacity_records = if capacity_records >= 1 {
            capacity_records
        } else {
            1
        };
    }

    /// Empty the history, keeping its capacity.
    pub fn clear(&mut self)
        ensures
            final(self).wf(),
            final(self).spec_packets().len() == 0,
            final(self).spec_capacity() == old(self).spec_capacity(),
    {
        self.packets.clear();
        self.records = 0;
    }

    /// Records held.
    pub fn records(&self) -> (n: usize)
        requires
            self.wf(),
        ensures
            n == total_records(self.spec_packets()),
    {
        self.records
    }

    /// Append a packet, then drop the oldest whole packets while the history
    /// holds more than its capacity and more than one packet.
    pub fn push(&mut self, packet: Packet)
        requires
            old(self).wf(),
            total_records(old(self).spec_packets()) + packet.spec_header().n_records
                <= usize::MAX,
        ensures
            final(self).wf(),
            final(self).spec_capacity() == old(self).spec_capacity(),
            final(self).spec_packets() == trimmed(
                old(self).spec_packets().push(packet),
                old(self).spec_capacity(),
            ),
    {
        let ghost all = self.packets@.push(packet);
        proof {
            lemma_total_push(self.packets@, packet);
        }
        self.records = self.records + packet.header.n_records as usize;
        self.packets.push_back(packet);
        while self.records > self.capacity_records && self.packets.len() > 1
            invariant
                self.records == total_records(self.packets@),
                trimmed(all, self.capacity_records as nat) == trimmed(
                    self.packets@,
                    self.capacity_records as nat,
                ),
                self.capacity_records == old(self).capacity_records,
            decreases self.packets@.len(),
        {
            let ghost before = self.packets@;
            let removed = self.packets.pop_front();
            match removed {
                Some(p) => {
                    assert(self.packets@ =~= before.drop_first());
                    self.records = self.records - p.header.n_records as usize;
                },
                None => {},
            }
        }
    }

    /// The most recent `requested` records as whole packets, oldest first,
    /// with the oldest packet trimmed to drop the records before them.
    pub fn recent(&self, requested: usize) -> (r: Option<Vec<Packet>>)
        requires
            self.wf(),
        ensures
            requested == 0 || requested > total_records(self.spec_packets()) ==> r is None,
            0 < requested <= total_records(self.spec_packets()) ==> r is Some,
            r matches Some(v) ==> is_replay(self.spec_packets(), requested as int, v@),
    {
        if requested == 0 || requested > self.records {
            return None;
        }
        let ghost s = self.packets@;
        let mut idx = self.packets.len();
        let mut records: usize = 0;
        proof {
            assert(s.skip(s.len() as int) =~= Seq::<Packet>::empty());
            assert(s.take(s.len() as int) =~= s);
        }
        loop
            invariant_except_break
                idx <= s.len(),
                s == self.packets@,
                total_records(s) == self.records,
                records == total_records(s.skip(idx as int)),
                records < requested,
                requested <= total_records(s),
                0 < requested,
                replay_start(s, requested as int) == replay_start(
                    s.take(idx as int),
                    requested - records,
                ),
            ensures
                0 < idx <= s.len(),
                records == total_records(s.skip(idx - 1)),
                records >= requested,
                records - s[idx - 1].spec_header().n_records < requested,
                replay_start(s, requested as int) == idx - 1,
            decreases idx,
        {
            if idx == 0 {
                proof {
                    assert(s.skip(0) =~= s);
                }
                return None;
            }
            let n = self.packets[idx - 1].header.n_records as usize;
            proof {
                lemma_total_skip(s, idx - 1);
                assert(s.take(idx as int).drop_last() =~= s.take(idx - 1));
                assert(s.take(idx as int).last() == s[idx - 1]);
                assert(records + n <= total_records(s)) by {
                    lemma_total_suffix_bound(s, idx - 1);
                }
            }
            let ghost before = records;
            records = records + n;
            if records >= requested {
                break;
            }
            idx = idx - 1;
        }
        let start = idx - 1;
        let excess = records - requested;
        let mut result: Vec<Packet> = Vec::new();
        let first = &self.packets[start];
        proof {
            use_type_invariant(first);
        }
        if excess == 0 {
            let copy = first.duplicate();
            proof {
                let h = first.header;
                assert(h.first_index + excess * h.decimation == h.first_index) by (nonlinear_arith)
                    requires
                        excess == 0,
                ;
                assert(trimmed_header(h, excess as int) == h);
                assert(excess * 4 * h.n_sources == 0) by (nonlinear_arith)
                    requires
                        excess == 0,
                ;
                assert(first.records@.skip(0) =~= first.records@);
            }
            result.push(copy);
        } else {
            let ns = first.header.n_sources as usize;
            assert(excess * 4 * ns <= 65535 * 4 * 255) by (nonlinear_arith)
                requires
                    excess <= 65535,
                    ns <= 255,
            ;
            let offset = excess * 4 * ns;
            assert(offset <= first.records@.len()) by (nonlinear_arith)
                requires
                    offset == excess * 4 * ns,
                    first.records@.len() == 4 * ns * first.header.n_records,
                    excess < first.header.n_records,
            ;
            let mut header = first.header;
            let ex = excess as u64;
            let dec = header.decimation as u64;
            assert(ex * dec <= 65535 * 65535) by (nonlinear_arith)
                requires
                    ex <= 65535,
                    dec <= 65535,
            ;
            let add = ex * dec;
            header.first_index = ((header.first_index as u64 + add % 4294967296) % 4294967296) as u32;
            header.n_records = header.n_records - excess as u16;
            let mut data: Vec<u8> = Vec::new();
            let mut k = offset;
            while k < first.records.len()
                invariant
                    offset <= k <= first.records@.len(),
                    data@ == first.records@.subrange(offset as int, k as int),
                decreases first.records@.len() - k,
            {
                data.push(first.records[k]);
                k = k + 1;
                assert(data@ =~= first.records@.subrange(offset as int, k as int));
            }
            assert(data@ =~= first.records@.skip(offset as int));
            assert(data@.len() == 4 * ns * (first.header.n_records - excess)) by (nonlinear_arith)
                requires
                    data@.len() == first.records@.len() - offset,
                    offset == excess * 4 * ns,
                    first.records@.len() == 4 * ns * first.header.n_records,
            ;
            let trimmed_packet = Packet { header, records: data, received_utc_ns: first.received_utc_ns };
            assert(trimmed_packet.spec_header() == trimmed_header(first.header, excess as int));
            result.push(trimmed_packet);
        }
        let ghost head = result@[0];
        proof {
            let h = s[start as int].spec_header();
            assert(head.spec_header() == trimmed_header(h, excess as int));
            assert(head.spec_records() =~= s[start as int].spec_records().skip(
                excess * 4 * h.n_sources,
            ));
        }
        let mut j = start + 1;
        while j < self.packets.len()
            invariant
                start < j <= s.len(),
                result@.len() > 0,
                result@[0] == head,
                s == self.packets@,
                result@.len() == j - start,
                forall|i: int| 0 < i < j - start ==> #[trigger] same_packet(result@[i], s[start + i]),
            decreases s.len() - j,
        {
            result.push(self.packets[j].duplicate());
            j = j + 1;
        }
        assert forall|i: int| 0 <= i < result@.drop_first().len() implies #[trigger] result@.drop_first()[i].spec_header()
            == s.skip(start + 1)[i].spec_header() by {
            let k = i + 1;
            assert(same_packet(result@[k], s[start + k]));
            assert(s.skip(start + 1)[i] == s[start + k]);
        }
        proof {
            let v = result@;
            lemma_total_skip(s, start as int);
            lemma_total_same_headers(v.drop_first(), s.skip(start + 1));
            assert(total_records(v) == v[0].spec_header().n_records as nat + total_records(
                v.drop_first(),
            ));
        }
        Some(result)
    }
}

proof fn lemma_total_same_headers(a: Seq<Packet>, b: Seq<Packet>)
    requires
        a.len() == b.len(),
        forall|i: int| 0 <= i < a.len() ==> #[trigger] a[i].spec_header() == b[i].spec_header(),
    ensures
        total_records(a) == total_records(b),
    decreases a.len(),
{
    if a.len() > 0 {
        lemma_total_same_headers(a.drop_first(), b.drop_first());
    }
}

proof fn lemma_total_suffix_bound(s: Seq<Packet>, i: int)
    requires
        0 <= i <= s.len(),
    ensures
        total_records(s.skip(i)) <= total_records(s),
    decreases i,
{
    if i > 0 {
        lemma_total_suffix_bound(s, i - 1);
        lemma_total_skip(s, i - 1);
    } else {
        assert(s.skip(0) =~= s);
    }
}

} // verus!
