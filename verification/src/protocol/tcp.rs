//! TCP stream reassembly.
//!
//! Segments are buffered by sequence number and released in order: a stream
//! hands out every byte run that continues its next expected sequence number,
//! and keeps later segments until the gap before them is filled. Streams are
//! kept per flow. Times are milliseconds on the caller's monotonic clock.

use crate::common::types::{FiveTuple, IpAddr, Protocol};
use std::collections::BTreeMap;
use vstd::prelude::*;
use vstd::std_specs::iter::IteratorSpec;

verus! {

/// State of a stream's reassembly.
#[derive(Debug, Clone, Copy, PartialEq, Eq, Structural)]
pub enum ReassemblyStatus {
    /// Still collecting segments.
    InProgress,
    /// Finished with no segment left waiting.
    Completed,
    /// Finished with this many segments still waiting for a gap to close.
    Failed(u32),
}

/// One TCP stream being reassembled.
#[derive(Debug)]
pub struct TcpStream {
    /// The flow.
    pub five_tuple: FiveTuple,
    /// Buffered segments by sequence number.
    pub segments: BTreeMap<u32, Vec<u8>>,
    /// The next expected sequence number.
    pub next_seq: u32,
    /// Reassembly state.
    pub status: ReassemblyStatus,
    /// Missing segment count.
    pub missing_count: u32,
    /// Time of the last segment (ms).
    pub last_activity: u64,
    /// Bytes released in order and not yet handed out.
    pub reassembled_payload: Vec<u8>,
}

/// The mathematical content of a [`TcpStream`].
pub struct TcpStreamView {
    pub five_tuple: FiveTuple,
    pub segments: Map<u32, Seq<u8>>,
    pub next_seq: u32,
    pub status: ReassemblyStatus,
    pub missing_count: u32,
    pub last_activity: u64,
    pub reassembled_payload: Seq<u8>,
}

/// The byte contents of a segment map.
pub open spec fn segment_bytes(m: Map<u32, Vec<u8>>) -> Map<u32, Seq<u8>> {
    m.map_values(|v: Vec<u8>| v@)
}

impl View for TcpStream {
    type V = TcpStreamView;

    open spec fn view(&self) -> TcpStreamView {
        TcpStreamView {
            five_tuple: self.five_tuple,
            segments: segment_bytes(self.segments@),
            next_seq: self.next_seq,
            status: self.status,
            missing_count: self.missing_count,
            last_activity: self.last_activity,
            reassembled_payload: self.reassembled_payload@,
        }
    }
}

/// The sequence number `len` bytes after `cur`, modulo 2^32.
pub open spec fn seq_advance(cur: u32, len: nat) -> u32 {
    ((cur as nat + len) % 0x1_0000_0000) as u32
}

/// Releases segments in order from `cur`: while a segment starts at the
/// current sequence number it is removed and its bytes appended. Gives the
/// released bytes, the sequence number reached and the segments left.
pub open spec fn drain(segs: Map<u32, Seq<u8>>, cur: u32) -> (Seq<u8>, u32, Map<u32, Seq<u8>>)
    decreases segs.dom().len(),
{
    if segs.dom().finite() && segs.contains_key(cur) {
        proof {
            vstd::set::axiom_set_remove_len(segs.dom(), cur);
            assert(segs.remove(cur).dom() =~= segs.dom().remove(cur));
        }
        let r = drain(segs.remove(cur), seq_advance(cur, segs[cur].len()));
        (segs[cur] + r.0, r.1, r.2)
    } else {
        (Seq::empty(), cur, segs)
    }
}

/// A fresh stream of flow `t` expecting `seq` first.
pub open spec fn fresh_stream(t: FiveTuple, seq: u32, now_ms: u64) -> TcpStreamView {
    TcpStreamView {
        five_tuple: t,
        segments: Map::empty(),
        next_seq: seq,
        status: ReassemblyStatus::InProgress,
        missing_count: 0,
        last_activity: now_ms,
        reassembled_payload: Seq::empty(),
    }
}

/// The stream after buffering `data` at `seq` at time `now_ms`.
pub open spec fn with_segment(s: TcpStreamView, seq: u32, data: Seq<u8>, now_ms: u64) -> TcpStreamView {
    TcpStreamView { segments: s.segments.insert(seq, data), last_activity: now_ms, ..s }
}

/// The bytes that the next reassembly of `s` releases.
pub open spec fn released(s: TcpStreamView) -> Seq<u8> {
    drain(s.segments, s.next_seq).0
}

/// The stream after one reassembly.
pub open spec fn reassembled(s: TcpStreamView) -> TcpStreamView {
    let r = drain(s.segments, s.next_seq);
    TcpStreamView {
        segments: r.2,
        next_seq: if r.0.len() > 0 {
            r.1
        } else {
            s.next_seq
        },
        reassembled_payload: s.reassembled_payload + r.0,
        ..s
    }
}

/// The stream after it is declared finished.
pub open spec fn completed(s: TcpStreamView) -> TcpStreamView {
    TcpStreamView {
        status: if s.segments.dom().len() == 0 {
            ReassemblyStatus::Completed
        } else {
            ReassemblyStatus::Failed(s.segments.dom().len() as u32)
        },
        ..s
    }
}

/// Whether a stream last active at `last` has been idle longer than
/// `timeout_ms` at `now_ms`.
pub open spec fn idle_longer_than(last: u64, now_ms: u64, timeout_ms: u64) -> bool {
    now_ms > last && now_ms - last > timeout_ms
}

proof fn lemma_segments_finite(m: Map<u32, Vec<u8>>)
    requires
        m.dom().finite(),
    ensures
        segment_bytes(m).dom().finite(),
        segment_bytes(m).dom() == m.dom(),
{
    assert(segment_bytes(m).dom() =~= m.dom());
}

proof fn lemma_segment_bytes_remove(m: Map<u32, Vec<u8>>, k: u32)
    ensures
        segment_bytes(m.remove(k)) == segment_bytes(m).remove(k),
{
    assert(segment_bytes(m.remove(k)) =~= segment_bytes(m).remove(k));
}

impl TcpStream {
    /// A new stream of flow `five_tuple` whose first expected sequence
    /// number is `initial_seq`.
    pub fn new(five_tuple: FiveTuple, initial_seq: u32, now_ms: u64) -> (s: Self)
        ensures
            s@ == fresh_stream(five_tuple, initial_seq, now_ms),
    {
        let s = TcpStream {
            five_tuple,
            segments: BTreeMap::new(),
            next_seq: initial_seq,
            status: ReassemblyStatus::InProgress,
            missing_count: 0,
            last_activity: now_ms,
            reassembled_payload: Vec::new(),
        };
        assert(s@.segments =~= Map::<u32, Seq<u8>>::empty());
        assert(s@.reassembled_payload =~= Seq::<u8>::empty());
        s
    }

    /// Buffers `data` at sequence number `seq` (replacing a segment buffered
    /// there before) and records the activity time.
    pub fn add_segment(&mut self, seq: u32, data: Vec<u8>, now_ms: u64)
        ensures
            final(self)@ == with_segment(old(self)@, seq, data@, now_ms),
    {
        self.segments.insert(seq, data);
        self.last_activity = now_ms;
        assert(final(self)@.segments =~= old(self)@.segments.insert(seq, data@));
    }

    /// Releases the buffered segments that continue the next expected
    /// sequence number, in order, into `reassembled_payload`; answers whether
    /// any byte was released.
    pub fn reassemble(&mut self) -> (progressed: bool)
        ensures
            final(self)@ == reassembled(old(self)@),
            progressed == (released(old(self)@).len() > 0),
    {
        let mut current = self.next_seq;
        let mut out: Vec<u8> = Vec::new();
        let ghost total = drain(self@.segments, self.next_seq);
        proof {
            lemma_segments_finite(self.segments@);
            assert(out@ + drain(self@.segments, current).0 =~= drain(self@.segments, current).0);
        }
        loop
            invariant_except_break
                self@.segments.dom().finite(),
                total == (out@ + drain(self@.segments, current).0, drain(self@.segments, current).1,
                drain(self@.segments, current).2),
            invariant
                self.reassembled_payload@ == old(self).reassembled_payload@,
                self.next_seq == old(self).next_seq,
                self.five_tuple == old(self).five_tuple,
                self.status == old(self).status,
                self.missing_count == old(self).missing_count,
                self.last_activity == old(self).last_activity,
                total == drain(old(self)@.segments, old(self).next_seq),
            ensures
                total == (out@, current, self@.segments),
            decreases self@.segments.dom().len(),
        {
            let ghost before = self@.segments;
            match self.segments.remove(&current) {
                Some(mut data) => {
                    proof {
                        lemma_segment_bytes_remove(old(self).segments@, current);
                    }
                    let step = ((data.len() as u64) % 0x1_0000_0000u64) as u32;
                    let ghost d = data@;
                    out.append(&mut data);
                    let next = current.wrapping_add(step);
                    proof {
                        assert(self@.segments == before.remove(current)) by {
                            assert(self@.segments =~= before.remove(current));
                        }
                        assert(before[current] == d);
                        assert(next == seq_advance(current, d.len())) by {
                            assert(step as nat == d.len() % 0x1_0000_0000);
                            vstd::arithmetic::div_mod::lemma_add_mod_noop(
                                current as int,
                                d.len() as int,
                                0x1_0000_0000,
                            );
                        }
                        vstd::set::axiom_set_remove_len(before.dom(), current);
                        assert(self@.segments.dom() =~= before.dom().remove(current));
                        assert(out@ + drain(self@.segments, next).0 =~= (out@.subrange(0, out@.len() - d.len())) + (d + drain(self@.segments, next).0));
                    }
                    current = next;
                },
                None => {
                    proof {
                        assert(self@.segments =~= before);
                    }
                    break ;
                },
            }
        }
        if out.len() > 0 {
            let ghost pre = self.reassembled_payload@;
            self.reassembled_payload.append(&mut out);
            self.next_seq = current;
            proof {
                assert(self@.reassembled_payload =~= old(self)@.reassembled_payload + total.0);
            }
            true
        } else {
            proof {
                assert(old(self)@.reassembled_payload + total.0 =~= old(self)@.reassembled_payload);
            }
            false
        }
    }

    /// Whether the stream has been idle longer than `timeout_ms` at `now_ms`.
    pub fn is_timeout(&self, now_ms: u64, timeout_ms: u64) -> (b: bool)
        ensures
            b == idle_longer_than(self.last_activity, now_ms, timeout_ms),
    {
        now_ms > self.last_activity && now_ms - self.last_activity > timeout_ms
    }

    /// Declares the stream finished: completed when no segment waits,
    /// otherwise failed with the number of waiting segments.
    pub fn complete(&mut self)
        ensures
            final(self)@ == completed(old(self)@),
    {
        if self.segments.is_empty() {
            self.status = ReassemblyStatus::Completed;
        } else {
            self.status = ReassemblyStatus::Failed(self.segments.len() as u32);
        }
        proof {
            assert(segment_bytes(self.segments@).dom() =~= self.segments@.dom());
        }
    }
}


/// The key of a flow in the reassembler's table: address family and bits of
/// each address, the two ports, and the IP protocol number.
pub type FlowKey = (u8, u128, u8, u128, u16, u16, u8);

/// Address family (4 or 6) of an address.
pub open spec fn ip_family(ip: IpAddr) -> u8 {
    match ip {
        IpAddr::V4(_) => 4,
        IpAddr::V6(_) => 6,
    }
}

/// The bits of an address.
pub open spec fn ip_bits(ip: IpAddr) -> u128 {
    match ip {
        IpAddr::V4(a) => a as u128,
        IpAddr::V6(b) => b,
    }
}

/// The IP protocol number of a transport protocol.
pub open spec fn protocol_number(p: Protocol) -> u8 {
    match p {
        Protocol::TCP => 6,
        Protocol::UDP => 17,
        Protocol::ICMP => 1,
    }
}

/// The table key of a flow.
pub open spec fn flow_key(t: FiveTuple) -> FlowKey {
    (
        ip_family(t.src_ip),
        ip_bits(t.src_ip),
        ip_family(t.dst_ip),
        ip_bits(t.dst_ip),
        t.src_port,
        t.dst_port,
        protocol_number(t.protocol),
    )
}

/// Distinct flows have distinct table keys.
pub proof fn lemma_flow_key_injective(a: FiveTuple, b: FiveTuple)
    ensures
        flow_key(a) == flow_key(b) ==> a == b,
{
}

/// The table key of a flow.
pub fn flow_key_of(t: &FiveTuple) -> (k: FlowKey)
    ensures
        k == flow_key(*t),
{
    let (sf, sb) = match t.src_ip {
        IpAddr::V4(a) => (4u8, a as u128),
        IpAddr::V6(b) => (6u8, b),
    };
    let (df, db) = match t.dst_ip {
        IpAddr::V4(a) => (4u8, a as u128),
        IpAddr::V6(b) => (6u8, b),
    };
    let proto: u8 = match t.protocol {
        Protocol::TCP => 6,
        Protocol::UDP => 17,
        Protocol::ICMP => 1,
    };
    (sf, sb, df, db, t.src_port, t.dst_port, proto)
}

/// Reassembles TCP streams, one per flow.
pub struct TcpReassembler {
    /// Active streams by flow key.
    pub streams: BTreeMap<FlowKey, TcpStream>,
    /// Idle time (ms) after which a stream is dropped.
    pub timeout: u64,
    /// Largest payload (bytes) handed out at once.
    pub max_buffer_size: usize,
}

/// The contents of a stream table.
pub open spec fn stream_views(m: Map<FlowKey, TcpStream>) -> Map<FlowKey, TcpStreamView> {
    m.map_values(|st: TcpStream| st@)
}

/// One packet of flow `t` with `data` at `seq`, at time `now_ms`: its stream
/// (created expecting `seq` if new) buffers the segment and releases what
/// continues in order. The released bytes are handed out and the stream's
/// buffer emptied; a release longer than `max` marks the stream failed and
/// hands out nothing.
pub open spec fn process_step(
    streams: Map<FlowKey, TcpStreamView>,
    t: FiveTuple,
    seq: u32,
    data: Seq<u8>,
    now_ms: u64,
    max: nat,
) -> (Map<FlowKey, TcpStreamView>, Option<Seq<u8>>) {
    let key = flow_key(t);
    let base = if streams.contains_key(key) {
        streams[key]
    } else {
        fresh_stream(t, seq, now_ms)
    };
    let buffered = with_segment(base, seq, data, now_ms);
    let st = reassembled(buffered);
    if released(buffered).len() > 0 {
        let out = st.reassembled_payload;
        let emptied = TcpStreamView { reassembled_payload: Seq::empty(), ..st };
        if out.len() > max {
            (streams.insert(key, TcpStreamView { status: ReassemblyStatus::Failed(1), ..emptied }), None)
        } else {
            (streams.insert(key, emptied), Some(out))
        }
    } else {
        (streams.insert(key, st), None)
    }
}

/// The table without the streams idle longer than `timeout_ms` at `now_ms`.
pub open spec fn after_cleanup(streams: Map<FlowKey, TcpStreamView>, now_ms: u64, timeout_ms: u64) -> Map<
    FlowKey,
    TcpStreamView,
> {
    streams.restrict(
        streams.dom().filter(
            |k: FlowKey| !idle_longer_than(streams[k].last_activity, now_ms, timeout_ms),
        ),
    )
}

/// Whether a stream has completed.
pub open spec fn is_completed(s: TcpStreamView) -> bool {
    s.status == ReassemblyStatus::Completed
}

/// The number of completed streams in a table.
pub open spec fn completed_count(streams: Map<FlowKey, TcpStreamView>) -> nat {
    streams.dom().filter(|k: FlowKey| is_completed(streams[k])).len()
}

proof fn lemma_count_distinct<K>(s: Seq<K>, p: spec_fn(K) -> bool)
    requires
        s.no_duplicates(),
    ensures
        s.filter(p).len() == s.to_set().filter(p).len(),
    decreases s.len(),
{
    broadcast use vstd::seq_lib::seq_to_set_is_finite;

    if s.len() == 0 {
        assert(s.to_set().filter(p) =~= Set::<K>::empty());
        assert(s.filter(p) =~= Seq::<K>::empty());
    } else {
        let t = s.drop_last();
        let x = s.last();
        assert(s == t.push(x));
        assert(t.no_duplicates());
        lemma_count_distinct(t, p);
        t.lemma_filter_push(x, p);
        assert(s.to_set() =~= t.to_set().insert(x));
        assert(!t.to_set().contains(x)) by {
            if t.to_set().contains(x) {
                let j = choose|j: int| 0 <= j < t.len() && t[j] == x;
                assert(s[j] == s[s.len() - 1]);
            }
        }
        if p(x) {
            assert(s.to_set().filter(p) =~= t.to_set().filter(p).insert(x));
        } else {
            assert(s.to_set().filter(p) =~= t.to_set().filter(p));
        }
    }
}

impl TcpReassembler {
    /// An empty reassembler: 60 s idle timeout, 10 MiB release limit.
    pub fn new() -> (r: Self)
        ensures
            r.streams@ == Map::<FlowKey, TcpStream>::empty(),
            r.timeout == 60_000,
            r.max_buffer_size == 10 * 1024 * 1024,
    {
        TcpReassembler { streams: BTreeMap::new(), timeout: 60_000, max_buffer_size: 10 * 1024 * 1024 }
    }

    /// Feeds one TCP segment of a flow and returns the bytes it makes
    /// available in order, if any.
    pub fn process_packet(&mut self, five_tuple: &FiveTuple, seq: u32, data: Vec<u8>, now_ms: u64) -> (res:
        Option<Vec<u8>>)
        ensures
            ({
                let r = process_step(
                    stream_views(old(self).streams@),
                    *five_tuple,
                    seq,
                    data@,
                    now_ms,
                    old(self).max_buffer_size as nat,
                );
                &&& stream_views(final(self).streams@) == r.0
                &&& match res {
                    Some(v) => r.1 == Some(v@),
                    None => r.1 is None,
                }
            }),
            final(self).timeout == old(self).timeout,
            final(self).max_buffer_size == old(self).max_buffer_size,
    {
        let key = flow_key_of(five_tuple);
        let ghost views = stream_views(self.streams@);
        let mut stream = match self.streams.remove(&key) {
            Some(s) => s,
            None => TcpStream::new(*five_tuple, seq, now_ms),
        };
        let ghost base = stream@;
        assert(base == (if views.contains_key(key) {
            views[key]
        } else {
            fresh_stream(*five_tuple, seq, now_ms)
        }));
        let ghost rest = self.streams@;
        stream.add_segment(seq, data, now_ms);
        let progressed = stream.reassemble();
        let res = if progressed {
            let mut payload: Vec<u8> = Vec::new();
            std::mem::swap(&mut payload, &mut stream.reassembled_payload);
            if payload.len() > self.max_buffer_size {
                stream.status = ReassemblyStatus::Failed(1);
                None
            } else {
                Some(payload)
            }
        } else {
            None
        };
        let ghost fin = stream@;
        self.streams.insert(key, stream);
        proof {
            assert(rest == old(self).streams@.remove(key));
            assert(stream_views(self.streams@) =~= views.insert(key, fin));
            let r = process_step(views, *five_tuple, seq, data@, now_ms, self.max_buffer_size as nat);
            if progressed {
                assert(fin.reassembled_payload =~= Seq::<u8>::empty());
            }
        }
        res
    }

    /// The keys of the active streams, each once.
    fn flow_keys(&self) -> (ks: Vec<FlowKey>)
        ensures
            ks@.to_set() == self.streams@.dom(),
            ks@.no_duplicates(),
    {
        let mut ks: Vec<FlowKey> = Vec::new();
        let ghost all: Seq<FlowKey> = vstd::std_specs::btree::spec_keys_iter(
            &self.streams,
        ).remaining().unref();
        proof {
            broadcast use vstd::std_specs::btree::axiom_spec_keys_iter;

            assert(all.to_set() == self.streams@.dom());
        }
        for k in it: self.streams.keys()
            invariant
                ks@.len() == it.index(),
                all == it.seq().unref(),
                forall|j: int| 0 <= j < ks@.len() ==> ks@[j] == all[j],
        {
            ks.push(*k);
        }
        proof {
            assert(ks@ =~= all);
        }
        ks
    }

    /// Drops every stream idle longer than the timeout at `now_ms`.
    pub fn cleanup_timeout(&mut self, now_ms: u64)
        ensures
            stream_views(final(self).streams@) == after_cleanup(
                stream_views(old(self).streams@),
                now_ms,
                old(self).timeout,
            ),
            final(self).timeout == old(self).timeout,
            final(self).max_buffer_size == old(self).max_buffer_size,
    {
        let ks = self.flow_keys();
        let ghost start = self.streams@;
        let mut i: usize = 0;
        while i < ks.len()
            invariant
                i <= ks@.len(),
                ks@.to_set() == start.dom(),
                ks@.no_duplicates(),
                self.timeout == old(self).timeout,
                self.max_buffer_size == old(self).max_buffer_size,
                start == old(self).streams@,
                forall|k: FlowKey|
                    #![trigger self.streams@.contains_key(k)]
                    self.streams@.contains_key(k) <==> (start.contains_key(k) && !(ks@.take(
                        i as int,
                    ).contains(k) && idle_longer_than(start[k].last_activity, now_ms, self.timeout))),
                forall|k: FlowKey| #[trigger]
                    self.streams@.contains_key(k) ==> self.streams@[k] == start[k],
            decreases ks@.len() - i,
        {
            let k = ks[i];
            proof {
                assert(ks@.take(i as int + 1) =~= ks@.take(i as int).push(k));
                assert(!ks@.take(i as int).contains(k)) by {
                    if ks@.take(i as int).contains(k) {
                        let j = choose|j: int| 0 <= j < i && ks@.take(i as int)[j] == k;
                        assert(ks@[j] == ks@[i as int]);
                    }
                }
                assert(ks@.to_set().contains(k));
            }
            let timed_out = match self.streams.get(&k) {
                Some(st) => st.is_timeout(now_ms, self.timeout),
                None => false,
            };
            if timed_out {
                let removed = self.streams.remove(&k);
                if let Some(mut st) = removed {
                    st.complete();
                }
            }
            proof {
                let pre = ks@.take(i as int);
                let post = ks@.take(i as int + 1);
                assert forall|k2: FlowKey| #[trigger] post.contains(k2) <==> (pre.contains(k2) || k2 == k) by {
                    if pre.contains(k2) {
                        let j = choose|j: int| 0 <= j < pre.len() && pre[j] == k2;
                        assert(post[j] == k2);
                    }
                    if k2 == k {
                        assert(post[i as int] == k);
                    }
                    if post.contains(k2) {
                        let j = choose|j: int| 0 <= j < post.len() && post[j] == k2;
                        if j < i {
                            assert(pre[j] == k2);
                        }
                    }
                }
            }
            i = i + 1;
        }
        proof {
            assert(ks@.take(ks@.len() as int) =~= ks@);
            let v = stream_views(self.streams@);
            let w = after_cleanup(stream_views(start), now_ms, self.timeout);
            assert forall|k: FlowKey| #[trigger] v.contains_key(k) <==> w.contains_key(k) by {
                if start.contains_key(k) {
                    assert(ks@.to_set().contains(k));
                }
            }
            assert(v =~= w);
        }
    }

    /// The number of active streams and of completed ones.
    pub fn stats(&self) -> (res: (usize, usize))
        ensures
            res.0 == self.streams@.dom().len(),
            res.1 == completed_count(stream_views(self.streams@)),
    {
        let active = self.streams.len();
        let ks = self.flow_keys();
        let ghost views = stream_views(self.streams@);
        let ghost pred = |k: FlowKey| is_completed(views[k]);
        let mut done: usize = 0;
        let mut i: usize = 0;
        while i < ks.len()
            invariant
                i <= ks@.len(),
                ks@.to_set() == self.streams@.dom(),
                views == stream_views(self.streams@),
                pred == (|k: FlowKey| is_completed(views[k])),
                done == ks@.take(i as int).filter(pred).len(),
                done <= i,
            decreases ks@.len() - i,
        {
            let k = ks[i];
            proof {
                assert(ks@.take(i as int + 1) =~= ks@.take(i as int).push(k));
                ks@.take(i as int).lemma_filter_push(k, pred);
                assert(ks@.to_set().contains(k));
            }
            let is_done = match self.streams.get(&k) {
                Some(st) => match st.status {
                    ReassemblyStatus::Completed => true,
                    _ => false,
                },
                None => false,
            };
            if is_done {
                done = done + 1;
            }
            i = i + 1;
        }
        proof {
            assert(ks@.take(ks@.len() as int) =~= ks@);
            lemma_count_distinct(ks@, pred);
            assert(ks@.to_set().filter(pred) =~= views.dom().filter(
                |k: FlowKey| is_completed(views[k]),
            ));
        }
        (active, done)
    }
}

impl Default for TcpReassembler {
    fn default() -> (r: Self)
        ensures
            r.streams@ == Map::<FlowKey, TcpStream>::empty(),
            r.timeout == 60_000,
            r.max_buffer_size == 10 * 1024 * 1024,
    {
        Self::new()
    }
}


/// Releasing from a single segment that starts at the expected number gives
/// exactly that segment.
proof fn lemma_drain_single(seq: u32, data: Seq<u8>)
    ensures
        drain(Map::<u32, Seq<u8>>::empty().insert(seq, data), seq) == (
            data,
            seq_advance(seq, data.len()),
            Map::<u32, Seq<u8>>::empty(),
        ),
{
    let m = Map::<u32, Seq<u8>>::empty().insert(seq, data);
    let e = Map::<u32, Seq<u8>>::empty();
    assert(m.dom() =~= set![seq]);
    assert(m.dom().finite());
    assert(m.remove(seq) =~= e);
    assert(!e.contains_key(seq_advance(seq, data.len())));
    assert(drain(e, seq_advance(seq, data.len())) == (Seq::<u8>::empty(), seq_advance(seq, data.len()), e));
    assert(drain(m, seq) == (m[seq] + drain(e, seq_advance(seq, data.len())).0, seq_advance(seq, data.len()), e));
    assert(data + Seq::<u8>::empty() =~= data);
}

/// In-order delivery: a segment that starts exactly where its flow's stream
/// expects the next byte, while nothing else is buffered or pending, is
/// handed out at once and in full (when within the release limit); the
/// stream then expects the byte after it.
pub proof fn lemma_in_order_segment_delivered(
    streams: Map<FlowKey, TcpStreamView>,
    t: FiveTuple,
    seq: u32,
    data: Seq<u8>,
    now_ms: u64,
    max: nat,
)
    requires
        streams.contains_key(flow_key(t)) ==> {
            let s = streams[flow_key(t)];
            &&& s.next_seq == seq
            &&& s.segments == Map::<u32, Seq<u8>>::empty()
            &&& s.reassembled_payload == Seq::<u8>::empty()
        },
        0 < data.len() <= max,
    ensures
        process_step(streams, t, seq, data, now_ms, max).1 == Some(data),
        process_step(streams, t, seq, data, now_ms, max).0[flow_key(t)].next_seq == seq_advance(
            seq,
            data.len(),
        ),
{
    lemma_drain_single(seq, data);
    let key = flow_key(t);
    let base = if streams.contains_key(key) {
        streams[key]
    } else {
        fresh_stream(t, seq, now_ms)
    };
    assert(base.segments.insert(seq, data) == Map::<u32, Seq<u8>>::empty().insert(seq, data));
    assert(Seq::<u8>::empty() + data =~= data);
}

/// Out-of-order arrival: when the later segment `b` arrives first it is held
/// back, and when the missing segment `a` in front of it arrives, both are
/// handed out together, in sequence order.
pub proof fn lemma_gap_filled_releases_in_order(
    streams: Map<FlowKey, TcpStreamView>,
    t: FiveTuple,
    seq: u32,
    a: Seq<u8>,
    b: Seq<u8>,
    t1: u64,
    t2: u64,
    max: nat,
)
    requires
        streams.contains_key(flow_key(t)),
        streams[flow_key(t)].next_seq == seq,
        streams[flow_key(t)].segments == Map::<u32, Seq<u8>>::empty(),
        streams[flow_key(t)].reassembled_payload == Seq::<u8>::empty(),
        0 < a.len() < 0x1_0000_0000,
        0 < b.len(),
        a.len() + b.len() <= max,
    ensures
        ({
            let first = process_step(streams, t, seq_advance(seq, a.len()), b, t1, max);
            let second = process_step(first.0, t, seq, a, t2, max);
            &&& first.1 is None
            &&& second.1 == Some(a + b)
        }),
{
    let key = flow_key(t);
    let later = seq_advance(seq, a.len());
    lemma_advance_moves(seq, a.len());
    let s0 = streams[key];
    let m1 = Map::<u32, Seq<u8>>::empty().insert(later, b);
    assert(s0.segments.insert(later, b) == m1);
    assert(m1.dom() =~= set![later]);
    assert(!m1.contains_key(seq));
    let first = process_step(streams, t, later, b, t1, max);
    assert(first.1 is None);
    let s1 = first.0[key];
    assert(s1.segments == m1);
    assert(s1.next_seq == seq);
    assert(s1.reassembled_payload =~= Seq::<u8>::empty());
    let m2 = m1.insert(seq, a);
    assert(m2.dom() =~= set![later, seq]);
    assert(m2.remove(seq) =~= m1);
    lemma_drain_single(later, b);
    assert(drain(m2, seq).0 =~= a + b);
}

/// Advancing by a length that is neither zero nor a multiple of 2^32
/// changes the sequence number.
pub(crate) proof fn lemma_advance_moves(seq: u32, len: nat)
    requires
        0 < len < 0x1_0000_0000,
    ensures
        seq_advance(seq, len) != seq,
{
    if seq_advance(seq, len) == seq {
        vstd::arithmetic::div_mod::lemma_fundamental_div_mod(seq as int + len, 0x1_0000_0000);
        assert(false) by (nonlinear_arith)
            requires
                (seq as int + len as int) == 0x1_0000_0000 * ((seq as int + len as int)
                    / 0x1_0000_0000) + seq as int,
                0 < len < 0x1_0000_0000,
                0 <= seq < 0x1_0000_0000,
        ;
    }
}

/// Retransmission: a segment that was just handed out in order, sent again,
/// hands out nothing more.
pub proof fn lemma_retransmission_releases_nothing(
    streams: Map<FlowKey, TcpStreamView>,
    t: FiveTuple,
    seq: u32,
    data: Seq<u8>,
    t1: u64,
    t2: u64,
    max: nat,
)
    requires
        streams.contains_key(flow_key(t)) ==> {
            let s = streams[flow_key(t)];
            &&& s.next_seq == seq
            &&& s.segments == Map::<u32, Seq<u8>>::empty()
            &&& s.reassembled_payload == Seq::<u8>::empty()
        },
        0 < data.len() < 0x1_0000_0000,
        data.len() <= max,
    ensures
        ({
            let first = process_step(streams, t, seq, data, t1, max);
            let second = process_step(first.0, t, seq, data, t2, max);
            &&& first.1 == Some(data)
            &&& second.1 is None
        }),
{
    let key = flow_key(t);
    lemma_in_order_segment_delivered(streams, t, seq, data, t1, max);
    lemma_drain_single(seq, data);
    lemma_advance_moves(seq, data.len());
    let base = if streams.contains_key(key) {
        streams[key]
    } else {
        fresh_stream(t, seq, t1)
    };
    assert(base.segments.insert(seq, data) == Map::<u32, Seq<u8>>::empty().insert(seq, data));
    let first = process_step(streams, t, seq, data, t1, max);
    let s1 = first.0[key];
    assert(s1.segments == Map::<u32, Seq<u8>>::empty());
    let m = Map::<u32, Seq<u8>>::empty().insert(seq, data);
    assert(s1.segments.insert(seq, data) == m);
    assert(!m.contains_key(seq_advance(seq, data.len())));
}

/// Flows are independent: a packet of one flow leaves every other flow's
/// stream as it was.
pub proof fn lemma_other_flows_untouched(
    streams: Map<FlowKey, TcpStreamView>,
    t: FiveTuple,
    seq: u32,
    data: Seq<u8>,
    now_ms: u64,
    max: nat,
    other: FlowKey,
)
    requires
        other != flow_key(t),
    ensures
        process_step(streams, t, seq, data, now_ms, max).0.contains_key(other)
            == streams.contains_key(other),
        streams.contains_key(other) ==> process_step(streams, t, seq, data, now_ms, max).0[other]
            == streams[other],
{
}

/// Idle cleanup drops exactly the streams idle longer than the timeout and
/// keeps every other stream unchanged.
pub proof fn lemma_cleanup_drops_exactly_idle(
    streams: Map<FlowKey, TcpStreamView>,
    now_ms: u64,
    timeout_ms: u64,
    k: FlowKey,
)
    ensures
        after_cleanup(streams, now_ms, timeout_ms).contains_key(k) == (streams.contains_key(k)
            && !idle_longer_than(streams[k].last_activity, now_ms, timeout_ms)),
        after_cleanup(streams, now_ms, timeout_ms).contains_key(k) ==> after_cleanup(
            streams,
            now_ms,
            timeout_ms,
        )[k] == streams[k],
{
}

} // verus!
