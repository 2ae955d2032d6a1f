//! Reassembly over whole arrival orders: the consecutive segments of a
//! stream, arriving in any order, come out as one in-order byte stream.

use crate::common::types::FiveTuple;
use crate::protocol::tcp::{
    drain, flow_key, lemma_advance_moves, process_step, seq_advance, FlowKey, TcpStreamView,
};
use vstd::prelude::*;

verus! {

/// The number of bytes in the first `i` segments.
pub open spec fn offset(segs: Seq<Seq<u8>>, i: int) -> nat
    decreases i,
{
    if i <= 0 {
        0
    } else {
        offset(segs, i - 1) + segs[i - 1].len()
    }
}

/// The segments `i .. j` joined.
pub open spec fn joined(segs: Seq<Seq<u8>>, i: int, j: int) -> Seq<u8>
    decreases j - i,
{
    if j <= i {
        Seq::empty()
    } else {
        joined(segs, i, j - 1) + segs[j - 1]
    }
}

/// The sequence number of segment `i` of a stream whose first byte is
/// numbered `start`.
pub open spec fn seg_seq(start: u32, segs: Seq<Seq<u8>>, i: int) -> u32 {
    seq_advance(start, offset(segs, i))
}

/// Feeds the segments of `segs` to flow `t` in the order `order` gives
/// (all at time `now_ms`): the stream table afterwards and every byte
/// handed out, in the order handed out.
pub open spec fn feed_in_order(
    streams: Map<FlowKey, TcpStreamView>,
    t: FiveTuple,
    start: u32,
    segs: Seq<Seq<u8>>,
    order: Seq<int>,
    now_ms: u64,
    max: nat,
) -> (Map<FlowKey, TcpStreamView>, Seq<u8>)
    decreases order.len(),
{
    if order.len() == 0 {
        (streams, Seq::empty())
    } else {
        let prev = feed_in_order(streams, t, start, segs, order.drop_last(), now_ms, max);
        let j = order.last();
        let step = process_step(prev.0, t, seg_seq(start, segs, j), segs[j], now_ms, max);
        (
            step.0,
            prev.1 + match step.1 {
                Some(o) => o,
                None => Seq::empty(),
            },
        )
    }
}

/// The first index from `i` on (below `n`) that `a` lacks, `n` if none.
pub open spec fn first_missing(a: Set<int>, i: int, n: int) -> int
    decreases n - i,
{
    if i >= n || !a.contains(i) {
        i
    } else {
        first_missing(a, i + 1, n)
    }
}

/// `m` buffers exactly the segments whose indices are in `b`, each under its
/// own sequence number.
pub open spec fn buffers_exactly(
    m: Map<u32, Seq<u8>>,
    start: u32,
    segs: Seq<Seq<u8>>,
    b: Set<int>,
) -> bool {
    let n = segs.len() as int;
    &&& m.dom().finite()
    &&& forall|i: int| #[trigger] b.contains(i) ==> 0 <= i < n
    &&& forall|i: int|
        0 <= i < n ==> (#[trigger] m.contains_key(seg_seq(start, segs, i)) == b.contains(i))
    &&& forall|i: int| #[trigger] b.contains(i) ==> m[seg_seq(start, segs, i)] == segs[i]
    &&& forall|q: u32|
        #[trigger] m.contains_key(q) ==> exists|i: int|
            0 <= i < n && q == #[trigger] seg_seq(start, segs, i)
}

/// The segments are not empty and together shorter than the sequence
/// number space.
pub open spec fn well_sized(segs: Seq<Seq<u8>>) -> bool {
    &&& forall|i: int| 0 <= i < segs.len() ==> #[trigger] segs[i].len() > 0
    &&& offset(segs, segs.len() as int) < 0x1_0000_0000
}

proof fn lemma_offset_grows(segs: Seq<Seq<u8>>, i: int, j: int)
    requires
        0 <= i < j <= segs.len(),
        forall|k: int| 0 <= k < segs.len() ==> #[trigger] segs[k].len() > 0,
    ensures
        offset(segs, i) < offset(segs, j),
    decreases j - i,
{
    if j > i + 1 {
        lemma_offset_grows(segs, i, j - 1);
    }
}

proof fn lemma_offset_monotone(segs: Seq<Seq<u8>>, i: int, j: int)
    requires
        0 <= i <= j <= segs.len(),
        forall|k: int| 0 <= k < segs.len() ==> #[trigger] segs[k].len() > 0,
    ensures
        offset(segs, i) <= offset(segs, j),
{
    if i < j {
        lemma_offset_grows(segs, i, j);
    }
}

proof fn lemma_advance_add(a: u32, x: nat, y: nat)
    ensures
        seq_advance(seq_advance(a, x), y) == seq_advance(a, x + y),
{
    vstd::arithmetic::div_mod::lemma_add_mod_noop(a as int + x, y as int, 0x1_0000_0000);
    vstd::arithmetic::div_mod::lemma_mod_twice(y as int, 0x1_0000_0000);
    vstd::arithmetic::div_mod::lemma_add_mod_noop(
        (a as int + x) % 0x1_0000_0000,
        y as int,
        0x1_0000_0000,
    );
}

/// Different segments of a well-sized stream start at different sequence
/// numbers (the end of the stream included).
proof fn lemma_seg_seq_distinct(start: u32, segs: Seq<Seq<u8>>, i: int, j: int)
    requires
        well_sized(segs),
        0 <= i < j <= segs.len(),
    ensures
        seg_seq(start, segs, i) != seg_seq(start, segs, j),
{
    lemma_offset_grows(segs, i, j);
    lemma_offset_monotone(segs, j, segs.len() as int);
    let a = offset(segs, i);
    let b = offset(segs, j);
    lemma_advance_add(start, a, (b - a) as nat);
    lemma_advance_moves(seg_seq(start, segs, i), (b - a) as nat);
}

/// The next segment starts where the previous one ends.
proof fn lemma_seg_seq_next(start: u32, segs: Seq<Seq<u8>>, i: int)
    requires
        0 <= i < segs.len(),
    ensures
        seq_advance(seg_seq(start, segs, i), segs[i].len()) == seg_seq(start, segs, i + 1),
{
    lemma_advance_add(start, offset(segs, i), segs[i].len());
}

proof fn lemma_joined_front(segs: Seq<Seq<u8>>, i: int, j: int)
    requires
        i < j,
    ensures
        joined(segs, i, j) == segs[i] + joined(segs, i + 1, j),
    decreases j - i,
{
    if j > i + 1 {
        lemma_joined_front(segs, i, j - 1);
        assert(joined(segs, i, j) == joined(segs, i, j - 1) + segs[j - 1]);
        assert(segs[i] + joined(segs, i + 1, j - 1) + segs[j - 1] =~= segs[i] + (joined(
            segs,
            i + 1,
            j - 1,
        ) + segs[j - 1]));
    } else {
        assert(joined(segs, i + 1, j) =~= Seq::<u8>::empty());
        assert(joined(segs, i, i) =~= Seq::<u8>::empty());
        assert(joined(segs, i, j) == joined(segs, i, i) + segs[i]);
        assert(Seq::<u8>::empty() + segs[i] =~= segs[i]);
        assert(segs[i] + Seq::<u8>::empty() =~= segs[i]);
    }
}

proof fn lemma_joined_split(segs: Seq<Seq<u8>>, i: int, k: int, j: int)
    requires
        i <= k <= j,
    ensures
        joined(segs, i, j) == joined(segs, i, k) + joined(segs, k, j),
    decreases j - k,
{
    if j > k {
        lemma_joined_split(segs, i, k, j - 1);
        assert(joined(segs, i, k) + joined(segs, k, j - 1) + segs[j - 1] =~= joined(segs, i, k) + (
        joined(segs, k, j - 1) + segs[j - 1]));
    } else {
        assert(joined(segs, k, j) =~= Seq::<u8>::empty());
        assert(joined(segs, i, k) + Seq::<u8>::empty() =~= joined(segs, i, k));
    }
}

proof fn lemma_first_missing_bounds(a: Set<int>, i: int, n: int)
    requires
        i <= n,
    ensures
        i <= first_missing(a, i, n) <= n,
        forall|k: int| i <= k < first_missing(a, i, n) ==> a.contains(k),
        first_missing(a, i, n) < n ==> !a.contains(first_missing(a, i, n)),
    decreases n - i,
{
    if i < n && a.contains(i) {
        lemma_first_missing_bounds(a, i + 1, n);
    }
}

proof fn lemma_first_missing_same(a: Set<int>, b: Set<int>, i: int, n: int)
    requires
        i <= n,
        forall|k: int| i <= k < n ==> (a.contains(k) == b.contains(k)),
    ensures
        first_missing(a, i, n) == first_missing(b, i, n),
    decreases n - i,
{
    if i < n && a.contains(i) {
        lemma_first_missing_same(a, b, i + 1, n);
    }
}

proof fn lemma_first_missing_skip(a: Set<int>, i: int, k: int, n: int)
    requires
        i <= k <= n,
        forall|l: int| i <= l < k ==> a.contains(l),
    ensures
        first_missing(a, i, n) == first_missing(a, k, n),
    decreases k - i,
{
    if i < k {
        lemma_first_missing_skip(a, i + 1, k, n);
    }
}

proof fn lemma_joined_len(segs: Seq<Seq<u8>>, i: int, j: int)
    requires
        0 <= i <= j <= segs.len(),
    ensures
        joined(segs, i, j).len() == offset(segs, j) - offset(segs, i),
    decreases j - i,
{
    if j > i {
        lemma_joined_len(segs, i, j - 1);
    }
}

/// Draining from the sequence number of segment `k` releases the buffered
/// segments `k, k + 1, ...` up to the first one missing, in order.
proof fn lemma_drain_consecutive(
    m: Map<u32, Seq<u8>>,
    start: u32,
    segs: Seq<Seq<u8>>,
    b: Set<int>,
    k: int,
)
    requires
        well_sized(segs),
        buffers_exactly(m, start, segs, b),
        0 <= k <= segs.len(),
        forall|i: int| #[trigger] b.contains(i) ==> i >= k,
    ensures
        ({
            let n = segs.len() as int;
            let k2 = first_missing(b, k, n);
            let r = drain(m, seg_seq(start, segs, k));
            &&& r.0 == joined(segs, k, k2)
            &&& r.1 == seg_seq(start, segs, k2)
            &&& buffers_exactly(r.2, start, segs, b.filter(|i: int| i >= k2))
        }),
    decreases segs.len() - k,
{
    let n = segs.len() as int;
    let cur = seg_seq(start, segs, k);
    lemma_first_missing_bounds(b, k, n);
    if k == n || !b.contains(k) {
        if m.contains_key(cur) {
            if k < n {
                assert(m.contains_key(seg_seq(start, segs, k)) == b.contains(k));
            } else {
                let i = choose|i: int| 0 <= i < n && cur == #[trigger] seg_seq(start, segs, i);
                lemma_seg_seq_distinct(start, segs, i, n);
            }
        }
        assert(b.filter(|i: int| i >= k) =~= b);
        assert(joined(segs, k, k) =~= Seq::<u8>::empty());
    } else {
        let nxt = seq_advance(cur, m[cur].len());
        lemma_seg_seq_next(start, segs, k);
        assert(m[cur] == segs[k]);
        let m2 = m.remove(cur);
        let b2 = b.remove(k);
        assert forall|i: int| 0 <= i < n implies (#[trigger] m2.contains_key(
            seg_seq(start, segs, i),
        ) == b2.contains(i)) by {
            if i < k {
                lemma_seg_seq_distinct(start, segs, i, k);
            } else if i > k {
                lemma_seg_seq_distinct(start, segs, k, i);
            }
            assert(m.contains_key(seg_seq(start, segs, i)) == b.contains(i));
        }
        assert forall|i: int| #[trigger] b2.contains(i) implies m2[seg_seq(start, segs, i)]
            == segs[i] by {
            assert(b.contains(i));
            lemma_seg_seq_distinct(start, segs, k, i);
        }
        assert forall|q: u32| #[trigger] m2.contains_key(q) implies exists|i: int|
            0 <= i < n && q == #[trigger] seg_seq(start, segs, i) by {
            assert(m.contains_key(q));
        }
        assert(buffers_exactly(m2, start, segs, b2));
        lemma_drain_consecutive(m2, start, segs, b2, k + 1);
        lemma_first_missing_same(b, b2, k + 1, n);
        let k2 = first_missing(b, k, n);
        lemma_first_missing_bounds(b2, k + 1, n);
        lemma_joined_front(segs, k, k2);
        assert(b2.filter(|i: int| i >= k2) =~= b.filter(|i: int| i >= k2));
    }
}

/// `order` lists every segment index below `n` exactly once.
pub open spec fn is_arrival_order(order: Seq<int>, n: int) -> bool {
    &&& order.len() == n
    &&& order.no_duplicates()
    &&& forall|m: int| 0 <= m < order.len() ==> 0 <= #[trigger] order[m] < n
    &&& forall|i: int| 0 <= i < n ==> #[trigger] order.contains(i)
}

/// The stream of flow `t` in `streams` expects `start` next and holds
/// nothing.
pub open spec fn expects_fresh(streams: Map<FlowKey, TcpStreamView>, t: FiveTuple, start: u32) -> bool {
    &&& streams.contains_key(flow_key(t))
    &&& streams[flow_key(t)].next_seq == start
    &&& streams[flow_key(t)].segments == Map::<u32, Seq<u8>>::empty()
    &&& streams[flow_key(t)].reassembled_payload == Seq::<u8>::empty()
}

proof fn lemma_feed_prefix(
    streams: Map<FlowKey, TcpStreamView>,
    t: FiveTuple,
    start: u32,
    segs: Seq<Seq<u8>>,
    order: Seq<int>,
    now_ms: u64,
    max: nat,
    m: int,
)
    requires
        expects_fresh(streams, t, start),
        well_sized(segs),
        offset(segs, segs.len() as int) <= max,
        is_arrival_order(order, segs.len() as int),
        0 <= m <= order.len(),
    ensures
        ({
            let r = feed_in_order(streams, t, start, segs, order.take(m), now_ms, max);
            let a = order.take(m).to_set();
            let k = first_missing(a, 0, segs.len() as int);
            &&& r.0.contains_key(flow_key(t))
            &&& r.0[flow_key(t)].next_seq == seg_seq(start, segs, k)
            &&& r.0[flow_key(t)].reassembled_payload == Seq::<u8>::empty()
            &&& buffers_exactly(r.0[flow_key(t)].segments, start, segs, a.filter(|i: int| i >= k))
            &&& r.1 == joined(segs, 0, k)
        }),
    decreases m,
{
    let n = segs.len() as int;
    let key = flow_key(t);
    if m == 0 {
        let a = order.take(0).to_set();
        assert(a =~= Set::<int>::empty());
        assert(first_missing(a, 0, n) == 0);
        assert(seq_advance(start, 0) == start);
        let e = Map::<u32, Seq<u8>>::empty();
        assert(e.dom() =~= Set::<u32>::empty());
        assert(joined(segs, 0, 0) =~= Seq::<u8>::empty());
        assert(buffers_exactly(e, start, segs, a.filter(|i: int| i >= 0)));
    } else {
        lemma_feed_prefix(streams, t, start, segs, order, now_ms, max, m - 1);
        let pre = order.take(m - 1);
        assert(order.take(m).drop_last() =~= pre);
        let j = order[m - 1];
        assert(order.take(m).last() == j);
        let prev = feed_in_order(streams, t, start, segs, pre, now_ms, max);
        let a = pre.to_set();
        let a2 = order.take(m).to_set();
        assert(a2 =~= a.insert(j)) by {
            assert(order.take(m) =~= pre.push(j));
            pre.lemma_push_to_set_commute(j);
        }
        assert(!a.contains(j)) by {
            if a.contains(j) {
                let x = choose|x: int| 0 <= x < pre.len() && pre[x] == j;
                assert(order[x] == order[m - 1]);
            }
        }
        let k = first_missing(a, 0, n);
        lemma_first_missing_bounds(a, 0, n);
        assert(j >= k) by {
            if j < k {
                assert(a.contains(j));
            }
        }
        assert(0 <= j < n);
        let st = prev.0[key];
        let sq = seg_seq(start, segs, j);
        let old_b = a.filter(|i: int| i >= k);
        let b = old_b.insert(j);
        let ins = st.segments.insert(sq, segs[j]);
        assert(!st.segments.contains_key(sq)) by {
            assert(st.segments.contains_key(seg_seq(start, segs, j)) == old_b.contains(j));
        }
        assert forall|i: int| 0 <= i < n implies (#[trigger] ins.contains_key(
            seg_seq(start, segs, i),
        ) == b.contains(i)) by {
            if i < j {
                lemma_seg_seq_distinct(start, segs, i, j);
            } else if i > j {
                lemma_seg_seq_distinct(start, segs, j, i);
            }
            assert(st.segments.contains_key(seg_seq(start, segs, i)) == old_b.contains(i));
        }
        assert forall|i: int| #[trigger] b.contains(i) implies ins[seg_seq(start, segs, i)]
            == segs[i] by {
            if i != j {
                assert(old_b.contains(i));
                if i < j {
                    lemma_seg_seq_distinct(start, segs, i, j);
                } else {
                    lemma_seg_seq_distinct(start, segs, j, i);
                }
            }
        }
        assert forall|q: u32| #[trigger] ins.contains_key(q) implies exists|i: int|
            0 <= i < n && q == #[trigger] seg_seq(start, segs, i) by {
            if q != sq {
                assert(st.segments.contains_key(q));
            }
        }
        assert(buffers_exactly(ins, start, segs, b));
        lemma_drain_consecutive(ins, start, segs, b, k);
        let k2 = first_missing(b, k, n);
        lemma_first_missing_bounds(b, k, n);
        // The first missing index of all arrivals is `k2`.
        lemma_first_missing_same(b, a2, k, n);
        lemma_first_missing_skip(a2, 0, k, n);
        assert(first_missing(a2, 0, n) == k2);
        assert(b.filter(|i: int| i >= k2) =~= a2.filter(|i: int| i >= k2));
        let r = drain(ins, seg_seq(start, segs, k));
        lemma_joined_len(segs, k, k2);
        lemma_offset_monotone(segs, k2, n);
        lemma_offset_monotone(segs, 0, k);
        lemma_joined_split(segs, 0, k, k2);
        if k2 > k {
            lemma_joined_front(segs, k, k2);
            assert(r.0.len() > 0);
            assert(Seq::<u8>::empty() + r.0 =~= r.0);
        } else {
            assert(r.0 =~= Seq::<u8>::empty());
            assert(joined(segs, 0, k) + Seq::<u8>::empty() =~= joined(segs, 0, k));
            assert(st.reassembled_payload + r.0 =~= Seq::<u8>::empty());
        }
    }
}

/// Reassembly puts any arrival order right: when a stream expects `start`
/// and the consecutive segments `segs` from `start` on arrive in any order
/// (each once, none empty, together within the release limit and shorter
/// than the sequence number space), everything handed out is exactly the
/// segments joined in sequence order, and afterwards the stream expects the
/// byte after them and holds nothing.
pub proof fn lemma_any_arrival_order_reassembles(
    streams: Map<FlowKey, TcpStreamView>,
    t: FiveTuple,
    start: u32,
    segs: Seq<Seq<u8>>,
    order: Seq<int>,
    now_ms: u64,
    max: nat,
)
    requires
        expects_fresh(streams, t, start),
        well_sized(segs),
        offset(segs, segs.len() as int) <= max,
        is_arrival_order(order, segs.len() as int),
    ensures
        ({
            let r = feed_in_order(streams, t, start, segs, order, now_ms, max);
            &&& r.1 == joined(segs, 0, segs.len() as int)
            &&& r.0[flow_key(t)].next_seq == seg_seq(start, segs, segs.len() as int)
            &&& r.0[flow_key(t)].segments == Map::<u32, Seq<u8>>::empty()
        }),
{
    let n = segs.len() as int;
    lemma_feed_prefix(streams, t, start, segs, order, now_ms, max, n);
    assert(order.take(n) =~= order);
    let a = order.to_set();
    lemma_first_missing_bounds(a, 0, n);
    let k = first_missing(a, 0, n);
    if k < n {
        assert(order.contains(k));
    }
    assert(k == n);
    let r = feed_in_order(streams, t, start, segs, order, now_ms, max);
    let segs_left = r.0[flow_key(t)].segments;
    assert(segs_left =~= Map::<u32, Seq<u8>>::empty()) by {
        assert forall|q: u32| !segs_left.contains_key(q) by {
            if segs_left.contains_key(q) {
                let i = choose|i: int| 0 <= i < n && q == #[trigger] seg_seq(start, segs, i);
                assert(segs_left.contains_key(seg_seq(start, segs, i)) == a.filter(
                    |x: int| x >= k,
                ).contains(i));
            }
        }
    }
}

} // verus!
