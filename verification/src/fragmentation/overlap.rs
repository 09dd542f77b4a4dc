//! Overlap detection for the fragments of a packet being reassembled.
use vstd::prelude::*;
use std::collections::HashMap;
use vstd::std_specs::hash::spec_hash_map_iter;
use vstd::std_specs::iter::IteratorSpec;
use crate::error::FragmentationError;
use crate::values::{
    FragmentCount, FragmentId, FragmentIndex, FragmentSize, PacketCount, SessionId, Timestamp,
};

verus! {

broadcast use vstd::std_specs::hash::group_hash_axioms;

/// Configuration of overlap detection.
#[derive(Clone, Copy, Debug)]
pub struct OverlapConfig {
    pub max_tracked_contexts: usize,
    pub context_timeout_sec: u64,
    /// Report overlapping fragments.
    pub strict_overlap_checking: bool,
    /// Report fragments that touch one already received.
    pub allow_adjacent_fragments: bool,
}

impl Default for OverlapConfig {
    /// A thousand contexts, thirty seconds, strict, adjacency reported.
    fn default() -> (r: OverlapConfig)
        ensures
            r.max_tracked_contexts == 1000,
            r.context_timeout_sec == 30,
            r.strict_overlap_checking,
            r.allow_adjacent_fragments,
    {
        OverlapConfig {
            max_tracked_contexts: 1000,
            context_timeout_sec: 30,
            strict_overlap_checking: true,
            allow_adjacent_fragments: true,
        }
    }
}

/// A packet being reassembled: its session and fragment identifier.
#[derive(Clone, Copy, Debug, PartialEq, Eq, Hash, Structural)]
pub struct ReassemblyKey {
    pub session_id: SessionId,
    pub fragment_id: FragmentId,
}

/// The number a reassembly context is tracked under.
pub open spec fn key_code(k: ReassemblyKey) -> u128 {
    (k.session_id.0 as u128 * 65536 + k.fragment_id.0 as u128) as u128
}

fn key_code_of(k: &ReassemblyKey) -> (r: u128)
    ensures
        r == key_code(*k),
{
    (k.session_id.0 as u128) * 65536 + (k.fragment_id.0 as u128)
}

/// Different contexts are tracked under different numbers.
pub proof fn lemma_key_code_injective(a: ReassemblyKey, b: ReassemblyKey)
    ensures
        key_code(a) == key_code(b) ==> a == b,
{
}

/// The bytes of the reassembled packet a fragment covers.
#[derive(Clone, Copy, Debug, PartialEq, Eq, Structural)]
pub struct FragmentRange {
    pub index: FragmentIndex,
    pub start_offset: u64,
    pub end_offset: u64,
    pub size: FragmentSize,
    /// When the fragment arrived, in nanoseconds.
    pub timestamp: Timestamp,
}

/// What overlap checking is told about a fragment.
#[derive(Clone, Copy, Debug)]
pub struct FragmentInfo {
    pub session_id: SessionId,
    pub fragment_id: FragmentId,
    pub fragment_index: FragmentIndex,
    pub fragment_count: FragmentCount,
    pub payload_size: FragmentSize,
}

/// How a fragment relates to those already received.
#[derive(Clone, Copy, Debug, PartialEq, Eq, Structural)]
pub enum OverlapResult {
    NoOverlap,
    Overlap { conflicting_index: FragmentIndex, overlap_start: u64, overlap_end: u64 },
    Adjacent { adjacent_index: FragmentIndex },
    Duplicate { existing_index: FragmentIndex },
}

/// Counters of overlap detection; the counts of checks and findings wrap around.
#[derive(Clone, Copy, Debug)]
pub struct OverlapStats {
    pub total_checked: PacketCount,
    pub overlaps_detected: PacketCount,
    pub adjacent_detected: PacketCount,
    pub duplicates_detected: PacketCount,
    pub active_contexts: usize,
    pub contexts_expired: PacketCount,
}

/// A gap in what has been received of a packet.
#[derive(Clone, Copy, Debug, PartialEq, Eq, Structural)]
pub struct CoverageGap {
    pub start_offset: u64,
    pub end_offset: u64,
    pub size: u64,
}

/// What has been received of a packet.
#[derive(Clone, Debug)]
pub struct FragmentCoverage {
    pub total_expected_fragments: usize,
    pub received_fragments: usize,
    pub covered_ranges: Vec<FragmentRange>,
    pub gaps: Vec<CoverageGap>,
    pub is_complete: bool,
}

/// The ranges received of one packet, the indices of the fragments that
/// brought them, and its fragment count.
#[derive(Clone, Debug)]
struct FragmentRangeTracker {
    ranges: Vec<FragmentRange>,
    received: Vec<u16>,
    fragment_count: Option<u16>,
    created_at: Timestamp,
    last_update: Timestamp,
}

// ---------------------------------------------------------------------------
// Ranges
// ---------------------------------------------------------------------------

/// The range a fragment covers, every fragment taken to be as large as this one.
pub open spec fn range_of(info: FragmentInfo, now: Timestamp) -> FragmentRange {
    FragmentRange {
        index: info.fragment_index,
        start_offset: (info.fragment_index.0 * info.payload_size.0) as u64,
        end_offset: (info.fragment_index.0 * info.payload_size.0 + info.payload_size.0) as u64,
        size: info.payload_size,
        timestamp: now,
    }
}

fn calculate_fragment_range(info: &FragmentInfo, now: Timestamp) -> (r: FragmentRange)
    ensures
        r == range_of(*info, now),
        r.start_offset <= r.end_offset,
{
    let size = info.payload_size.0 as u64;
    proof {
        assert(info.fragment_index.0 * info.payload_size.0 <= 65535 * 65535) by (nonlinear_arith)
            requires
                info.fragment_index.0 <= 65535,
                info.payload_size.0 <= 65535,
        ;
    }
    let start = (info.fragment_index.0 as u64) * size;
    FragmentRange {
        index: info.fragment_index,
        start_offset: start,
        end_offset: start + size,
        size: info.payload_size,
        timestamp: now,
    }
}

/// Scanning ranges from `i` on for one that `new` duplicates or overlaps,
/// remembering the last one it touches (`adjacent`).
pub open spec fn scan_overlap(
    rs: Seq<FragmentRange>,
    i: int,
    new: FragmentRange,
    strict: bool,
    allow_adjacent: bool,
    adjacent: Option<FragmentIndex>,
) -> OverlapResult
    decreases rs.len() - i,
{
    if i < 0 || i >= rs.len() {
        match adjacent {
            Some(a) => OverlapResult::Adjacent { adjacent_index: a },
            None => OverlapResult::NoOverlap,
        }
    } else {
        let e = rs[i];
        let lo = if e.start_offset > new.start_offset { e.start_offset } else { new.start_offset };
        let hi = if e.end_offset < new.end_offset { e.end_offset } else { new.end_offset };
        if e.index == new.index {
            OverlapResult::Duplicate { existing_index: e.index }
        } else if lo < hi && strict {
            OverlapResult::Overlap { conflicting_index: e.index, overlap_start: lo, overlap_end: hi }
        } else {
            let touches = allow_adjacent && (e.end_offset == new.start_offset || new.end_offset == e.start_offset);
            scan_overlap(rs, i + 1, new, strict, allow_adjacent, if touches { Some(e.index) } else { adjacent })
        }
    }
}

/// How `new` relates to the ranges `rs`: the first range with the same index
/// makes it a duplicate, the first overlapping one (when checking strictly) an
/// overlap; otherwise it is adjacent to the last range it touches (when
/// adjacency is reported), or overlaps nothing.
pub open spec fn overlap_of(rs: Seq<FragmentRange>, new: FragmentRange, strict: bool, allow_adjacent: bool) -> OverlapResult {
    scan_overlap(rs, 0, new, strict, allow_adjacent, None)
}

fn detect_overlap(existing: &Vec<FragmentRange>, new: &FragmentRange, strict: bool, allow_adjacent: bool) -> (r: OverlapResult)
    ensures
        r == overlap_of(existing@, *new, strict, allow_adjacent),
{
    let mut adjacent: Option<FragmentIndex> = None;
    let mut i: usize = 0;
    while i < existing.len()
        invariant
            i <= existing@.len(),
            scan_overlap(existing@, i as int, *new, strict, allow_adjacent, adjacent)
                == overlap_of(existing@, *new, strict, allow_adjacent),
        decreases existing@.len() - i,
    {
        let e = existing[i];
        let lo = if e.start_offset > new.start_offset { e.start_offset } else { new.start_offset };
        let hi = if e.end_offset < new.end_offset { e.end_offset } else { new.end_offset };
        if e.index == new.index {
            return OverlapResult::Duplicate { existing_index: e.index };
        }
        if lo < hi && strict {
            return OverlapResult::Overlap { conflicting_index: e.index, overlap_start: lo, overlap_end: hi };
        }
        if allow_adjacent && (e.end_offset == new.start_offset || new.end_offset == e.start_offset) {
            adjacent = Some(e.index);
        }
        i = i + 1;
    }
    match adjacent {
        Some(a) => OverlapResult::Adjacent { adjacent_index: a },
        None => OverlapResult::NoOverlap,
    }
}

/// Every range starts no later than it ends.
pub open spec fn ranges_wf(rs: Seq<FragmentRange>) -> bool {
    forall|i: int| 0 <= i < rs.len() ==> #[trigger] rs[i].start_offset <= rs[i].end_offset
}

/// `rs` is ordered by start offset.
pub open spec fn sorted_by_start(rs: Seq<FragmentRange>) -> bool {
    forall|i: int, j: int| 0 <= i < j < rs.len() ==> rs[i].start_offset <= rs[j].start_offset
}

/// How many leading ranges start at or before `s`.
pub open spec fn lead(rs: Seq<FragmentRange>, s: u64) -> nat
    decreases rs.len(),
{
    if rs.len() == 0 {
        0
    } else if rs[0].start_offset <= s {
        1 + lead(rs.drop_first(), s)
    } else {
        0
    }
}

/// The leading ranges that start at or before `new`'s start, then `new`, then
/// the rest: for ranges ordered by start, what appending `new` and sorting
/// stably by start gives.
pub open spec fn insert_sorted(rs: Seq<FragmentRange>, new: FragmentRange) -> Seq<FragmentRange> {
    let p = lead(rs, new.start_offset);
    rs.subrange(0, p as int).push(new) + rs.subrange(p as int, rs.len() as int)
}

proof fn lemma_lead_step(rs: Seq<FragmentRange>, s: u64, p: int)
    requires
        0 <= p < rs.len(),
        rs[p].start_offset <= s,
    ensures
        lead(rs.subrange(p, rs.len() as int), s) == 1 + lead(rs.subrange(p + 1, rs.len() as int), s),
{
    assert(rs.subrange(p, rs.len() as int).drop_first() =~= rs.subrange(p + 1, rs.len() as int));
}

/// Merging ranges into `cur`, in order: a range that starts within or right
/// after `cur` is absorbed when the result spans at most 65535 bytes; the
/// absorbed range's later timestamp is kept.
pub open spec fn merge_run(cur: FragmentRange, rest: Seq<FragmentRange>) -> Seq<FragmentRange>
    decreases rest.len(),
{
    if rest.len() == 0 {
        seq![cur]
    } else {
        let next = rest[0];
        let new_end = if cur.end_offset > next.end_offset { cur.end_offset } else { next.end_offset };
        if cur.end_offset >= next.start_offset && new_end - cur.start_offset <= 65535 {
            merge_run(
                FragmentRange {
                    end_offset: new_end,
                    size: FragmentSize((new_end - cur.start_offset) as u16),
                    timestamp: if next.timestamp.0 > cur.timestamp.0 { next.timestamp } else { cur.timestamp },
                    ..cur
                },
                rest.drop_first(),
            )
        } else {
            seq![cur] + merge_run(next, rest.drop_first())
        }
    }
}

/// Ranges with touching and overlapping neighbours merged.
pub open spec fn merged(rs: Seq<FragmentRange>) -> Seq<FragmentRange> {
    if rs.len() < 2 {
        rs
    } else {
        merge_run(rs[0], rs.drop_first())
    }
}

fn merge_adjacent_fragments(ranges: &Vec<FragmentRange>) -> (r: Vec<FragmentRange>)
    requires
        ranges_wf(ranges@),
    ensures
        r@ == merged(ranges@),
{
    if ranges.len() < 2 {
        return ranges.clone();
    }
    let n = ranges.len();
    let mut out: Vec<FragmentRange> = Vec::new();
    let mut cur = ranges[0];
    let mut i: usize = 1;
    proof {
        assert(ranges@.subrange(1, n as int) =~= ranges@.drop_first());
    }
    while i < n
        invariant
            1 <= i <= n,
            n == ranges@.len(),
            ranges_wf(ranges@),
            cur.start_offset <= cur.end_offset,
            out@ + merge_run(cur, ranges@.subrange(i as int, n as int)) == merged(ranges@),
        decreases n - i,
    {
        let next = ranges[i];
        let ghost rest = ranges@.subrange(i as int, n as int);
        proof {
            assert(rest[0] == next);
            assert(rest.drop_first() =~= ranges@.subrange(i + 1, n as int));
        }
        let new_end = if cur.end_offset > next.end_offset { cur.end_offset } else { next.end_offset };
        if cur.end_offset >= next.start_offset && new_end - cur.start_offset <= 65535 {
            let ts = if next.timestamp.0 > cur.timestamp.0 { next.timestamp } else { cur.timestamp };
            cur = FragmentRange {
                index: cur.index,
                start_offset: cur.start_offset,
                end_offset: new_end,
                size: FragmentSize::new((new_end - cur.start_offset) as u16),
                timestamp: ts,
            };
        } else {
            proof {
                assert(out@.push(cur) + merge_run(next, rest.drop_first()) =~= out@ + (seq![cur] + merge_run(next, rest.drop_first())));
            }
            out.push(cur);
            cur = next;
        }
        i = i + 1;
    }
    proof {
        assert(ranges@.subrange(n as int, n as int) =~= Seq::<FragmentRange>::empty());
        assert(out@.push(cur) =~= out@ + seq![cur]);
    }
    out.push(cur);
    out
}

fn insert_range_sorted(ranges: &Vec<FragmentRange>, new: FragmentRange) -> (r: Vec<FragmentRange>)
    requires
        sorted_by_start(ranges@),
    ensures
        r@ == insert_sorted(ranges@, new),
        sorted_by_start(r@),
        ranges_wf(ranges@) && new.start_offset <= new.end_offset ==> ranges_wf(r@),
{
    let n = ranges.len();
    let mut p: usize = 0;
    proof {
        assert(ranges@.subrange(0, n as int) =~= ranges@);
    }
    while p < n && ranges[p].start_offset <= new.start_offset
        invariant
            p <= n,
            n == ranges@.len(),
            forall|j: int| 0 <= j < p ==> ranges@[j].start_offset <= new.start_offset,
            lead(ranges@, new.start_offset) == p + lead(ranges@.subrange(p as int, n as int), new.start_offset),
        decreases n - p,
    {
        proof {
            lemma_lead_step(ranges@, new.start_offset, p as int);
        }
        p = p + 1;
    }
    proof {
        if p < n {
            assert(lead(ranges@.subrange(p as int, n as int), new.start_offset) == 0);
        } else {
            assert(ranges@.subrange(p as int, n as int).len() == 0);
        }
    }
    let mut out: Vec<FragmentRange> = Vec::new();
    let mut i: usize = 0;
    while i < p
        invariant
            i <= p <= n,
            n == ranges@.len(),
            out@ =~= ranges@.subrange(0, i as int),
        decreases p - i,
    {
        out.push(ranges[i]);
        i = i + 1;
    }
    out.push(new);
    let mut j: usize = p;
    while j < n
        invariant
            p <= j <= n,
            n == ranges@.len(),
            out@ =~= ranges@.subrange(0, p as int).push(new) + ranges@.subrange(p as int, j as int),
        decreases n - j,
    {
        out.push(ranges[j]);
        j = j + 1;
    }
    out
}


/// Merging keeps ranges well formed and ordered, and starts no earlier than `cur`.
proof fn lemma_merge_run_props(cur: FragmentRange, rest: Seq<FragmentRange>)
    requires
        cur.start_offset <= cur.end_offset,
        ranges_wf(rest),
        sorted_by_start(rest),
        forall|i: int| 0 <= i < rest.len() ==> cur.start_offset <= #[trigger] rest[i].start_offset,
    ensures
        ranges_wf(merge_run(cur, rest)),
        sorted_by_start(merge_run(cur, rest)),
        forall|i: int| 0 <= i < merge_run(cur, rest).len() ==> cur.start_offset <= #[trigger] merge_run(cur, rest)[i].start_offset,
    decreases rest.len(),
{
    if rest.len() > 0 {
        let next = rest[0];
        let tail = rest.drop_first();
        assert(forall|i: int| 0 <= i < tail.len() ==> #[trigger] tail[i] == rest[i + 1]);
        let new_end = if cur.end_offset > next.end_offset { cur.end_offset } else { next.end_offset };
        if cur.end_offset >= next.start_offset && new_end - cur.start_offset <= 65535 {
            let c2 = FragmentRange {
                end_offset: new_end,
                size: FragmentSize((new_end - cur.start_offset) as u16),
                timestamp: if next.timestamp.0 > cur.timestamp.0 { next.timestamp } else { cur.timestamp },
                ..cur
            };
            lemma_merge_run_props(c2, tail);
        } else {
            assert(forall|i: int| 0 <= i < tail.len() ==> next.start_offset <= #[trigger] tail[i].start_offset);
            lemma_merge_run_props(next, tail);
            let m = merge_run(next, tail);
            assert(merge_run(cur, rest) == seq![cur] + m);
            assert forall|i: int, j: int| 0 <= i < j < (seq![cur] + m).len() implies (seq![cur] + m)[i].start_offset <= (seq![cur] + m)[j].start_offset by {
                if i > 0 {
                    assert((seq![cur] + m)[i] == m[i - 1]);
                }
                assert((seq![cur] + m)[j] == m[j - 1]);
            }
            assert forall|i: int| 0 <= i < (seq![cur] + m).len() implies #[trigger] (seq![cur] + m)[i].start_offset <= (seq![cur] + m)[i].end_offset by {
                if i > 0 {
                    assert((seq![cur] + m)[i] == m[i - 1]);
                }
            }
            assert forall|i: int| 0 <= i < (seq![cur] + m).len() implies cur.start_offset <= #[trigger] (seq![cur] + m)[i].start_offset by {
                if i > 0 {
                    assert((seq![cur] + m)[i] == m[i - 1]);
                }
            }
        }
    }
}

/// Merging ordered, well formed ranges gives ordered, well formed ranges.
pub proof fn lemma_merged_props(rs: Seq<FragmentRange>)
    requires
        ranges_wf(rs),
        sorted_by_start(rs),
    ensures
        ranges_wf(merged(rs)),
        sorted_by_start(merged(rs)),
{
    if rs.len() >= 2 {
        let tail = rs.drop_first();
        assert(forall|i: int| 0 <= i < tail.len() ==> #[trigger] tail[i] == rs[i + 1]);
        lemma_merge_run_props(rs[0], tail);
    }
}

// ---------------------------------------------------------------------------
// The detector
// ---------------------------------------------------------------------------

/// Tracks the ranges received of every packet being reassembled and reports
/// how each new fragment relates to them.
pub struct OverlapDetector {
    fragment_ranges: HashMap<u128, FragmentRangeTracker>,
    config: OverlapConfig,
    stats: OverlapStats,
}

/// Counters all at zero.
pub open spec fn zero_overlap_stats(active: usize) -> OverlapStats {
    OverlapStats {
        total_checked: PacketCount(0),
        overlaps_detected: PacketCount(0),
        adjacent_detected: PacketCount(0),
        duplicates_detected: PacketCount(0),
        active_contexts: active,
        contexts_expired: PacketCount(0),
    }
}

/// The gaps before each range, in order, counting from `expected`.
pub open spec fn gaps_from(rs: Seq<FragmentRange>, expected: u64) -> Seq<CoverageGap>
    decreases rs.len(),
{
    if rs.len() == 0 {
        Seq::empty()
    } else {
        let r = rs[0];
        let g = if r.start_offset > expected {
            seq![CoverageGap { start_offset: expected, end_offset: r.start_offset, size: (r.start_offset - expected) as u64 }]
        } else {
            Seq::empty()
        };
        g + gaps_from(rs.drop_first(), r.end_offset)
    }
}

/// `s` with index `i` added unless it is already there.
pub open spec fn with_index(s: Seq<u16>, i: u16) -> Seq<u16> {
    if s.contains(i) {
        s
    } else {
        s.push(i)
    }
}

/// Packet `k` is tracked alike by `s0` and `s1`: same ranges, fragment
/// count, last update and received fragments.
pub open spec fn same_context(s0: OverlapDetector, s1: OverlapDetector, k: ReassemblyKey) -> bool {
    &&& s1.ranges_of(k) == s0.ranges_of(k)
    &&& s1.count_of(k) == s0.count_of(k)
    &&& s1.last_update_of(k) == s0.last_update_of(k)
    &&& s1.received_of(k) == s0.received_of(k)
}

/// The counters after a check whose finding was `res` (none when the fragment
/// was refused), with `active` packets tracked: one more check, and one more
/// overlap, adjacency or duplicate as found.
pub open spec fn checked_stats(st: OverlapStats, res: Option<OverlapResult>, active: usize) -> OverlapStats {
    let t = OverlapStats {
        total_checked: PacketCount(vstd::wrapping::u64_specs::wrapping_add(st.total_checked.0, 1)),
        active_contexts: active,
        ..st
    };
    match res {
        Some(OverlapResult::Overlap { .. }) => OverlapStats {
            overlaps_detected: PacketCount(vstd::wrapping::u64_specs::wrapping_add(st.overlaps_detected.0, 1)),
            ..t
        },
        Some(OverlapResult::Adjacent { .. }) => OverlapStats {
            adjacent_detected: PacketCount(vstd::wrapping::u64_specs::wrapping_add(st.adjacent_detected.0, 1)),
            ..t
        },
        Some(OverlapResult::Duplicate { .. }) => OverlapStats {
            duplicates_detected: PacketCount(vstd::wrapping::u64_specs::wrapping_add(st.duplicates_detected.0, 1)),
            ..t
        },
        _ => t,
    }
}

/// The detector `s1` and answer `r` after `s0` checked a fragment received at
/// `now` against the ranges already received of its packet. Refused when as
/// many packets are tracked as allowed (nothing but the count of checks
/// changes), and when the fragment count differs from the packet's (the
/// packet becomes tracked, its ranges unchanged). Otherwise the answer is the
/// overlap finding; a fragment found neither duplicate nor overlapping has
/// its range merged in and its index added to those received. Every other
/// packet is left as it was.
pub open spec fn overlap_outcome(
    s0: OverlapDetector,
    s1: OverlapDetector,
    reassembly_key: ReassemblyKey,
    fragment_info: FragmentInfo,
    now: Timestamp,
    r: Result<OverlapResult, FragmentationError>,
) -> bool {
    &&& s1.wf()
    &&& s1.spec_config() == s0.spec_config()
    &&& match overlap_error(s0, reassembly_key, fragment_info) {
        Some(m) => r matches Err(FragmentationError::ReassemblyFailed { reason }) && reason@ == m,
        None => r is Ok,
    }
    &&& s0.num_contexts() >= s0.spec_config().max_tracked_contexts ==> {
        &&& r matches Err(FragmentationError::ReassemblyFailed { .. })
        &&& forall|k: ReassemblyKey| #[trigger] s1.tracks(k) == s0.tracks(k)
        &&& forall|k: ReassemblyKey| s0.tracks(k) ==> #[trigger] same_context(s0, s1, k)
        &&& s1.num_contexts() == s0.num_contexts()
        &&& s1.spec_stats() == checked_stats(s0.spec_stats(), None, s0.spec_stats().active_contexts)
    }
    &&& s0.num_contexts() < s0.spec_config().max_tracked_contexts ==> {
        let k0 = reassembly_key;
        let before = if s0.tracks(k0) { s0.ranges_of(k0) } else { Seq::empty() };
        let got = if s0.tracks(k0) { s0.received_of(k0) } else { Seq::empty() };
        let count = if s0.tracks(k0) { s0.count_of(k0) } else { Some(fragment_info.fragment_count.0) };
        let res = overlap_of(before, range_of(fragment_info, now), s0.spec_config().strict_overlap_checking, s0.spec_config().allow_adjacent_fragments);
        &&& s1.tracks(k0)
        &&& forall|k: ReassemblyKey| k != k0 ==> #[trigger] s1.tracks(k) == s0.tracks(k)
        &&& forall|k: ReassemblyKey| k != k0 && s0.tracks(k) ==> #[trigger] same_context(s0, s1, k)
        &&& s1.num_contexts() == (if s0.tracks(k0) { s0.num_contexts() } else { s0.num_contexts() + 1 })
        &&& if count matches Some(c) && c != fragment_info.fragment_count.0 {
            &&& r matches Err(FragmentationError::ReassemblyFailed { .. })
            &&& s1.ranges_of(k0) == before
            &&& s1.received_of(k0) == got
            &&& s1.spec_stats() == checked_stats(s0.spec_stats(), None, s0.spec_stats().active_contexts)
        } else {
            &&& r == Ok::<OverlapResult, FragmentationError>(res)
            &&& s1.count_of(k0) == Some(fragment_info.fragment_count.0)
            &&& s1.spec_stats() == checked_stats(s0.spec_stats(), Some(res), s1.num_contexts() as usize)
            &&& if res is NoOverlap || res is Adjacent {
                &&& s1.ranges_of(k0) == merged(insert_sorted(before, range_of(fragment_info, now)))
                &&& s1.received_of(k0) == with_index(got, fragment_info.fragment_index.0)
                &&& s1.last_update_of(k0) == now
            } else {
                &&& s1.ranges_of(k0) == before
                &&& s1.received_of(k0) == got
            }
        }
    }
}

/// Why the overlap check refuses a fragment of packet `key`, if it does: as
/// many packets tracked as allowed, or a fragment count other than the one
/// the packet is tracked with.
pub open spec fn overlap_error(s0: OverlapDetector, key: ReassemblyKey, info: FragmentInfo) -> Option<Seq<char>> {
    if s0.num_contexts() >= s0.spec_config().max_tracked_contexts {
        Some("Too many tracked reassembly contexts"@)
    } else if s0.tracks(key) && (s0.count_of(key) matches Some(c) && c != info.fragment_count.0) {
        Some("Fragment total count mismatch"@)
    } else {
        None
    }
}

/// Every number a packet is tracked under is the number of some packet key.
proof fn lemma_code_has_key(c: u128)
    requires
        c < 0x1_0000_0000_0000_0000_0000,
    ensures
        key_code(ReassemblyKey { session_id: SessionId((c / 65536) as u64), fragment_id: FragmentId((c % 65536) as u16) }) == c,
{
    assert(c / 65536 < 0x1_0000_0000_0000_0000) by (nonlinear_arith)
        requires
            c < 0x1_0000_0000_0000_0000_0000,
    ;
    assert((c / 65536) * 65536 + c % 65536 == c) by (nonlinear_arith);
}

/// The packet key tracked under the number `c`.
pub open spec fn code_key(c: u128) -> ReassemblyKey {
    ReassemblyKey { session_id: SessionId((c / 65536) as u64), fragment_id: FragmentId((c % 65536) as u16) }
}

/// A packet key is the key of its own number.
proof fn lemma_key_of_code(k: ReassemblyKey)
    ensures
        code_key(key_code(k)) == k,
{
    let c = k.session_id.0 as int * 65536 + k.fragment_id.0 as int;
    assert(c < 0x1_0000_0000_0000_0000_0000) by (nonlinear_arith)
        requires
            c == k.session_id.0 as int * 65536 + k.fragment_id.0 as int,
            k.session_id.0 < 0x1_0000_0000_0000_0000,
            k.fragment_id.0 < 65536,
    ;
    assert(key_code(k) == c);
    vstd::arithmetic::div_mod::lemma_fundamental_div_mod_converse_div(c, 65536, k.session_id.0 as int, k.fragment_id.0 as int);
    vstd::arithmetic::div_mod::lemma_fundamental_div_mod_converse_mod(c, 65536, k.session_id.0 as int, k.fragment_id.0 as int);
}

/// The number of contexts a detector holds is the number of packet keys it
/// tracks.
pub proof fn lemma_tracked_count(d: OverlapDetector)
    requires
        d.wf(),
    ensures
        d.tracked_keys().finite(),
        d.num_contexts() == d.tracked_keys().len(),
{
    let m = d.fragment_ranges@;
    let x = m.dom();
    let f = |c: u128| code_key(c);
    assert(x.finite());
    assert forall|a: u128, b: u128| x.contains(a) && x.contains(b) && #[trigger] f(a) == #[trigger] f(b) implies a == b by {
        lemma_code_has_key(a);
        lemma_code_has_key(b);
    }
    assert(vstd::relations::injective_on(f, x));
    assert(x.map(f) =~= d.tracked_keys()) by {
        assert forall|k: ReassemblyKey| #[trigger] d.tracked_keys().contains(k) implies x.map(f).contains(k) by {
            lemma_key_of_code(k);
            assert(x.contains(key_code(k)));
        }
        assert forall|k: ReassemblyKey| #[trigger] x.map(f).contains(k) implies d.tracked_keys().contains(k) by {
            let c = choose|c: u128| x.contains(c) && f(c) == k;
            lemma_code_has_key(c);
        }
    }
    vstd::set_lib::lemma_map_size(x, d.tracked_keys(), f);
}

/// A detector that tracks no packet key tracks nothing at all.
pub proof fn lemma_untracked_is_empty(d: OverlapDetector)
    requires
        d.wf(),
        forall|k: ReassemblyKey| !d.tracks(k),
    ensures
        d.num_contexts() == 0,
{
    let m = d.fragment_ranges@;
    if m.len() != 0 {
        assert(m.dom().finite());
        let c = m.dom().choose();
        assert(m.dom().contains(c));
        lemma_code_has_key(c);
        let k = ReassemblyKey { session_id: SessionId((c / 65536) as u64), fragment_id: FragmentId((c % 65536) as u16) };
        assert(d.tracks(k));
    }
}

/// Whether `v` holds `i`.
fn has_index(v: &Vec<u16>, i: u16) -> (r: bool)
    ensures
        r == v@.contains(i),
{
    let mut j: usize = 0;
    while j < v.len()
        invariant
            j <= v@.len(),
            forall|k: int| 0 <= k < j ==> v@[k] != i,
        decreases v@.len() - j,
    {
        if v[j] == i {
            assert(v@[j as int] == i);
            return true;
        }
        j = j + 1;
    }
    false
}

/// The detector `s1` after `s0` dropped, at `now`, the packets not updated
/// within the context timeout.
pub open spec fn contexts_cleanup_outcome(
    s0: OverlapDetector,
    s1: OverlapDetector,
    now: Timestamp,
) -> bool {
    &&& s1.wf()
    &&& forall|k: ReassemblyKey| #[trigger] s1.tracks(k) <==> s0.tracks(k)
        && context_live(s0.last_update_of(k), now, s0.spec_config().context_timeout_sec)
    &&& forall|k: ReassemblyKey| #[trigger] s1.tracks(k) ==> same_context(s0, s1, k)
    &&& s1.spec_config() == s0.spec_config()
    &&& s1.spec_stats() == (OverlapStats {
        active_contexts: s1.num_contexts() as usize,
        contexts_expired: PacketCount(
            vstd::wrapping::u64_specs::wrapping_add(s0.spec_stats().contexts_expired.0, (s0.num_contexts() - s1.num_contexts()) as u64),
        ),
        ..s0.spec_stats()
    })
}

impl OverlapDetector {
    pub closed spec fn tracks(&self, key: ReassemblyKey) -> bool {
        self.fragment_ranges@.contains_key(key_code(key))
    }

    /// The packet keys tracked.
    pub open spec fn tracked_keys(&self) -> Set<ReassemblyKey> {
        Set::new(|k: ReassemblyKey| self.tracks(k))
    }

    pub closed spec fn ranges_of(&self, key: ReassemblyKey) -> Seq<FragmentRange> {
        self.fragment_ranges@[key_code(key)].ranges@
    }

    pub closed spec fn count_of(&self, key: ReassemblyKey) -> Option<u16> {
        self.fragment_ranges@[key_code(key)].fragment_count
    }

    /// The distinct indices of the fragments whose ranges were recorded, in
    /// the order they came.
    pub closed spec fn received_of(&self, key: ReassemblyKey) -> Seq<u16> {
        self.fragment_ranges@[key_code(key)].received@
    }

    pub closed spec fn last_update_of(&self, key: ReassemblyKey) -> Timestamp {
        self.fragment_ranges@[key_code(key)].last_update
    }

    pub closed spec fn num_contexts(&self) -> nat {
        self.fragment_ranges@.len()
    }

    pub closed spec fn spec_config(&self) -> OverlapConfig {
        self.config
    }

    pub closed spec fn spec_stats(&self) -> OverlapStats {
        self.stats
    }

    /// The ranges of every tracked packet are ordered and well formed, and no
    /// fragment index is counted twice.
    pub closed spec fn wf(&self) -> bool {
        forall|k: u128| #[trigger] self.fragment_ranges@.contains_key(k) ==> sorted_by_start(
            self.fragment_ranges@[k].ranges@,
        ) && ranges_wf(self.fragment_ranges@[k].ranges@) && self.fragment_ranges@[k].received@.no_duplicates()
            && k < 0x1_0000_0000_0000_0000_0000
    }

    pub fn new() -> (r: OverlapDetector)
        ensures
            r.wf(),
            r.num_contexts() == 0,
            forall|k: ReassemblyKey| !r.tracks(k),
            r.spec_config() == (OverlapConfig {
                max_tracked_contexts: 1000,
                context_timeout_sec: 30,
                strict_overlap_checking: true,
                allow_adjacent_fragments: true,
            }),
            r.spec_stats() == zero_overlap_stats(0),
    {
        Self::with_config(OverlapConfig::default())
    }

    pub fn with_config(config: OverlapConfig) -> (r: OverlapDetector)
        ensures
            r.wf(),
            r.num_contexts() == 0,
            forall|k: ReassemblyKey| !r.tracks(k),
            r.spec_config() == config,
            r.spec_stats() == zero_overlap_stats(0),
    {
        OverlapDetector {
            fragment_ranges: HashMap::new(),
            config,
            stats: OverlapStats {
                total_checked: PacketCount::new(0),
                overlaps_detected: PacketCount::new(0),
                adjacent_detected: PacketCount::new(0),
                duplicates_detected: PacketCount::new(0),
                active_contexts: 0,
                contexts_expired: PacketCount::new(0),
            },
        }
    }

    /// Checks a fragment at the current time.
    pub fn check_overlap(&mut self, reassembly_key: &ReassemblyKey, fragment_info: &FragmentInfo) -> (r: Result<OverlapResult, FragmentationError>)
        requires
            old(self).wf(),
        ensures
            final(self).wf(),
            exists|now: Timestamp| overlap_outcome(*old(self), *final(self), *reassembly_key, *fragment_info, now, r),
    {
        let now = Timestamp::now();
        self.check_overlap_at(reassembly_key, fragment_info, now)
    }

    /// Checks a fragment received at `now` against the ranges already received
    /// of its packet, and records its range unless it is a duplicate or an
    /// overlap. Refused when as many packets are tracked as allowed, and when
    /// the fragment count differs from the packet's (the packet stays tracked).
    pub fn check_overlap_at(&mut self, reassembly_key: &ReassemblyKey, fragment_info: &FragmentInfo, now: Timestamp) -> (r: Result<OverlapResult, FragmentationError>)
        requires
            old(self).wf(),
        ensures
            overlap_outcome(*old(self), *final(self), *reassembly_key, *fragment_info, now, r),
    {
        self.stats.total_checked = PacketCount::new(self.stats.total_checked.0.wrapping_add(1));
        let range = calculate_fragment_range(fragment_info, now);
        if self.fragment_ranges.len() >= self.config.max_tracked_contexts {
            proof {
                reveal_strlit("Too many tracked reassembly contexts");
            }
            return Err(FragmentationError::ReassemblyFailed { reason: "Too many tracked reassembly contexts".to_owned() });
        }
        let kc = key_code_of(reassembly_key);
        proof {
            assert forall|k: ReassemblyKey| k != *reassembly_key implies key_code(k) != kc by {
                lemma_key_code_injective(k, *reassembly_key);
            }
        }
        let ghost m0 = self.fragment_ranges@;
        let mut tracker = match self.fragment_ranges.remove(&kc) {
            Some(t) => t,
            None => FragmentRangeTracker {
                ranges: Vec::new(),
                received: Vec::new(),
                fragment_count: Some(fragment_info.fragment_count.0),
                created_at: now,
                last_update: now,
            },
        };
        proof {
            if m0.contains_key(kc) {
                assert(tracker == m0[kc]);
                assert(old(self).fragment_ranges@.contains_key(kc));
            }
            assert(sorted_by_start(tracker.ranges@) && ranges_wf(tracker.ranges@));
        }
        match tracker.fragment_count {
            Some(c) => {
                if c != fragment_info.fragment_count.0 {
                    self.fragment_ranges.insert(kc, tracker);
                    proof {
                        reveal_strlit("Fragment total count mismatch");
                    }
                    return Err(FragmentationError::ReassemblyFailed { reason: "Fragment total count mismatch".to_owned() });
                }
            },
            None => {
                tracker.fragment_count = Some(fragment_info.fragment_count.0);
            },
        }
        let result = detect_overlap(&tracker.ranges, &range, self.config.strict_overlap_checking, self.config.allow_adjacent_fragments);
        match result {
            OverlapResult::NoOverlap | OverlapResult::Adjacent { .. } => {
                let inserted = insert_range_sorted(&tracker.ranges, range);
                proof {
                    lemma_merged_props(inserted@);
                }
                tracker.ranges = merge_adjacent_fragments(&inserted);
                tracker.last_update = now;
                if !has_index(&tracker.received, fragment_info.fragment_index.0) {
                    tracker.received.push(fragment_info.fragment_index.0);
                }
            },
            _ => {},
        }
        match result {
            OverlapResult::Overlap { .. } => {
                self.stats.overlaps_detected = PacketCount::new(self.stats.overlaps_detected.0.wrapping_add(1));
            },
            OverlapResult::Adjacent { .. } => {
                self.stats.adjacent_detected = PacketCount::new(self.stats.adjacent_detected.0.wrapping_add(1));
            },
            OverlapResult::Duplicate { .. } => {
                self.stats.duplicates_detected = PacketCount::new(self.stats.duplicates_detected.0.wrapping_add(1));
            },
            OverlapResult::NoOverlap => {},
        }
        self.fragment_ranges.insert(kc, tracker);
        self.stats.active_contexts = self.fragment_ranges.len();
        Ok(result)
    }

    /// Stops tracking a packet.
    pub fn remove_context(&mut self, reassembly_key: &ReassemblyKey)
        requires
            old(self).wf(),
        ensures
            final(self).wf(),
            !final(self).tracks(*reassembly_key),
            forall|k: ReassemblyKey| k != *reassembly_key ==> #[trigger] final(self).tracks(k) == old(self).tracks(k),
            forall|k: ReassemblyKey| k != *reassembly_key && old(self).tracks(k) ==> #[trigger] same_context(*old(self), *final(self), k),
            final(self).spec_config() == old(self).spec_config(),
            final(self).num_contexts() == (if old(self).tracks(*reassembly_key) {
                old(self).num_contexts() - 1
            } else {
                old(self).num_contexts() as int
            }),
            final(self).spec_stats() == (OverlapStats { active_contexts: final(self).num_contexts() as usize, ..old(self).spec_stats() }),
    {
        let kc = key_code_of(reassembly_key);
        proof {
            assert forall|k: ReassemblyKey| k != *reassembly_key implies key_code(k) != kc by {
                lemma_key_code_injective(k, *reassembly_key);
            }
        }
        self.fragment_ranges.remove(&kc);
        self.stats.active_contexts = self.fragment_ranges.len();
    }

    /// Drops packets not updated within the context timeout, at the current time.
    pub fn cleanup_expired_contexts(&mut self)
        requires
            old(self).wf(),
        ensures
            final(self).wf(),
            exists|now: Timestamp| contexts_cleanup_outcome(*old(self), *final(self), now),
    {
        let now = Timestamp::now();
        self.cleanup_expired_contexts_at(now);
    }

    /// Drops, at `now`, the packets not updated within the context timeout
    /// (a later update counts as just now), and counts them as expired.
    pub fn cleanup_expired_contexts_at(&mut self, now: Timestamp)
        requires
            old(self).wf(),
        ensures
            contexts_cleanup_outcome(*old(self), *final(self), now),
    {
        let timeout = self.config.context_timeout_sec;
        let ghost m = self.fragment_ranges@;
        let mut expired: Vec<u128> = Vec::new();
        for (k, v) in it: self.fragment_ranges.iter()
            invariant
                m == self.fragment_ranges@,
                timeout == self.config.context_timeout_sec,
                it.seq() == spec_hash_map_iter(&self.fragment_ranges).remaining(),
                forall|j: int| 0 <= j < expired@.len() ==> m.contains_key(#[trigger] expired@[j])
                    && !context_live(m[expired@[j]].last_update, now, timeout),
                forall|j: int| 0 <= j < it.index() && !context_live((*it.seq()[j].1).last_update, now, timeout)
                    ==> expired@.contains(*it.seq()[j].0),
        {
            let ghost idx = it.index();
            let ghost prev = expired@;
            proof {
                let s = spec_hash_map_iter(&self.fragment_ranges).remaining();
                assert(m.contains_key(*s[idx].0) && m[*s[idx].0] == *s[idx].1);
            }
            let elapsed: u64 = if now.0 >= v.last_update.0 { now.0 - v.last_update.0 } else { 0 };
            if !((elapsed as u128) < (timeout as u128) * 1_000_000_000) {
                expired.push(*k);
            }
            proof {
                assert forall|j: int| 0 <= j < idx + 1 && !context_live((*it.seq()[j].1).last_update, now, timeout)
                    implies expired@.contains(*it.seq()[j].0) by {
                    if j < idx {
                        assert(prev.contains(*it.seq()[j].0));
                        let w = choose|w: int| 0 <= w < prev.len() && prev[w] == *it.seq()[j].0;
                        assert(expired@[w] == *it.seq()[j].0);
                    } else {
                        assert(expired@[expired@.len() - 1] == *it.seq()[j].0);
                    }
                }
            }
        }
        proof {
            let s = spec_hash_map_iter(&self.fragment_ranges).remaining();
            assert forall|key: u128| #[trigger] m.contains_key(key) && !context_live(m[key].last_update, now, timeout)
                implies expired@.contains(key) by {
                assert(s.contains((&key, &m[key])));
                let j = choose|j: int| 0 <= j < s.len() && s[j] == (&key, &m[key]);
                assert(*s[j].0 == key);
            }
        }
        let before = self.fragment_ranges.len();
        let n = expired.len();
        let mut i: usize = 0;
        while i < n
            invariant
                i <= n,
                n == expired@.len(),
                forall|j: int| 0 <= j < expired@.len() ==> m.contains_key(#[trigger] expired@[j])
                    && !context_live(m[expired@[j]].last_update, now, timeout),
                forall|key: u128| #[trigger] self.fragment_ranges@.contains_key(key) <==> m.contains_key(key)
                    && !exists|w: int| 0 <= w < i && #[trigger] expired@[w] == key,
                forall|key: u128| #[trigger] self.fragment_ranges@.contains_key(key) ==> self.fragment_ranges@[key] == m[key],
                self.config == old(self).config,
                self.stats == old(self).stats,
            decreases n - i,
        {
            let key = expired[i];
            self.fragment_ranges.remove(&key);
            proof {
                assert forall|k2: u128| #[trigger] self.fragment_ranges@.contains_key(k2) <==> m.contains_key(k2)
                    && !exists|w: int| 0 <= w < i + 1 && #[trigger] expired@[w] == k2 by {
                    if exists|w: int| 0 <= w < i + 1 && #[trigger] expired@[w] == k2 {
                        let w = choose|w: int| 0 <= w < i + 1 && #[trigger] expired@[w] == k2;
                        if w == i {
                            assert(k2 == key);
                        }
                    }
                }
            }
            i = i + 1;
        }
        proof {
            assert forall|key: u128| #[trigger] self.fragment_ranges@.contains_key(key) <==> m.contains_key(key)
                && context_live(m[key].last_update, now, timeout) by {
                if m.contains_key(key) && !context_live(m[key].last_update, now, timeout) {
                    assert(expired@.contains(key));
                }
            }
            vstd::set_lib::lemma_len_subset(self.fragment_ranges@.dom(), m.dom());
        }
        let after = self.fragment_ranges.len();
        self.stats.active_contexts = after;
        self.stats.contexts_expired = PacketCount::new(self.stats.contexts_expired.0.wrapping_add((before - after) as u64));
    }

    /// What has been received of a packet, if it is tracked: its ranges in
    /// order, the gaps before them, and whether every fragment arrived with no gap.
    pub fn get_fragment_coverage(&self, reassembly_key: &ReassemblyKey) -> (r: Option<FragmentCoverage>)
        requires
            self.wf(),
        ensures
            !self.tracks(*reassembly_key) ==> r is None,
            self.tracks(*reassembly_key) ==> (r matches Some(c) && {
                let rs = self.ranges_of(*reassembly_key);
                let expected = match self.count_of(*reassembly_key) { Some(n) => n as int, None => 0 };
                let got = self.received_of(*reassembly_key);
                &&& c.covered_ranges@ == rs
                &&& c.gaps@ == gaps_from(rs, 0)
                &&& c.received_fragments == got.len()
                &&& got.no_duplicates()
                &&& c.total_expected_fragments == expected
                &&& c.is_complete == (got.len() == expected && gaps_from(rs, 0).len() == 0)
            }),
    {
        let kc = key_code_of(reassembly_key);
        match self.fragment_ranges.get(&kc) {
            None => None,
            Some(tracker) => {
                let covered = tracker.ranges.clone();
                let total: usize = match tracker.fragment_count { Some(n) => n as usize, None => 0 };
                let received = tracker.received.len();
                let mut gaps: Vec<CoverageGap> = Vec::new();
                let mut expected: u64 = 0;
                let mut i: usize = 0;
                let ghost rs = covered@;
                proof {
                    assert(covered@ == tracker.ranges@);
                    assert(rs.subrange(0, rs.len() as int) =~= rs);
                }
                while i < covered.len()
                    invariant
                        i <= covered@.len(),
                        rs == covered@,
                        gaps@ + gaps_from(rs.subrange(i as int, rs.len() as int), expected) == gaps_from(rs, 0),
                    decreases covered@.len() - i,
                {
                    let r = covered[i];
                    proof {
                        let sub = rs.subrange(i as int, rs.len() as int);
                        assert(sub[0] == r);
                        assert(sub.drop_first() =~= rs.subrange(i + 1, rs.len() as int));
                    }
                    if r.start_offset > expected {
                        let g = CoverageGap { start_offset: expected, end_offset: r.start_offset, size: r.start_offset - expected };
                        proof {
                            let sub = rs.subrange(i as int, rs.len() as int);
                            assert(gaps@.push(g) + gaps_from(sub.drop_first(), r.end_offset) =~= gaps@ + (seq![g] + gaps_from(sub.drop_first(), r.end_offset)));
                        }
                        gaps.push(g);
                    } else {
                        proof {
                            let sub = rs.subrange(i as int, rs.len() as int);
                            assert(Seq::<CoverageGap>::empty() + gaps_from(sub.drop_first(), r.end_offset) =~= gaps_from(sub.drop_first(), r.end_offset));
                        }
                    }
                    expected = r.end_offset;
                    i = i + 1;
                }
                proof {
                    assert(rs.subrange(rs.len() as int, rs.len() as int) =~= Seq::<FragmentRange>::empty());
                    assert(gaps@ + Seq::<CoverageGap>::empty() =~= gaps@);
                }
                let is_complete = received == total && gaps.len() == 0;
                Some(FragmentCoverage {
                    total_expected_fragments: total,
                    received_fragments: received,
                    covered_ranges: covered,
                    gaps,
                    is_complete,
                })
            },
        }
    }

    pub fn get_stats(&self) -> (r: OverlapStats)
        ensures
            r == self.spec_stats(),
    {
        self.stats
    }

    /// Zeroes the counters, keeping the number of tracked packets.
    pub fn reset_stats(&mut self)
        ensures
            final(self).spec_stats() == zero_overlap_stats(old(self).spec_stats().active_contexts),
            final(self).wf() == old(self).wf(),
            forall|k: ReassemblyKey| #[trigger] final(self).tracks(k) == old(self).tracks(k),
            forall|k: ReassemblyKey| old(self).tracks(k) ==> #[trigger] same_context(*old(self), *final(self), k),
            final(self).num_contexts() == old(self).num_contexts(),
            final(self).spec_config() == old(self).spec_config(),
    {
        self.stats = OverlapStats {
            total_checked: PacketCount::new(0),
            overlaps_detected: PacketCount::new(0),
            adjacent_detected: PacketCount::new(0),
            duplicates_detected: PacketCount::new(0),
            active_contexts: self.stats.active_contexts,
            contexts_expired: PacketCount::new(0),
        };
    }
}

/// A packet last updated at `last` is still tracked at `now` when less than
/// the timeout (seconds) has elapsed.
pub open spec fn context_live(last: Timestamp, now: Timestamp, timeout_sec: u64) -> bool {
    (if now.0 >= last.0 { now.0 - last.0 } else { 0 }) < timeout_sec * 1_000_000_000
}

} // verus!
