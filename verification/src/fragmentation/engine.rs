//! The fragmentation engine: splits DATA packets into fragments and puts
//! received fragments back together, with rate limiting, security checks and
//! overlap detection on the way in.
use vstd::prelude::*;
use std::collections::HashMap;
use vstd::std_specs::hash::spec_hash_map_iter;
use vstd::std_specs::iter::IteratorSpec;
use crate::codec::{be_decode, be_encode, push_be, push_slice, read_be, read_bytes};
use crate::error::{fragmentation_text, protocol_text, FragmentationError, ProtocolError};
use crate::fragmentation::memory::{fragments_cleanup_outcome, FragmentMemoryManager};
use crate::fragmentation::memory::FragmentMemoryStats;
use crate::fragmentation::overlap::{contexts_cleanup_outcome, key_code, overlap_outcome, OverlapDetector, OverlapResult};
use crate::fragmentation::overlap;
use crate::fragmentation::rate_limit::{
    limiters_cleanup_outcome, rate_check_outcome, FragmentRateLimitStats, FragmentRateLimiter, RateLimitRequest,
    RateLimitViolation, ViolationType,
};
use crate::fragmentation::security::{
    fragment_info_of, states_cleanup_outcome, validation_outcome, FragmentSecurityEngine, FragmentSecurityStats,
    SecurityValidationResult,
};
use crate::packet::builder::PacketBuilderEngine;
use crate::packet::header::{header_new, PacketHeader};
use crate::packet::structures::{DataPacket, FragmentHeader, Packet};
use crate::text::{decimal, with_decimal};
use crate::types::{spec_tag_size, PacketFlags, PacketType, SubType};
use crate::values::{
    ipv4_mapped, FragmentCount, FragmentId, FragmentIndex, FragmentSize, FragmentTimeout, HmacTag, IpAddress,
    PacketSize, PayloadLength, ReceivedFragments, SessionId, Timestamp,
};

verus! {

broadcast use vstd::std_specs::hash::group_hash_axioms;

/// Bytes of the fragmentation header that starts each fragment's payload.
pub const FRAGMENT_HEADER_SIZE: usize = 8;

/// How many recently issued fragment identifiers are remembered.
pub const FRAGMENT_DUPLICATE_WINDOW: usize = 1024;

/// Settings of the fragmentation engine.
#[derive(Clone, Copy, Debug)]
pub struct FragmentationConfig {
    /// Largest fragment, header included, in bytes.
    pub max_fragment_size: FragmentSize,
    /// Most fragments one packet may be split into.
    pub max_fragments_per_packet: FragmentCount,
    /// How long a reassembly may stay idle, in milliseconds.
    pub reassembly_timeout: FragmentTimeout,
    /// Most reassemblies under way at once (reported, not enforced).
    pub max_reassembly_contexts: usize,
    pub enable_overlap_detection: bool,
    pub enable_rate_limiting: bool,
    pub enable_security_validation: bool,
}

impl Default for FragmentationConfig {
    /// 1400-byte fragments, at most 255 per packet (the protocol's limit), the
    /// fragment timeout, a thousand reassemblies, every check on.
    fn default() -> (r: FragmentationConfig)
        ensures
            r.max_fragment_size.0 == 1400,
            r.max_fragments_per_packet.0 == 255,
            r.reassembly_timeout.0 == 5000,
            r.max_reassembly_contexts == 1000,
            r.enable_overlap_detection && r.enable_rate_limiting && r.enable_security_validation,
    {
        FragmentationConfig {
            max_fragment_size: FragmentSize::new(1400),
            max_fragments_per_packet: FragmentCount::new(255),
            reassembly_timeout: FragmentTimeout::new(FragmentTimeout::FRAGMENT_TIMEOUT_MS),
            max_reassembly_contexts: 1000,
            enable_overlap_detection: true,
            enable_rate_limiting: true,
            enable_security_validation: true,
        }
    }
}

/// A received fragment's payload.
#[derive(Debug)]
pub struct FragmentData {
    pub index: FragmentIndex,
    pub payload: Vec<u8>,
    pub timestamp: Timestamp,
    pub security_validated: bool,
}

/// A packet under reassembly.
#[derive(Debug)]
pub struct ReassemblyContext {
    pub session_id: SessionId,
    pub fragment_id: FragmentId,
    pub fragment_count: FragmentCount,
    pub fragments: HashMap<u16, FragmentData>,
    pub expected_size: Option<usize>,
    pub created_at: Timestamp,
    pub last_activity: Timestamp,
    /// The header of the fragment that opened the reassembly.
    pub original_header: Option<PacketHeader>,
}

/// What is known of a reassembly: session, fragment identifier, fragment
/// count, the payloads received by index, last activity and the header of
/// the fragment that opened it.
pub type ContextView = (SessionId, FragmentId, FragmentCount, Map<u16, Seq<u8>>, Timestamp, Option<PacketHeader>);

pub open spec fn context_view(c: ReassemblyContext) -> ContextView {
    (
        c.session_id,
        c.fragment_id,
        c.fragment_count,
        c.fragments@.map_values(|f: FragmentData| f.payload@),
        c.last_activity,
        c.original_header,
    )
}

/// A packet to split.
#[derive(Debug)]
pub struct FragmentationRequest {
    pub session_id: SessionId,
    pub packet: DataPacket,
    /// Largest fragment asked for; the configured one otherwise.
    pub max_fragment_size: Option<usize>,
    pub source_ip: u32,
}

/// The fragments of a packet.
#[derive(Debug)]
pub struct FragmentationResult {
    pub fragments: Vec<DataPacket>,
    pub fragment_id: FragmentId,
    pub fragment_count: FragmentCount,
}

/// A received fragment.
#[derive(Debug)]
pub struct ReassemblyRequest {
    pub fragment: DataPacket,
    pub source_ip: u32,
}

/// What became of a received fragment.
#[derive(Debug)]
pub enum ReassemblyResult {
    /// Accepted; the packet is not complete yet.
    InProgress { fragment_id: FragmentId, received_fragments: ReceivedFragments, fragment_count: FragmentCount },
    /// The packet is complete.
    Complete { packet: Box<DataPacket>, fragment_id: FragmentId, fragment_count: FragmentCount },
    /// Refused by a check.
    Rejected { reason: String },
}

/// The fragmentation header and payload of a received fragment.
#[derive(Debug)]
pub struct FragmentInfo {
    pub session_id: SessionId,
    pub fragment_id: FragmentId,
    pub fragment_index: FragmentIndex,
    pub fragment_count: FragmentCount,
    pub payload: Vec<u8>,
}

/// Counters of the engine and of its checks.
#[derive(Debug)]
pub struct FragmentationStats {
    pub active_reassembly_contexts: usize,
    pub max_reassembly_contexts: usize,
    pub rate_limit_stats: FragmentRateLimitStats,
    pub security_stats: FragmentSecurityStats,
    pub memory_stats: FragmentMemoryStats,
}

// ---------------------------------------------------------------------------
// Splitting
// ---------------------------------------------------------------------------

/// How many fragments of `eff` payload bytes `len` bytes take.
pub open spec fn fragments_needed(len: nat, eff: nat) -> nat {
    if eff == 0 {
        0
    } else {
        ((len + eff - 1) as int / eff as int) as nat
    }
}

/// The fragment count is the whole quotient, plus one for a remainder.
proof fn lemma_fragments_needed_quotient(len: nat, eff: nat)
    requires
        eff > 0,
    ensures
        fragments_needed(len, eff) == len / eff + if len % eff > 0 { 1nat } else { 0nat },
{
    let q = (len / eff) as int;
    let r = (len % eff) as int;
    vstd::arithmetic::div_mod::lemma_fundamental_div_mod(len as int, eff as int);
    assert(len == q * eff + r);
    let x = (len + eff - 1) as int;
    if r == 0 {
        vstd::arithmetic::div_mod::lemma_fundamental_div_mod_converse_div(x, eff as int, q, eff - 1);
    } else {
        assert((q + 1) * eff == q * eff + eff) by (nonlinear_arith);
        vstd::arithmetic::div_mod::lemma_fundamental_div_mod_converse_div(x, eff as int, q + 1, r - 1);
    }
}

/// The payload bytes that fragment `i` carries: `eff` bytes from `i * eff`,
/// fewer at the end.
pub open spec fn fragment_slice(p: Seq<u8>, eff: nat, i: nat) -> Seq<u8> {
    let start = i * eff;
    let end = if start + eff < p.len() { start + eff } else { p.len() as nat };
    p.subrange(start as int, end as int)
}

/// The fragmentation header at the start of a fragment's payload: the
/// fragment identifier, index and count, and two zero bytes.
pub open spec fn fragment_prefix(fid: u16, index: u16, count: u16) -> Seq<u8> {
    be_encode(fid as nat, 2) + be_encode(index as nat, 2) + be_encode(count as nat, 2) + be_encode(0, 2)
}

/// `f` is fragment `i` of `n`, with identifier `fid`, of `orig` split into
/// pieces of `eff` bytes: the original's header fields with the fragment flag
/// set, its window and tag, and a payload of the fragmentation header and the
/// fragment's bytes.
pub open spec fn is_fragment_of(f: DataPacket, orig: DataPacket, fid: u16, i: nat, n: nat, eff: nat) -> bool {
    let body = fragment_prefix(fid, i as u16, n as u16) + fragment_slice(orig.payload@, eff, i);
    &&& f.header == header_new(
        orig.header.version_byte,
        PacketType::Data,
        SubType(0),
        PacketFlags(orig.header.flags.0 | 0x40),
        orig.header.session_id,
        orig.header.sequence_number,
        orig.header.ack_number,
        orig.header.timestamp,
        PayloadLength(body.len() as u16),
        orig.header.hmac_policy,
    )
    &&& f.window_size == orig.window_size
    &&& f.hmac.data@ == orig.hmac.data@
    &&& f.hmac.policy == orig.hmac.policy
    &&& f.fragment_header == Some(
        FragmentHeader {
            fragment_id: FragmentId(fid),
            fragment_index: FragmentIndex(i as u16),
            fragment_count: FragmentCount(n as u16),
            fragment_size: FragmentSize(body.len() as u16),
        },
    )
    &&& f.payload@ == body
}

// ---------------------------------------------------------------------------
// Reassembly
// ---------------------------------------------------------------------------

/// Why a DATA packet is no fragment, if it is not: no fragment flag, fewer
/// than 8 payload bytes, an index not below the count, or a zero count.
pub open spec fn extract_error(p: DataPacket) -> Option<Seq<char>> {
    let b = p.payload@;
    if p.header.flags.0 & 0x40 == 0 {
        Some("Packet is not fragmented"@)
    } else if b.len() < 8 {
        Some("Fragment header too small"@)
    } else if be_decode(b.subrange(2, 4)) >= be_decode(b.subrange(4, 6)) {
        Some("Invalid fragment index"@)
    } else if be_decode(b.subrange(4, 6)) == 0 {
        Some("Invalid total fragments"@)
    } else {
        None
    }
}

/// The fragmentation header fields and payload of a fragment.
pub open spec fn extracted(p: DataPacket, i: FragmentInfo) -> bool {
    let b = p.payload@;
    &&& i.session_id == p.header.session_id
    &&& i.fragment_id.0 == be_decode(b.subrange(0, 2))
    &&& i.fragment_index.0 == be_decode(b.subrange(2, 4))
    &&& i.fragment_count.0 == be_decode(b.subrange(4, 6))
    &&& i.payload@ == b.subrange(8, b.len() as int)
}

/// The number the reassembly of a session's fragment identifier is kept under.
pub open spec fn context_key(sid: SessionId, fid: FragmentId) -> u128 {
    key_code(overlap::ReassemblyKey { session_id: sid, fragment_id: fid })
}

/// The reassembly that a fragment joins: the one under way, or a new one
/// opened at `now` by a fragment with header `h`.
pub open spec fn context_for(
    c: Map<u128, ContextView>,
    sid: SessionId,
    fid: FragmentId,
    count: FragmentCount,
    h: PacketHeader,
    now: Timestamp,
) -> ContextView {
    let k = context_key(sid, fid);
    if c.contains_key(k) {
        c[k]
    } else {
        (sid, fid, count, Map::empty(), now, Some(h))
    }
}

/// Every index below `n` has arrived.
pub open spec fn all_present(frags: Map<u16, Seq<u8>>, n: nat) -> bool {
    forall|i: u16| (i as nat) < n ==> #[trigger] frags.contains_key(i)
}

/// The payloads of indices below `n`, in index order.
pub open spec fn reassembled(frags: Map<u16, Seq<u8>>, n: nat) -> Seq<u8>
    decreases n,
{
    if n == 0 {
        Seq::empty()
    } else {
        reassembled(frags, (n - 1) as nat) + frags[(n - 1) as u16]
    }
}

/// `p` is the packet put back together from `payload` under the header `h`
/// of the fragment that opened the reassembly: its version, session,
/// sequence and acknowledgment numbers and HMAC policy, no flags, the default
/// window, no fragmentation header and a zero tag; it is stamped when it is
/// put together.
pub open spec fn reassembled_packet(p: DataPacket, h: PacketHeader, payload: Seq<u8>) -> bool {
    &&& p.header == header_new(
        h.version_byte,
        PacketType::Data,
        SubType(0),
        PacketFlags(0),
        h.session_id,
        h.sequence_number,
        h.ack_number,
        p.header.timestamp,
        PayloadLength(payload.len() as u16),
        h.hmac_policy,
    )
    &&& p.window_size.0 == 65535
    &&& p.fragment_header is None
    &&& p.payload@ == payload
    &&& p.hmac.data@ == Seq::new(spec_tag_size(h.hmac_policy), |i: int| 0u8)
    &&& p.hmac.policy == h.hmac_policy
}

/// `r` and the reassemblies `c2` are what adding fragment `idx` of `count`,
/// with identifier `fid`, session `sid`, header `h` and `payload`, at `now`
/// to the reassemblies `c` gives. The count must match the reassembly's; an
/// index already received is refused; the fragment that completes the count
/// completes the packet, which leaves the reassemblies.
pub open spec fn reassembly_outcome(
    c: Map<u128, ContextView>,
    sid: SessionId,
    fid: FragmentId,
    idx: FragmentIndex,
    count: FragmentCount,
    payload: Seq<u8>,
    h: PacketHeader,
    now: Timestamp,
    r: Result<ReassemblyResult, ProtocolError>,
    c2: Map<u128, ContextView>,
) -> bool {
    let k = context_key(sid, fid);
    let ctx = context_for(c, sid, fid, count, h, now);
    if ctx.2 != count {
        &&& r matches Err(ProtocolError::FragmentationError(m)) && m@ == "Fragment total count mismatch"@
        &&& c2 == c.insert(k, ctx)
    } else if ctx.3.contains_key(idx.0) {
        &&& r matches Ok(ReassemblyResult::Rejected { reason }) && reason@ == "Duplicate fragment"@
        &&& c2 == c.insert(k, ctx)
    } else {
        let frags = ctx.3.insert(idx.0, payload);
        let ctx1 = (ctx.0, ctx.1, ctx.2, frags, now, ctx.5);
        if frags.len() == count.0 {
            if all_present(frags, count.0 as nat) {
                &&& r matches Ok(ReassemblyResult::Complete { packet, fragment_id, fragment_count })
                    && fragment_id == fid && fragment_count == count && reassembled_packet(
                    *packet,
                    ctx.5->Some_0,
                    reassembled(frags, count.0 as nat),
                )
                &&& c2 == c.remove(k)
            } else {
                &&& r matches Err(ProtocolError::FragmentationError(_))
                &&& c2 == c.insert(k, ctx1)
            }
        } else {
            &&& r == Ok::<ReassemblyResult, ProtocolError>(
                ReassemblyResult::InProgress {
                    fragment_id: fid,
                    received_fragments: ReceivedFragments(frags.len() as u16),
                    fragment_count: count,
                },
            )
            &&& c2 == c.insert(k, ctx1)
        }
    }
}

/// A reassembly last active at `last` is kept at `now`: less than the
/// timeout (in milliseconds) has passed (a time in the future counts as none).
pub open spec fn context_live(last: Timestamp, now: Timestamp, timeout_ms: u64) -> bool {
    (if now.0 >= last.0 { now.0 - last.0 } else { 0 }) < timeout_ms as int * 1_000_000
}

/// The reassemblies of `c` still kept at `now`.
pub open spec fn live_contexts(c: Map<u128, ContextView>, now: Timestamp, timeout_ms: u64) -> Map<u128, ContextView> {
    Map::new(|k: u128| c.contains_key(k) && context_live(c[k].4, now, timeout_ms), |k: u128| c[k])
}


/// A fragment below the count starts inside the payload.
proof fn lemma_slice_start(i: nat, total: nat, eff: nat)
    requires
        eff > 0,
        i < fragments_needed(total, eff),
    ensures
        i * eff < total,
{
    let q = fragments_needed(total, eff);
    let x = (total + eff - 1) as int;
    vstd::arithmetic::div_mod::lemma_fundamental_div_mod(x, eff as int);
    vstd::arithmetic::div_mod::lemma_mod_pos_bound(x, eff as int);
    assert(q == x / eff as int);
    vstd::arithmetic::mul::lemma_mul_is_commutative(q as int, eff as int);
    assert(q * eff <= total + eff - 1);
    assert(i + 1 <= q);
    vstd::arithmetic::mul::lemma_mul_inequality((i + 1) as int, q as int, eff as int);
    assert((i + 1) * eff == i * eff + eff) by (nonlinear_arith);
}

/// The session, fragment identifier, index, count and payload that a
/// fragment's header announces.
pub open spec fn info_fields(p: DataPacket) -> (SessionId, FragmentId, FragmentIndex, FragmentCount, Seq<u8>) {
    let b = p.payload@;
    (
        p.header.session_id,
        FragmentId(be_decode(b.subrange(0, 2)) as u16),
        FragmentIndex(be_decode(b.subrange(2, 4)) as u16),
        FragmentCount(be_decode(b.subrange(4, 6)) as u16),
        b.subrange(8, b.len() as int),
    )
}

/// The name of the limit a fragment exceeded.
pub open spec fn violation_text(t: ViolationType) -> Seq<char> {
    match t {
        ViolationType::SessionFragmentRate => "SessionFragmentRate"@,
        ViolationType::SourcePacketRate => "SourcePacketRate"@,
        ViolationType::SourceByteRate => "SourceByteRate"@,
    }
}

/// The name of the limit a fragment exceeded (see `violation_text`).
fn violation_name(t: ViolationType) -> (r: &'static str)
    ensures
        r@ == violation_text(t),
{
    proof {
        reveal_strlit("SessionFragmentRate");
        reveal_strlit("SourcePacketRate");
        reveal_strlit("SourceByteRate");
    }
    match t {
        ViolationType::SessionFragmentRate => "SessionFragmentRate",
        ViolationType::SourcePacketRate => "SourcePacketRate",
        ViolationType::SourceByteRate => "SourceByteRate",
    }
}

/// The message a protocol error carries.
fn protocol_error_text(e: &ProtocolError) -> (r: String)
    ensures
        r@ == protocol_text(*e),
{
    match e {
        ProtocolError::InvalidFormat(m) => m.clone(),
        ProtocolError::FragmentationError(m) => m.clone(),
        ProtocolError::InvalidState(m) => m.clone(),
    }
}

/// A copy of a DATA packet.
fn copy_data_packet(p: &DataPacket) -> (r: DataPacket)
    ensures
        r.header == p.header,
        r.hmac.data@ == p.hmac.data@,
        r.hmac.policy == p.hmac.policy,
        r.window_size == p.window_size,
        r.fragment_header == p.fragment_header,
        r.payload@ == p.payload@,
{
    DataPacket {
        header: p.header,
        hmac: HmacTag { data: read_bytes(p.hmac.data.as_slice(), 0, p.hmac.data.len()), policy: p.hmac.policy },
        window_size: p.window_size,
        fragment_header: p.fragment_header,
        payload: read_bytes(p.payload.as_slice(), 0, p.payload.len()),
    }
}

/// The check the rate limiter makes of the fragment of `request` at `now`:
/// its session and fragment identifier, its source, and its payload size
/// (at most the largest packet size).
pub open spec fn rate_request_of(request: ReassemblyRequest, now: Timestamp) -> RateLimitRequest {
    let f = info_fields(request.fragment);
    let len = request.fragment.payload@.len();
    RateLimitRequest {
        session_id: f.0,
        source_ip: IpAddress(ipv4_mapped(request.source_ip)),
        fragment_size: PacketSize(if len > 0xFFFF { 0xFFFF } else { len as u16 }),
        fragment_id: f.1,
        timestamp: now,
    }
}

/// The reassembly the overlap detector files the fragment of `request` under.
pub open spec fn overlap_key_of(request: ReassemblyRequest) -> overlap::ReassemblyKey {
    let f = info_fields(request.fragment);
    overlap::ReassemblyKey { session_id: f.0, fragment_id: f.1 }
}

/// The fragment the overlap detector is shown for `request`.
pub open spec fn overlap_info_of(request: ReassemblyRequest) -> overlap::FragmentInfo {
    let f = info_fields(request.fragment);
    overlap::FragmentInfo {
        session_id: f.0,
        fragment_id: f.1,
        fragment_index: f.2,
        fragment_count: f.3,
        payload_size: FragmentSize(f.4.len() as u16),
    }
}

/// `r` refuses the fragment with the reason `m`, and the reassemblies of `s1`
/// are those of `s`.
pub open spec fn refused_with(
    s: FragmentationEngine,
    s1: FragmentationEngine,
    r: Result<ReassemblyResult, ProtocolError>,
    m: Seq<char>,
) -> bool {
    &&& r matches Ok(ReassemblyResult::Rejected { reason }) && reason@ == m
    &&& s1.contexts() == s.contexts()
}

/// `r` and the engine `s1` after the engine `s` checked the fragment of
/// `request`, whose header reads well, at `now`; `rv`, `rs` and `ro` are
/// what the rate limiter, the security checks and the overlap detector
/// answered (a check that is off passes). The checks run in that order, the
/// first that refuses gives the answer and the later ones are not made; a
/// fragment that passes all of them joins its reassembly.
pub open spec fn checked_fragment(
    s: FragmentationEngine,
    s1: FragmentationEngine,
    request: ReassemblyRequest,
    now: Timestamp,
    r: Result<ReassemblyResult, ProtocolError>,
    rv: Option<RateLimitViolation>,
    rs: Result<SecurityValidationResult, ProtocolError>,
    ro: Result<OverlapResult, FragmentationError>,
) -> bool {
    let cfg = s.spec_config();
    let f = info_fields(request.fragment);
    &&& if cfg.enable_rate_limiting {
        rate_check_outcome(s.limiter(), s1.limiter(), rate_request_of(request, now), now, rv)
    } else {
        s1.limiter() == s.limiter() && rv is None
    }
    &&& match rv {
        Some(v) => {
            &&& refused_with(s, s1, r, "Rate limit exceeded: "@ + violation_text(v.violation_type))
            &&& s1.security() == s.security()
            &&& s1.overlap() == s.overlap()
        },
        None => {
            &&& if cfg.enable_security_validation {
                validation_outcome(s.security(), s1.security(), Packet::Data(request.fragment), now, rs)
            } else {
                s1.security() == s.security() && rs is Ok
            }
            &&& match rs {
                Err(e) => {
                    &&& refused_with(s, s1, r, "Security validation failed: "@ + protocol_text(e))
                    &&& s1.overlap() == s.overlap()
                },
                Ok(_) => {
                    &&& if cfg.enable_overlap_detection {
                        overlap_outcome(s.overlap(), s1.overlap(), overlap_key_of(request), overlap_info_of(request), now, ro)
                    } else {
                        s1.overlap() == s.overlap() && ro is Ok
                    }
                    &&& match ro {
                        Err(e) => refused_with(s, s1, r, "Overlap detected: "@ + fragmentation_text(e)),
                        Ok(_) => reassembly_outcome(
                            s.contexts(),
                            f.0,
                            f.1,
                            f.2,
                            f.3,
                            f.4,
                            request.fragment.header,
                            now,
                            r,
                            s1.contexts(),
                        ),
                    }
                },
            }
        },
    }
}

/// `r` and the engine `s1` after the swept engine `s` handled the fragment of
/// `request` at `now`: a fragment whose header does not read is refused with
/// the engine unchanged; any other is checked (see `checked_fragment`). The
/// fragment store, the configuration and the issued identifiers stay.
pub open spec fn handled_fragment(
    s: FragmentationEngine,
    s1: FragmentationEngine,
    request: ReassemblyRequest,
    now: Timestamp,
    r: Result<ReassemblyResult, ProtocolError>,
) -> bool {
    &&& s1.wf()
    &&& s1.spec_config() == s.spec_config()
    &&& s1.next_id() == s.next_id()
    &&& s1.recent_ids() == s.recent_ids()
    &&& s1.memory() == s.memory()
    &&& match extract_error(request.fragment) {
        Some(m) => (r matches Err(ProtocolError::FragmentationError(e)) && e@ == m) && s1 == s,
        None => exists|rv: Option<RateLimitViolation>, rs: Result<SecurityValidationResult, ProtocolError>, ro: Result<OverlapResult, FragmentationError>|
            #[trigger] checked_fragment(s, s1, request, now, r, rv, rs, ro),
    }
}

/// `r` and the engine `s1` are what handling the received fragment of
/// `request` at `now` gives from the engine `s0`: stale state is swept first
/// (see `state_swept`), then the fragment is handled (see `handled_fragment`).
pub open spec fn fragment_outcome(
    s0: FragmentationEngine,
    s1: FragmentationEngine,
    request: ReassemblyRequest,
    now: Timestamp,
    r: Result<ReassemblyResult, ProtocolError>,
) -> bool {
    exists|s: FragmentationEngine| #[trigger] state_swept(s0, s, now) && handled_fragment(s, s1, request, now, r)
}

/// Splits packets into fragments and reassembles received ones.
pub struct FragmentationEngine {
    security_engine: FragmentSecurityEngine,
    memory_manager: FragmentMemoryManager,
    overlap_detector: OverlapDetector,
    rate_limiter: FragmentRateLimiter,
    reassembly_contexts: HashMap<u128, ReassemblyContext>,
    recent_fragment_ids: Vec<FragmentId>,
    next_fragment_id: u16,
    config: FragmentationConfig,
}

/// The engine `s1` after `s0` dropped, at `now`, the reassemblies idle for
/// the reassembly timeout; nothing else changes.
pub open spec fn contexts_swept(s0: FragmentationEngine, s1: FragmentationEngine, now: Timestamp) -> bool {
    &&& s1.wf()
    &&& s1.spec_config() == s0.spec_config()
    &&& s1.next_id() == s0.next_id()
    &&& s1.recent_ids() == s0.recent_ids()
    &&& s1.contexts() =~= live_contexts(s0.contexts(), now, s0.spec_config().reassembly_timeout.0)
    &&& s1.security() == s0.security()
    &&& s1.memory() == s0.memory()
    &&& s1.overlap() == s0.overlap()
    &&& s1.limiter() == s0.limiter()
}

/// The engine `s1` after `s0` swept, at `now`, the idle reassemblies, the
/// expired stored fragments, and, where those checks are on, the security
/// states, overlap contexts and rate limiters.
pub open spec fn state_swept(s0: FragmentationEngine, s1: FragmentationEngine, now: Timestamp) -> bool {
    let c = s0.spec_config();
    &&& s1.wf()
    &&& c == s1.spec_config()
    &&& s1.next_id() == s0.next_id()
    &&& s1.recent_ids() == s0.recent_ids()
    &&& s1.contexts() =~= live_contexts(s0.contexts(), now, c.reassembly_timeout.0)
    &&& if c.enable_security_validation {
        states_cleanup_outcome(s0.security(), s1.security(), now)
    } else {
        s1.security() == s0.security()
    }
    &&& fragments_cleanup_outcome(s0.memory(), s1.memory(), now)
    &&& if c.enable_overlap_detection {
        contexts_cleanup_outcome(s0.overlap(), s1.overlap(), now)
    } else {
        s1.overlap() == s0.overlap()
    }
    &&& if c.enable_rate_limiting {
        limiters_cleanup_outcome(s0.limiter(), s1.limiter(), now)
    } else {
        s1.limiter() == s0.limiter()
    }
}

impl FragmentationEngine {
    pub closed spec fn spec_config(&self) -> FragmentationConfig {
        self.config
    }

    /// The security checks of the engine.
    pub closed spec fn security(&self) -> FragmentSecurityEngine {
        self.security_engine
    }

    /// The fragment store of the engine.
    pub closed spec fn memory(&self) -> FragmentMemoryManager {
        self.memory_manager
    }

    /// The overlap detector of the engine.
    pub closed spec fn overlap(&self) -> OverlapDetector {
        self.overlap_detector
    }

    /// The rate limiter of the engine.
    pub closed spec fn limiter(&self) -> FragmentRateLimiter {
        self.rate_limiter
    }

    /// The reassemblies under way, by the number of their session and fragment identifier.
    pub closed spec fn contexts(&self) -> Map<u128, ContextView> {
        self.reassembly_contexts@.map_values(|c: ReassemblyContext| context_view(c))
    }

    /// The fragment identifier the next packet split gets.
    pub closed spec fn next_id(&self) -> u16 {
        self.next_fragment_id
    }

    /// The fragment identifiers issued lately, oldest first.
    pub closed spec fn recent_ids(&self) -> Seq<FragmentId> {
        self.recent_fragment_ids@
    }

    /// The checks are in order, every reassembly knows the header that opened
    /// it, and few enough identifiers are remembered.
    pub closed spec fn wf(&self) -> bool {
        &&& self.overlap_detector.wf()
        &&& self.rate_limiter.wf()
        &&& self.memory_manager.wf()
        &&& self.security_engine.spec_policies().fragment_timeout_sec <= u64::MAX / 2
        &&& self.security_engine.wf()
        &&& forall|k: u128| #[trigger] self.reassembly_contexts@.contains_key(k)
            ==> self.reassembly_contexts@[k].original_header is Some
        &&& self.recent_fragment_ids@.len() <= FRAGMENT_DUPLICATE_WINDOW
    }

    pub fn new() -> (r: FragmentationEngine)
        ensures
            r.wf(),
            r.contexts().is_empty(),
            r.spec_config().max_fragment_size.0 == 1400,
            r.spec_config().max_fragments_per_packet.0 == 255,
            r.spec_config().reassembly_timeout.0 == 5000,
            r.spec_config().max_reassembly_contexts == 1000,
    {
        Self::with_config(FragmentationConfig::default())
    }

    /// An engine with `config`, no reassembly under way, and fragment
    /// identifiers issued from 1.
    pub fn with_config(config: FragmentationConfig) -> (r: FragmentationEngine)
        ensures
            r.wf(),
            r.spec_config() == config,
            r.contexts().is_empty(),
            r.next_id() == 1,
            r.recent_ids().len() == 0,
    {
        let r = FragmentationEngine {
            security_engine: FragmentSecurityEngine::with_policies(
                crate::fragmentation::security::FragmentSecurityPolicies::default(),
            ),
            memory_manager: FragmentMemoryManager::new(),
            overlap_detector: OverlapDetector::new(),
            rate_limiter: FragmentRateLimiter::new(),
            reassembly_contexts: HashMap::new(),
            recent_fragment_ids: Vec::new(),
            next_fragment_id: 1,
            config,
        };
        assert(r.contexts() =~= Map::<u128, ContextView>::empty());
        r
    }

    /// Issues the next fragment identifier (wrapping around) and remembers it,
    /// forgetting the oldest one when the window is full.
    fn generate_fragment_id(&mut self) -> (r: FragmentId)
        requires
            old(self).wf(),
        ensures
            final(self).wf(),
            r.0 == old(self).next_id(),
            final(self).next_id() == vstd::wrapping::u16_specs::wrapping_add(old(self).next_id(), 1),
            final(self).recent_ids() == (if old(self).recent_ids().len() >= FRAGMENT_DUPLICATE_WINDOW {
                old(self).recent_ids().drop_first()
            } else {
                old(self).recent_ids()
            }).push(r),
            final(self).contexts() == old(self).contexts(),
            final(self).spec_config() == old(self).spec_config(),
    {
        let fragment_id = FragmentId::new(self.next_fragment_id);
        self.next_fragment_id = self.next_fragment_id.wrapping_add(1);
        if self.recent_fragment_ids.len() >= FRAGMENT_DUPLICATE_WINDOW {
            let ghost before = self.recent_fragment_ids@;
            self.recent_fragment_ids.remove(0);
            assert(self.recent_fragment_ids@ =~= before.drop_first());
        }
        self.recent_fragment_ids.push(fragment_id);
        fragment_id
    }

    /// Fragment `fragment_index` of `fragment_count`: the original's header
    /// fields with the fragment flag set, its window and tag, and a payload of
    /// the fragmentation header and `fragment_payload`.
    fn create_fragment_packet(
        &self,
        original: &DataPacket,
        fragment_id: FragmentId,
        fragment_index: FragmentIndex,
        fragment_count: FragmentCount,
        fragment_payload: &[u8],
    ) -> (r: Result<DataPacket, ProtocolError>)
        ensures
            ({
                let body = fragment_prefix(fragment_id.0, fragment_index.0, fragment_count.0) + fragment_payload@;
                r matches Ok(f) && f.header == header_new(
                    original.header.version_byte,
                    PacketType::Data,
                    SubType(0),
                    PacketFlags(original.header.flags.0 | 0x40),
                    original.header.session_id,
                    original.header.sequence_number,
                    original.header.ack_number,
                    original.header.timestamp,
                    PayloadLength(body.len() as u16),
                    original.header.hmac_policy,
                ) && f.window_size == original.window_size && f.hmac.data@ == original.hmac.data@
                    && f.hmac.policy == original.hmac.policy && f.fragment_header == Some(
                    FragmentHeader {
                        fragment_id,
                        fragment_index,
                        fragment_count,
                        fragment_size: FragmentSize(body.len() as u16),
                    },
                ) && f.payload@ == body
            }),
    {
        let mut flags = original.header.flags();
        flags.set(PacketFlags::FRAGMENT);
        let mut combined_payload: Vec<u8> = Vec::new();
        push_be(&mut combined_payload, fragment_id.as_u16() as u64, 2);
        push_be(&mut combined_payload, fragment_index.as_u16() as u64, 2);
        push_be(&mut combined_payload, fragment_count.as_u16() as u64, 2);
        push_be(&mut combined_payload, 0, 2);
        push_slice(&mut combined_payload, fragment_payload);
        let combined_len = combined_payload.len();
        let hmac = HmacTag {
            data: read_bytes(original.hmac.data.as_slice(), 0, original.hmac.data.len()),
            policy: original.hmac.policy,
        };
        let packet_builder = PacketBuilderEngine::with_defaults(original.header.version_byte(), original.header.hmac_policy());
        let built = packet_builder.data().session_id(original.header.session_id()).sequence_number(
            original.header.sequence_number(),
        ).ack_number(original.header.ack_number()).window_size(original.window_size).flags(flags).timestamp(
            original.header.timestamp(),
        ).hmac(hmac).fragment_header(
            FragmentHeader {
                fragment_id,
                fragment_index,
                fragment_count,
                fragment_size: FragmentSize::new(combined_len as u16),
            },
        ).payload(combined_payload).build();
        match built {
            Ok(p) => Ok(p),
            Err(_) => Err(ProtocolError::FragmentationError("Fragment packet builder failed".to_owned())),
        }
    }

    /// Splits a DATA packet into fragments of at most the size asked for (the
    /// configured one otherwise), each starting with an 8-byte fragmentation
    /// header. An identifier is issued unless the payload is empty; the split
    /// is refused when no payload byte fits after the header and when more
    /// fragments would be needed than the configuration allows.
    pub fn fragment_packet(&mut self, request: FragmentationRequest) -> (r: Result<FragmentationResult, ProtocolError>)
        requires
            old(self).wf(),
        ensures
            final(self).wf(),
            final(self).contexts() == old(self).contexts(),
            final(self).spec_config() == old(self).spec_config(),
            ({
                let len = request.packet.payload@.len();
                let mfs = match request.max_fragment_size {
                    Some(m) => m as nat,
                    None => old(self).spec_config().max_fragment_size.0 as nat,
                };
                let eff = if mfs >= 8 { (mfs - 8) as nat } else { 0nat };
                let n = fragments_needed(len, eff);
                let fid = old(self).next_id();
                if len == 0 {
                    &&& r matches Err(ProtocolError::FragmentationError(m)) && m@ == "Cannot fragment empty packet"@
                    &&& final(self).next_id() == old(self).next_id()
                } else {
                    &&& final(self).next_id() == vstd::wrapping::u16_specs::wrapping_add(fid, 1)
                    &&& eff == 0 ==> (r matches Err(ProtocolError::FragmentationError(m)) && m@
                        == "Fragment size too small for header"@)
                    &&& eff > 0 && n > old(self).spec_config().max_fragments_per_packet.0 ==> (r matches Err(
                        ProtocolError::FragmentationError(m),
                    ) && m@ == "Too many fragments needed: "@ + decimal(n))
                    &&& eff > 0 && n <= old(self).spec_config().max_fragments_per_packet.0 ==> (r matches Ok(res)
                        && res.fragment_id.0 == fid && res.fragment_count.0 == n && res.fragments@.len() == n
                        && forall|i: int|
                        0 <= i < n ==> is_fragment_of(#[trigger] res.fragments@[i], request.packet, fid, i as nat, n, eff))
                }
            }),
    {
        if request.packet.payload.len() == 0 {
            proof {
                reveal_strlit("Cannot fragment empty packet");
            }
            return Err(ProtocolError::FragmentationError("Cannot fragment empty packet".to_owned()));
        }
        let max_fragment_size: usize = match request.max_fragment_size {
            Some(m) => m,
            None => self.config.max_fragment_size.as_usize(),
        };
        let fragment_id = self.generate_fragment_id();
        let effective_fragment_size: usize = if max_fragment_size >= FRAGMENT_HEADER_SIZE {
            max_fragment_size - FRAGMENT_HEADER_SIZE
        } else {
            0
        };
        if effective_fragment_size == 0 {
            proof {
                reveal_strlit("Fragment size too small for header");
            }
            return Err(ProtocolError::FragmentationError("Fragment size too small for header".to_owned()));
        }
        let payload = &request.packet.payload;
        let total_size = payload.len() as u64;
        let eff = effective_fragment_size as u64;
        let whole = total_size / eff;
        let rest = total_size % eff;
        proof {
            lemma_fragments_needed_quotient(total_size as nat, eff as nat);
            vstd::arithmetic::div_mod::lemma_fundamental_div_mod(total_size as int, eff as int);
            if rest > 0 {
                assert(whole < u64::MAX) by (nonlinear_arith)
                    requires
                        eff >= 2,
                        eff * whole + rest == total_size,
                        total_size <= u64::MAX,
                        rest > 0,
                ;
            }
        }
        let fragments_needed_count: u64 = if rest > 0 { whole + 1 } else { whole };
        if fragments_needed_count > self.config.max_fragments_per_packet.as_u16() as u64 {
            proof {
                reveal_strlit("Too many fragments needed: ");
            }
            return Err(ProtocolError::FragmentationError(with_decimal("Too many fragments needed: ", fragments_needed_count)));
        }
        let total_fragments = FragmentCount::new(fragments_needed_count as u16);
        let mut fragments: Vec<DataPacket> = Vec::new();
        let mut i: u64 = 0;
        while i < fragments_needed_count
            invariant
                total_size == request.packet.payload@.len(),
                0 < eff,
                total_size <= usize::MAX,
                fragments_needed_count == fragments_needed(total_size as nat, eff as nat),
                fragments_needed_count <= 0xFFFF,
                total_fragments.0 == fragments_needed_count,
                i <= fragments_needed_count,
                fragments@.len() == i,
                forall|j: int|
                    0 <= j < i ==> is_fragment_of(
                        #[trigger] fragments@[j],
                        request.packet,
                        fragment_id.0,
                        j as nat,
                        fragments_needed_count as nat,
                        eff as nat,
                    ),
            decreases fragments_needed_count - i,
        {
            proof {
                lemma_slice_start(i as nat, total_size as nat, eff as nat);
            }
            let start_offset = i * eff;
            let end_offset = if eff < total_size - start_offset { start_offset + eff } else { total_size };
            let fragment_payload = read_bytes(
                request.packet.payload.as_slice(),
                start_offset as usize,
                (end_offset - start_offset) as usize,
            );
            let fragment = match self.create_fragment_packet(
                &request.packet,
                fragment_id,
                FragmentIndex::new(i as u16),
                total_fragments,
                fragment_payload.as_slice(),
            ) {
                Ok(f) => f,
                Err(e) => return Err(e),
            };
            fragments.push(fragment);
            i = i + 1;
        }
        Ok(FragmentationResult { fragments, fragment_id, fragment_count: total_fragments })
    }

    /// Reads the fragmentation header of a DATA packet: it needs the fragment
    /// flag, 8 header bytes, an index below the count and a count above zero.
    fn extract_fragment_info(&self, packet: &DataPacket) -> (r: Result<FragmentInfo, ProtocolError>)
        ensures
            match extract_error(*packet) {
                Some(m) => r matches Err(ProtocolError::FragmentationError(e)) && e@ == m,
                None => r matches Ok(i) && extracted(*packet, i),
            },
    {
        if !packet.header.flags().is_frag() {
            proof {
                reveal_strlit("Packet is not fragmented");
            }
            return Err(ProtocolError::FragmentationError("Packet is not fragmented".to_owned()));
        }
        let payload = &packet.payload;
        if payload.len() < 8 {
            proof {
                reveal_strlit("Fragment header too small");
            }
            return Err(ProtocolError::FragmentationError("Fragment header too small".to_owned()));
        }
        proof {
            crate::codec::lemma_pow256_values();
            crate::codec::lemma_be_decode_bound(payload@.subrange(0, 2));
            crate::codec::lemma_be_decode_bound(payload@.subrange(2, 4));
            crate::codec::lemma_be_decode_bound(payload@.subrange(4, 6));
        }
        let fragment_id = FragmentId::new(read_be(payload.as_slice(), 0, 2) as u16);
        let fragment_index = FragmentIndex::new(read_be(payload.as_slice(), 2, 2) as u16);
        let total_fragments = FragmentCount::new(read_be(payload.as_slice(), 4, 2) as u16);
        if fragment_index.as_u16() >= total_fragments.as_u16() {
            proof {
                reveal_strlit("Invalid fragment index");
            }
            return Err(ProtocolError::FragmentationError("Invalid fragment index".to_owned()));
        }
        if total_fragments.as_u16() == 0 {
            proof {
                reveal_strlit("Invalid total fragments");
            }
            return Err(ProtocolError::FragmentationError("Invalid total fragments".to_owned()));
        }
        Ok(FragmentInfo {
            session_id: packet.header.session_id(),
            fragment_id,
            fragment_index,
            fragment_count: total_fragments,
            payload: read_bytes(payload.as_slice(), 8, payload.len() - 8),
        })
    }

    /// Puts the payloads of a reassembly together in index order under the
    /// header that opened it; refused when an index below the count is missing.
    fn reassemble_packet(&self, context: &ReassemblyContext) -> (r: Result<DataPacket, ProtocolError>)
        requires
            context.original_header is Some,
        ensures
            ({
                let v = context_view(*context);
                let n = context.fragment_count.0 as nat;
                &&& all_present(v.3, n) ==> (r matches Ok(p) && reassembled_packet(
                    p,
                    context.original_header->Some_0,
                    reassembled(v.3, n),
                ))
                &&& !all_present(v.3, n) ==> (r matches Err(ProtocolError::FragmentationError(_)))
            }),
    {
        let ghost v = context_view(*context);
        let count = context.fragment_count.as_u16();
        let mut reassembled_payload: Vec<u8> = Vec::new();
        let mut i: u16 = 0;
        while i < count
            invariant
                v == context_view(*context),
                count == context.fragment_count.0,
                i <= count,
                reassembled_payload@ == reassembled(v.3, i as nat),
                forall|j: u16| j < i ==> #[trigger] v.3.contains_key(j),
            decreases count - i,
        {
            match context.fragments.get(&i) {
                Some(fragment) => {
                    push_slice(&mut reassembled_payload, fragment.payload.as_slice());
                    proof {
                        assert(v.3.contains_key(i));
                        assert(((i + 1) as nat - 1) as u16 == i);
                    }
                },
                None => {
                    proof {
                        reveal_strlit("Missing fragment ");
                        assert(!v.3.contains_key(i));
                    }
                    return Err(ProtocolError::FragmentationError(with_decimal("Missing fragment ", i as u64)));
                },
            }
            i = i + 1;
        }
        let original_header = match context.original_header {
            Some(h) => h,
            None => return Err(ProtocolError::FragmentationError("Missing original header".to_owned())),
        };
        let engine = PacketBuilderEngine::with_defaults(original_header.version_byte(), original_header.hmac_policy());
        let built = engine.data().session_id(original_header.session_id()).sequence_number(
            original_header.sequence_number(),
        ).ack_number(original_header.ack_number()).payload(reassembled_payload).build();
        match built {
            Ok(p) => Ok(p),
            Err(_) => Err(ProtocolError::FragmentationError("Reassembled packet builder failed".to_owned())),
        }
    }

    /// Adds a fragment, read at `now`, to its reassembly as `reassembly_outcome` says.
    fn process_fragment_for_reassembly(&mut self, header: PacketHeader, fragment_info: FragmentInfo, now: Timestamp) -> (r: Result<ReassemblyResult, ProtocolError>)
        requires
            old(self).wf(),
        ensures
            final(self).wf(),
            final(self).spec_config() == old(self).spec_config(),
            final(self).next_id() == old(self).next_id(),
            final(self).recent_ids() == old(self).recent_ids(),
            final(self).security() == old(self).security(),
            final(self).memory() == old(self).memory(),
            final(self).overlap() == old(self).overlap(),
            final(self).limiter() == old(self).limiter(),
            reassembly_outcome(
                old(self).contexts(),
                fragment_info.session_id,
                fragment_info.fragment_id,
                fragment_info.fragment_index,
                fragment_info.fragment_count,
                fragment_info.payload@,
                header,
                now,
                r,
                final(self).contexts(),
            ),
    {
        let k: u128 = fragment_info.session_id.as_u64() as u128 * 65536 + fragment_info.fragment_id.as_u16() as u128;
        let ghost c = old(self).contexts();
        let ghost ctx = context_for(c, fragment_info.session_id, fragment_info.fragment_id, fragment_info.fragment_count, header, now);
        proof {
            assert(k == context_key(fragment_info.session_id, fragment_info.fragment_id));
        }
        let existing = self.reassembly_contexts.remove(&k);
        let is_new_context = existing.is_none();
        let mut context = match existing {
            Some(ctx) => ctx,
            None => ReassemblyContext {
                session_id: fragment_info.session_id,
                fragment_id: fragment_info.fragment_id,
                fragment_count: fragment_info.fragment_count,
                fragments: HashMap::new(),
                expected_size: None,
                created_at: now,
                last_activity: now,
                original_header: None,
            },
        };
        if is_new_context && context.original_header.is_none() {
            context.original_header = Some(header);
        }
        proof {
            if is_new_context {
                assert(context.fragments@.map_values(|f: FragmentData| f.payload@) =~= Map::<u16, Seq<u8>>::empty());
            } else {
                assert(c[k] == context_view(context));
            }
            assert(context_view(context) == ctx);
        }
        if context.fragment_count.as_u16() != fragment_info.fragment_count.as_u16() {
            self.reassembly_contexts.insert(k, context);
            proof {
                assert(self.contexts() =~= c.insert(k, ctx));
                reveal_strlit("Fragment total count mismatch");
            }
            return Err(ProtocolError::FragmentationError("Fragment total count mismatch".to_owned()));
        }
        let index = fragment_info.fragment_index.as_u16();
        if context.fragments.contains_key(&index) {
            self.reassembly_contexts.insert(k, context);
            proof {
                assert(self.contexts() =~= c.insert(k, ctx));
                reveal_strlit("Duplicate fragment");
            }
            return Ok(ReassemblyResult::Rejected { reason: "Duplicate fragment".to_owned() });
        }
        let ghost payload = fragment_info.payload@;
        context.fragments.insert(
            index,
            FragmentData {
                index: fragment_info.fragment_index,
                payload: fragment_info.payload,
                timestamp: now,
                security_validated: true,
            },
        );
        context.last_activity = now;
        let ghost frags = ctx.3.insert(index, payload);
        proof {
            assert(context.fragments@.map_values(|f: FragmentData| f.payload@) =~= frags);
            assert(context.fragments@.dom() =~= frags.dom());
            assert(context.fragments@.len() == frags.len());
        }
        if context.fragments.len() == context.fragment_count.as_u16() as usize {
            match self.reassemble_packet(&context) {
                Ok(packet) => {
                    proof {
                        assert(self.contexts() =~= c.remove(k));
                    }
                    Ok(ReassemblyResult::Complete {
                        packet: Box::new(packet),
                        fragment_id: fragment_info.fragment_id,
                        fragment_count: fragment_info.fragment_count,
                    })
                },
                Err(e) => {
                    self.reassembly_contexts.insert(k, context);
                    proof {
                        assert(self.contexts() =~= c.insert(k, (ctx.0, ctx.1, ctx.2, frags, now, ctx.5)));
                    }
                    Err(e)
                },
            }
        } else {
            let received = ReceivedFragments::new(context.fragments.len() as u16);
            self.reassembly_contexts.insert(k, context);
            proof {
                assert(self.contexts() =~= c.insert(k, (ctx.0, ctx.1, ctx.2, frags, now, ctx.5)));
            }
            Ok(ReassemblyResult::InProgress {
                fragment_id: fragment_info.fragment_id,
                received_fragments: received,
                fragment_count: fragment_info.fragment_count,
            })
        }
    }

    /// Drops, at `now`, the reassemblies idle for the reassembly timeout or longer.
    pub fn cleanup_expired_contexts_at(&mut self, now: Timestamp)
        requires
            old(self).wf(),
        ensures
            contexts_swept(*old(self), *final(self), now),
    {
        let timeout = self.config.reassembly_timeout.as_u64();
        let ghost m = self.reassembly_contexts@;
        let ghost cv = self.contexts();
        let mut expired: Vec<u128> = Vec::new();
        for (k, v) in it: self.reassembly_contexts.iter()
            invariant
                m == self.reassembly_contexts@,
                timeout == self.config.reassembly_timeout.0,
                it.seq() == spec_hash_map_iter(&self.reassembly_contexts).remaining(),
                forall|j: int| 0 <= j < expired@.len() ==> m.contains_key(#[trigger] expired@[j])
                    && !context_live(m[expired@[j]].last_activity, now, timeout),
                forall|j: int| 0 <= j < it.index() && !context_live((*it.seq()[j].1).last_activity, now, timeout)
                    ==> expired@.contains(*it.seq()[j].0),
        {
            let ghost idx = it.index();
            let ghost prev = expired@;
            proof {
                let s = spec_hash_map_iter(&self.reassembly_contexts).remaining();
                assert(m.contains_key(*s[idx].0) && m[*s[idx].0] == *s[idx].1);
            }
            let elapsed: u64 = if now.0 >= v.last_activity.0 { now.0 - v.last_activity.0 } else { 0 };
            if !((elapsed as u128) < (timeout as u128) * 1_000_000) {
                expired.push(*k);
            }
            proof {
                assert forall|j: int| 0 <= j < idx + 1 && !context_live((*it.seq()[j].1).last_activity, now, timeout)
                    implies expired@.contains(*it.seq()[j].0) by {
                    if j < idx {
                        assert(prev.contains(*it.seq()[j].0));
                        let w = choose|w: int| 0 <= w < prev.len() && prev[w] == *it.seq()[j].0;
                        assert(expired@[w] == *it.seq()[j].0);
                    } else {
                        assert(expired@[expired@.len() - 1] == *it.seq()[j].0);
                    }
                }
            }
        }
        proof {
            let s = spec_hash_map_iter(&self.reassembly_contexts).remaining();
            assert forall|key: u128| #[trigger] m.contains_key(key) && !context_live(m[key].last_activity, now, timeout)
                implies expired@.contains(key) by {
                assert(s.contains((&key, &m[key])));
                let j = choose|j: int| 0 <= j < s.len() && s[j] == (&key, &m[key]);
                assert(*s[j].0 == key);
            }
        }
        let n = expired.len();
        let mut i: usize = 0;
        while i < n
            invariant
                i <= n,
                n == expired@.len(),
                self.config == old(self).config,
                self.next_fragment_id == old(self).next_fragment_id,
                self.recent_fragment_ids@ == old(self).recent_fragment_ids@,
                self.overlap_detector == old(self).overlap_detector,
                self.rate_limiter == old(self).rate_limiter,
                self.memory_manager == old(self).memory_manager,
                self.security_engine == old(self).security_engine,
                m == old(self).reassembly_contexts@,
                forall|j: int| 0 <= j < expired@.len() ==> m.contains_key(#[trigger] expired@[j])
                    && !context_live(m[expired@[j]].last_activity, now, timeout),
                forall|key: u128| #[trigger] self.reassembly_contexts@.contains_key(key) <==> m.contains_key(key)
                    && !exists|w: int| 0 <= w < i && #[trigger] expired@[w] == key,
                forall|key: u128| #[trigger] self.reassembly_contexts@.contains_key(key) ==> self.reassembly_contexts@[key] == m[key],
            decreases n - i,
        {
            let key = expired[i];
            self.reassembly_contexts.remove(&key);
            proof {
                assert forall|k2: u128| #[trigger] self.reassembly_contexts@.contains_key(k2) <==> m.contains_key(k2)
                    && !exists|w: int| 0 <= w < i + 1 && #[trigger] expired@[w] == k2 by {
                    if exists|w: int| 0 <= w < i + 1 && #[trigger] expired@[w] == k2 {
                        let w = choose|w: int| 0 <= w < i + 1 && #[trigger] expired@[w] == k2;
                        if w == i {
                            assert(k2 == key);
                        }
                    }
                }
            }
            i = i + 1;
        }
        proof {
            assert forall|key: u128| #[trigger] self.reassembly_contexts@.contains_key(key) <==> m.contains_key(key)
                && context_live(m[key].last_activity, now, timeout) by {
                if m.contains_key(key) && !context_live(m[key].last_activity, now, timeout) {
                    assert(expired@.contains(key));
                }
            }
            assert(self.contexts() =~= live_contexts(cv, now, timeout));
        }
    }

    /// Drops the idle reassemblies at the current time.
    pub fn cleanup_expired_contexts(&mut self)
        requires
            old(self).wf(),
        ensures
            final(self).wf(),
            exists|now: Timestamp| contexts_swept(*old(self), *final(self), now),
    {
        let now = Timestamp::now();
        self.cleanup_expired_contexts_at(now);
    }

    /// Sweeps, at `now`, the idle reassemblies, the expired stored fragments,
    /// and, where those checks are on, the security states, overlap contexts
    /// and rate limiters.
    pub fn cleanup_stale_fragment_state_at(&mut self, now: Timestamp)
        requires
            old(self).wf(),
        ensures
            state_swept(*old(self), *final(self), now),
    {
        self.cleanup_expired_contexts_at(now);
        if self.config.enable_security_validation {
            self.security_engine.cleanup_expired_states_at(now);
        }
        self.memory_manager.cleanup_expired_fragments_at(now);
        if self.config.enable_overlap_detection {
            self.overlap_detector.cleanup_expired_contexts_at(now);
        }
        if self.config.enable_rate_limiting {
            self.rate_limiter.cleanup_expired_limiters_at(now);
        }
    }

    /// The same sweep at the current time.
    pub fn cleanup_stale_fragment_state(&mut self)
        requires
            old(self).wf(),
        ensures
            final(self).wf(),
            exists|now: Timestamp| state_swept(*old(self), *final(self), now),
    {
        let now = Timestamp::now();
        self.cleanup_stale_fragment_state_at(now);
    }

    /// Handles a fragment received at `now`. Stale state is swept first; the
    /// fragment's header is read; then, where those checks are on, a rate
    /// limit exceeded, an error of the security checks (a verdict of theirs
    /// does not refuse) or an error of the overlap detector refuses it;
    /// otherwise it joins its reassembly.
    pub fn process_fragment_at(&mut self, request: ReassemblyRequest, now: Timestamp) -> (r: Result<ReassemblyResult, ProtocolError>)
        requires
            old(self).wf(),
        ensures
            final(self).wf(),
            final(self).spec_config() == old(self).spec_config(),
            final(self).next_id() == old(self).next_id(),
            fragment_outcome(*old(self), *final(self), request, now, r),
    {
        let ghost req = request;
        self.cleanup_stale_fragment_state_at(now);
        let ghost sw = *self;
        assert(state_swept(*old(self), sw, now));
        let fragment_info = match self.extract_fragment_info(&request.fragment) {
            Ok(i) => i,
            Err(e) => return Err(e),
        };
        let fragment = request.fragment;
        let ghost mut rv: Option<RateLimitViolation> = None;
        let ghost mut rs: Result<SecurityValidationResult, ProtocolError> = Ok(SecurityValidationResult::Valid);
        let ghost mut ro: Result<OverlapResult, FragmentationError> = Ok(OverlapResult::NoOverlap);
        if self.config.enable_rate_limiting {
            let len = fragment.payload.len();
            let size: u16 = if len > 0xFFFF { 0xFFFF } else { len as u16 };
            let rate_limit_request = RateLimitRequest {
                session_id: fragment_info.session_id,
                source_ip: IpAddress::from_ipv4(request.source_ip),
                fragment_size: PacketSize::new(size),
                fragment_id: fragment_info.fragment_id,
                timestamp: now,
            };
            assert(rate_limit_request == rate_request_of(req, now));
            let verdict = self.rate_limiter.check_rate_limit_at(&rate_limit_request, now);
            proof {
                rv = verdict;
            }
            if let Some(violation) = verdict {
                let reason = "Rate limit exceeded: ".to_owned().concat(violation_name(violation.violation_type));
                let result = Ok(ReassemblyResult::Rejected { reason });
                assert(checked_fragment(sw, *self, req, now, result, rv, rs, ro));
                return result;
            }
        }
        if self.config.enable_security_validation {
            let packet = Packet::Data(copy_data_packet(&fragment));
            assert(fragment_info_of(packet, now) == fragment_info_of(Packet::Data(req.fragment), now));
            let checked = self.security_engine.validate_fragment_at(&packet, now);
            proof {
                rs = checked;
            }
            assert(validation_outcome(sw.security(), self.security(), Packet::Data(req.fragment), now, rs));
            if let Err(e) = checked {
                let reason = "Security validation failed: ".to_owned().concat(protocol_error_text(&e).as_str());
                let result = Ok(ReassemblyResult::Rejected { reason });
                assert(checked_fragment(sw, *self, req, now, result, rv, rs, ro));
                return result;
            }
        }
        if self.config.enable_overlap_detection {
            let overlap_key = overlap::ReassemblyKey {
                session_id: fragment_info.session_id,
                fragment_id: fragment_info.fragment_id,
            };
            let overlap_info = overlap::FragmentInfo {
                session_id: fragment_info.session_id,
                fragment_id: fragment_info.fragment_id,
                fragment_index: fragment_info.fragment_index,
                fragment_count: fragment_info.fragment_count,
                payload_size: FragmentSize::new(fragment_info.payload.len() as u16),
            };
            assert(overlap_key == overlap_key_of(req));
            assert(overlap_info == overlap_info_of(req));
            let found = self.overlap_detector.check_overlap_at(&overlap_key, &overlap_info, now);
            proof {
                ro = found;
            }
            if let Err(e) = found {
                let reason = "Overlap detected: ".to_owned().concat(e.description().as_str());
                let result = Ok(ReassemblyResult::Rejected { reason });
                assert(checked_fragment(sw, *self, req, now, result, rv, rs, ro));
                return result;
            }
        }
        let result = self.process_fragment_for_reassembly(fragment.header, fragment_info, now);
        assert(checked_fragment(sw, *self, req, now, result, rv, rs, ro));
        result
    }

    /// Handles a fragment at the current time, as `process_fragment_at` does.
    pub fn process_fragment(&mut self, request: ReassemblyRequest) -> (r: Result<ReassemblyResult, ProtocolError>)
        requires
            old(self).wf(),
        ensures
            final(self).wf(),
            exists|now: Timestamp| fragment_outcome(*old(self), *final(self), request, now, r),
    {
        let now = Timestamp::now();
        self.process_fragment_at(request, now)
    }

    /// The number of reassemblies under way, the configured limit, and the
    /// counters of the checks and of fragment storage.
    pub fn get_stats(&mut self) -> (r: FragmentationStats)
        requires
            old(self).wf(),
        ensures
            final(self).wf(),
            final(self).contexts() == old(self).contexts(),
            final(self).spec_config() == old(self).spec_config(),
            r.active_reassembly_contexts == old(self).contexts().len(),
            r.max_reassembly_contexts == old(self).spec_config().max_reassembly_contexts,
    {
        proof {
            assert(self.contexts().dom() =~= self.reassembly_contexts@.dom());
        }
        let active = self.reassembly_contexts.len();
        let rate_limit_stats = self.rate_limiter.get_rate_limit_stats();
        let security_stats = self.security_engine.get_stats();
        let memory_stats = self.memory_manager.get_stats();
        FragmentationStats {
            active_reassembly_contexts: active,
            max_reassembly_contexts: self.config.max_reassembly_contexts,
            rate_limit_stats,
            security_stats,
            memory_stats,
        }
    }
}

impl Default for FragmentationEngine {
    /// The same engine as `new` gives.
    fn default() -> (r: FragmentationEngine)
        ensures
            r.wf(),
            r.contexts().is_empty(),
    {
        FragmentationEngine::new()
    }
}

/// A fragment made by `fragment_packet` announces, when read back, the
/// original's session, its identifier, index and count, and carries its
/// slice of the original payload.
pub proof fn lemma_fragment_reads_back(f: DataPacket, orig: DataPacket, fid: u16, i: nat, n: nat, eff: nat)
    requires
        is_fragment_of(f, orig, fid, i, n, eff),
        i < n,
        n <= 0xFFFF,
    ensures
        extract_error(f) is None,
        info_fields(f) == (
            orig.header.session_id,
            FragmentId(fid),
            FragmentIndex(i as u16),
            FragmentCount(n as u16),
            fragment_slice(orig.payload@, eff, i),
        ),
{
    let b = f.payload@;
    crate::codec::lemma_be_encode_len(fid as nat, 2);
    crate::codec::lemma_be_encode_len(i as u16 as nat, 2);
    crate::codec::lemma_be_encode_len(n as u16 as nat, 2);
    crate::codec::lemma_be_encode_len(0, 2);
    crate::codec::lemma_pow256_values();
    assert(b.subrange(0, 2) =~= be_encode(fid as nat, 2));
    assert(b.subrange(2, 4) =~= be_encode(i as u16 as nat, 2));
    assert(b.subrange(4, 6) =~= be_encode(n as u16 as nat, 2));
    assert(b.subrange(8, b.len() as int) =~= fragment_slice(orig.payload@, eff, i));
    crate::codec::lemma_decode_encode(fid as nat, 2);
    crate::codec::lemma_decode_encode(i as u16 as nat, 2);
    crate::codec::lemma_decode_encode(n as u16 as nat, 2);
    vstd::arithmetic::div_mod::lemma_small_mod(fid as nat, 0x1_0000);
    vstd::arithmetic::div_mod::lemma_small_mod(i as u16 as nat, 0x1_0000);
    vstd::arithmetic::div_mod::lemma_small_mod(n as u16 as nat, 0x1_0000);
    let fl = orig.header.flags.0;
    assert((fl | 0x40u8) & 0x40u8 != 0) by (bit_vector);
}

/// The payloads received so far, by index, are the first `m` slices of `p`.
#[verifier::spinoff_prover]
proof fn lemma_prefix_reassembled(p: Seq<u8>, eff: nat, frags: Map<u16, Seq<u8>>, m: nat)
    requires
        eff > 0,
        m <= fragments_needed(p.len(), eff),
        fragments_needed(p.len(), eff) <= 0xFFFF,
        forall|i: u16| (i as nat) < fragments_needed(p.len(), eff) ==> #[trigger] frags[i] == fragment_slice(p, eff, i as nat),
    ensures
        reassembled(frags, m) == p.subrange(0, if m * eff < p.len() { (m * eff) as int } else { p.len() as int }),
    decreases m,
{
    if m == 0 {
        assert(p.subrange(0, 0) =~= Seq::<u8>::empty());
    } else {
        let k = (m - 1) as nat;
        lemma_prefix_reassembled(p, eff, frags, k);
        lemma_slice_start(k, p.len(), eff);
        assert((k as u16) as nat == k);
        assert(frags[k as u16] == fragment_slice(p, eff, k));
        assert(m * eff == k * eff + eff) by (nonlinear_arith)
            requires
                m == k + 1,
        ;
        assert(reassembled(frags, m) =~= p.subrange(0, if m * eff < p.len() { (m * eff) as int } else { p.len() as int }));
    }
}

/// Reassembly gives the payload back: when the payloads received, by index,
/// are the slices that `fragment_packet` cut `p` into, whatever order they
/// came in, putting them together in index order gives `p`.
pub proof fn lemma_fragments_reassemble(p: Seq<u8>, eff: nat, frags: Map<u16, Seq<u8>>)
    requires
        eff > 0,
        fragments_needed(p.len(), eff) <= 0xFFFF,
        forall|i: u16| (i as nat) < fragments_needed(p.len(), eff) ==> #[trigger] frags.contains_key(i) && frags[i]
            == fragment_slice(p, eff, i as nat),
    ensures
        all_present(frags, fragments_needed(p.len(), eff)),
        reassembled(frags, fragments_needed(p.len(), eff)) == p,
{
    let n = fragments_needed(p.len(), eff);
    assert forall|i: u16| (i as nat) < n implies #[trigger] frags[i] == fragment_slice(p, eff, i as nat) by {
        assert(frags.contains_key(i));
    }
    lemma_prefix_reassembled(p, eff, frags, n);
    let x = (p.len() + eff - 1) as int;
    vstd::arithmetic::div_mod::lemma_fundamental_div_mod(x, eff as int);
    vstd::arithmetic::div_mod::lemma_mod_pos_bound(x, eff as int);
    vstd::arithmetic::mul::lemma_mul_is_commutative(n as int, eff as int);
    assert(n * eff >= p.len());
    assert(p.subrange(0, p.len() as int) =~= p);
}

} // verus!
