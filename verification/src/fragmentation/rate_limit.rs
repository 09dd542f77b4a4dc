//! Rate limiting of fragments per session and of packets and bytes per source.
use vstd::prelude::*;
use std::collections::HashMap;
use vstd::std_specs::hash::spec_hash_map_iter;
use vstd::std_specs::iter::IteratorSpec;
use crate::values::{
    Capacity, FragmentId, IpAddress, PacketCount, PacketRate, PacketSize, SessionId, Timestamp,
    ViolationCount,
};

verus! {

broadcast use vstd::std_specs::hash::group_hash_axioms;

/// Billionths of a token per token: buckets count in billionths, so that a
/// refill over any number of nanoseconds is exact.
pub const NANO_TOKENS: u128 = 1_000_000_000;

/// Configuration of rate limiting.
#[derive(Clone, Copy, Debug)]
pub struct RateLimitConfig {
    pub fragments_per_second_per_session: PacketRate,
    pub session_burst_capacity: Capacity,
    pub packets_per_second_per_source: PacketRate,
    pub source_burst_capacity: Capacity,
    /// Idle time, in seconds, after which a limiter is dropped.
    pub cleanup_interval_sec: u64,
}

impl Default for RateLimitConfig {
    /// 20 fragments a second per session (bursts of 50), 100 packets a second
    /// per source (bursts of 200), limiters idle for a minute dropped.
    fn default() -> (r: RateLimitConfig)
        ensures
            r.fragments_per_second_per_session.0 == 20,
            r.session_burst_capacity.0 == 50,
            r.packets_per_second_per_source.0 == 100,
            r.source_burst_capacity.0 == 200,
            r.cleanup_interval_sec == 60,
    {
        RateLimitConfig {
            fragments_per_second_per_session: PacketRate::new(20),
            session_burst_capacity: Capacity::new(50),
            packets_per_second_per_source: PacketRate::new(100),
            source_burst_capacity: Capacity::new(200),
            cleanup_interval_sec: 60,
        }
    }
}

/// A token bucket: tokens (in billionths) up to a capacity, refilled at a rate
/// per second.
#[derive(Clone, Copy, Debug, PartialEq, Eq, Structural)]
pub struct TokenBucket {
    pub tokens: u128,
    pub capacity: u128,
    pub refill_rate: u32,
    pub last_refill: Timestamp,
}

/// A full bucket created at `now`.
pub open spec fn fresh_bucket(capacity: u32, rate: u32, now: Timestamp) -> TokenBucket {
    TokenBucket {
        tokens: (capacity * NANO_TOKENS) as u128,
        capacity: (capacity * NANO_TOKENS) as u128,
        refill_rate: rate,
        last_refill: now,
    }
}

/// The bucket refilled at `now`: `rate` tokens per elapsed second, no more than
/// its capacity.
pub open spec fn refilled(b: TokenBucket, now: Timestamp) -> TokenBucket {
    let elapsed = if now.0 >= b.last_refill.0 { now.0 - b.last_refill.0 } else { 0 };
    let t = b.tokens + elapsed * b.refill_rate;
    TokenBucket { tokens: if t > b.capacity { b.capacity } else { t as u128 }, last_refill: now, ..b }
}

/// Taking `n` tokens at `now`: the bucket is refilled, then the tokens are
/// taken if there are enough. Gives whether they were.
pub open spec fn consumed(b: TokenBucket, n: u32, now: Timestamp) -> (bool, TokenBucket) {
    let r = refilled(b, now);
    if r.tokens >= n * NANO_TOKENS {
        (true, TokenBucket { tokens: (r.tokens - n * NANO_TOKENS) as u128, ..r })
    } else {
        (false, r)
    }
}

/// Tokens never exceed the capacity, and the capacity fits the counters.
pub open spec fn bucket_wf(b: TokenBucket) -> bool {
    b.tokens <= b.capacity <= 0x1_0000_0000_0000 * NANO_TOKENS
}

impl TokenBucket {
    /// Adds the tokens earned since the last refill, up to the capacity.
    fn refill(&mut self, now: Timestamp)
        requires
            bucket_wf(*old(self)),
        ensures
            *final(self) == refilled(*old(self), now),
            bucket_wf(*final(self)),
    {
        let elapsed: u64 = if now.0 >= self.last_refill.0 { now.0 - self.last_refill.0 } else { 0 };
        proof {
            assert((elapsed as u128) * (self.refill_rate as u128) <= 0xffff_ffff_ffff_ffff * 0xffff_ffff) by (nonlinear_arith)
                requires
                    elapsed <= 0xffff_ffff_ffff_ffffu64,
                    self.refill_rate <= 0xffff_ffffu32,
            ;
        }
        let added: u128 = (elapsed as u128) * (self.refill_rate as u128);
        let t: u128 = self.tokens + added;
        self.tokens = if t > self.capacity { self.capacity } else { t };
        self.last_refill = now;
    }

    /// The whole tokens in the bucket, at most `u32::MAX`.
    pub fn current_tokens(&self) -> (r: u32)
        ensures
            r == (if self.tokens / NANO_TOKENS > u32::MAX { u32::MAX as int } else { (self.tokens / NANO_TOKENS) as int }),
    {
        let whole = self.tokens / NANO_TOKENS;
        if whole > u32::MAX as u128 {
            u32::MAX
        } else {
            whole as u32
        }
    }

    fn new(capacity: u32, refill_rate: u32, now: Timestamp) -> (r: TokenBucket)
        requires
            capacity <= 0x1_0000_0000_0000,
        ensures
            r == fresh_bucket(capacity, refill_rate, now),
            bucket_wf(r),
    {
        TokenBucket {
            tokens: (capacity as u128) * NANO_TOKENS,
            capacity: (capacity as u128) * NANO_TOKENS,
            refill_rate,
            last_refill: now,
        }
    }

    /// Takes `tokens` tokens at `now` after refilling, if there are enough.
    fn try_consume(&mut self, tokens: u32, now: Timestamp) -> (r: bool)
        requires
            bucket_wf(*old(self)),
        ensures
            (r, *final(self)) == consumed(*old(self), tokens, now),
            bucket_wf(*final(self)),
    {
        self.refill(now);
        let needed: u128 = (tokens as u128) * NANO_TOKENS;
        if self.tokens >= needed {
            self.tokens = self.tokens - needed;
            true
        } else {
            false
        }
    }
}

/// Rate limiting state of a session.
#[derive(Clone, Copy, Debug)]
pub struct SessionRateLimiter {
    pub token_bucket: TokenBucket,
    pub last_activity: Timestamp,
    pub fragment_count: PacketCount,
    pub violations: ViolationCount,
}

/// Rate limiting state of a source.
#[derive(Clone, Copy, Debug)]
pub struct SourceRateLimiter {
    pub packet_bucket: TokenBucket,
    pub byte_bucket: TokenBucket,
    pub last_activity: Timestamp,
    pub violations: ViolationCount,
}

/// A fragment to check.
#[derive(Clone, Copy, Debug)]
pub struct RateLimitRequest {
    pub session_id: SessionId,
    pub source_ip: IpAddress,
    pub fragment_size: PacketSize,
    pub fragment_id: FragmentId,
    pub timestamp: Timestamp,
}

/// Which limit a fragment exceeded.
#[derive(Clone, Copy, Debug, PartialEq, Eq, Structural)]
pub enum ViolationType {
    SessionFragmentRate,
    SourcePacketRate,
    SourceByteRate,
}

/// A fragment refused by rate limiting; retry after a second.
#[derive(Clone, Copy, Debug)]
pub struct RateLimitViolation {
    pub violation_type: ViolationType,
    pub session_id: SessionId,
    pub source_ip: IpAddress,
    pub current_rate: PacketRate,
    pub rate_limit: PacketRate,
    pub retry_after_ms: u64,
}

/// Counters of rate limiting; the counts of checks and violations wrap around.
#[derive(Clone, Copy, Debug)]
pub struct FragmentRateLimitStats {
    pub total_checks: PacketCount,
    pub session_violations: ViolationCount,
    pub source_violations: ViolationCount,
    pub active_session_limiters: Capacity,
    pub active_source_limiters: Capacity,
}

/// Limits the fragments of each session and the packets and bytes of each source.
pub struct FragmentRateLimiter {
    session_limiters: HashMap<u64, SessionRateLimiter>,
    source_limiters: HashMap<u128, SourceRateLimiter>,
    config: RateLimitConfig,
    stats: FragmentRateLimitStats,
}

/// The configuration's capacities and rates fit the counters.
pub open spec fn config_ok(c: RateLimitConfig) -> bool {
    c.source_burst_capacity.0 * 1400 <= u32::MAX && c.packets_per_second_per_source.0 * 1400 <= u32::MAX
        && c.fragments_per_second_per_session.0 < u32::MAX && c.packets_per_second_per_source.0 < u32::MAX
}

/// A session's limiter `before` after a fragment of `request` at `now`, and
/// the violation if the session has no token left: one token taken (a
/// refused fragment counts a violation, an accepted one a fragment and the
/// request's time as its activity).
pub open spec fn session_step(
    c: RateLimitConfig,
    before: SessionRateLimiter,
    request: RateLimitRequest,
    now: Timestamp,
) -> (Option<RateLimitViolation>, SessionRateLimiter) {
    let (ok, b1) = consumed(before.token_bucket, 1, now);
    if ok {
        (
            None,
            SessionRateLimiter {
                token_bucket: b1,
                last_activity: request.timestamp,
                fragment_count: PacketCount(vstd::wrapping::u64_specs::wrapping_add(before.fragment_count.0, 1)),
                ..before
            },
        )
    } else {
        (
            Some(RateLimitViolation {
                violation_type: ViolationType::SessionFragmentRate,
                session_id: request.session_id,
                source_ip: request.source_ip,
                current_rate: PacketRate((c.fragments_per_second_per_session.0 + 1) as u32),
                rate_limit: c.fragments_per_second_per_session,
                retry_after_ms: 1000,
            }),
            SessionRateLimiter {
                token_bucket: b1,
                violations: ViolationCount(vstd::wrapping::u64_specs::wrapping_add(before.violations.0, 1)),
                ..before
            },
        )
    }
}

/// A source's limiter `before` after a fragment of `request` at `now`, and
/// the violation if it has no packet token, or else not enough byte tokens.
pub open spec fn source_step(
    c: RateLimitConfig,
    before: SourceRateLimiter,
    request: RateLimitRequest,
    now: Timestamp,
) -> (Option<RateLimitViolation>, SourceRateLimiter) {
    let (packet_ok, pb1) = consumed(before.packet_bucket, 1, now);
    let (byte_ok, bb1) = consumed(before.byte_bucket, request.fragment_size.0 as u32, now);
    let violated = SourceRateLimiter {
        violations: ViolationCount(vstd::wrapping::u64_specs::wrapping_add(before.violations.0, 1)),
        ..before
    };
    if !packet_ok {
        (
            Some(RateLimitViolation {
                violation_type: ViolationType::SourcePacketRate,
                session_id: request.session_id,
                source_ip: request.source_ip,
                current_rate: PacketRate((c.packets_per_second_per_source.0 + 1) as u32),
                rate_limit: c.packets_per_second_per_source,
                retry_after_ms: 1000,
            }),
            SourceRateLimiter { packet_bucket: pb1, ..violated },
        )
    } else if !byte_ok {
        (
            Some(RateLimitViolation {
                violation_type: ViolationType::SourceByteRate,
                session_id: request.session_id,
                source_ip: request.source_ip,
                current_rate: c.packets_per_second_per_source,
                rate_limit: c.packets_per_second_per_source,
                retry_after_ms: 1000,
            }),
            SourceRateLimiter { packet_bucket: pb1, byte_bucket: bb1, ..violated },
        )
    } else {
        (None, SourceRateLimiter { packet_bucket: pb1, byte_bucket: bb1, last_activity: request.timestamp, ..before })
    }
}

/// The violation a check of `request` at `now` finds with limiter `l`, if any:
/// the session's limit first and, when it holds, the source's.
pub open spec fn rate_verdict(l: FragmentRateLimiter, request: RateLimitRequest, now: Timestamp) -> Option<RateLimitViolation> {
    let c = l.spec_config();
    let ses = session_step(c, l.session_before(request.session_id.0, now), request, now);
    if ses.0 is Some {
        ses.0
    } else {
        source_step(c, l.source_before(request.source_ip.0, now), request, now).0
    }
}

/// The limiter `s1` and answer `r` after `s0` checked `request` at `now`: the
/// session's limit first and, when it holds, the source's; the check, and
/// the first limit exceeded, are counted; every other limiter is kept.
pub open spec fn rate_check_outcome(
    s0: FragmentRateLimiter,
    s1: FragmentRateLimiter,
    request: RateLimitRequest,
    now: Timestamp,
    r: Option<RateLimitViolation>,
) -> bool {
    let c = s0.spec_config();
    let st = s0.spec_stats();
    let sid = request.session_id.0;
    let ip = request.source_ip.0;
    let ses = session_step(c, s0.session_before(sid, now), request, now);
    let src = source_step(c, s0.source_before(ip, now), request, now);
    let checks = PacketCount(vstd::wrapping::u64_specs::wrapping_add(st.total_checks.0, 1));
    &&& s1.wf()
    &&& s1.spec_config() == c
    &&& s1.sessions() =~= s0.sessions().insert(sid, ses.1)
    &&& if ses.0 is Some {
        &&& r == ses.0
        &&& s1.sources() =~= s0.sources()
        &&& s1.spec_stats() == (FragmentRateLimitStats {
            total_checks: checks,
            session_violations: ViolationCount(vstd::wrapping::u64_specs::wrapping_add(st.session_violations.0, 1)),
            ..st
        })
    } else {
        &&& r == src.0
        &&& s1.sources() =~= s0.sources().insert(ip, src.1)
        &&& s1.spec_stats() == (FragmentRateLimitStats {
            total_checks: checks,
            source_violations: if src.0 is Some {
                ViolationCount(vstd::wrapping::u64_specs::wrapping_add(st.source_violations.0, 1))
            } else {
                st.source_violations
            },
            ..st
        })
    }
}

/// The limiter `s1` after `s0` dropped, at `now`, the limiters idle for the
/// cleanup interval.
pub open spec fn limiters_cleanup_outcome(
    s0: FragmentRateLimiter,
    s1: FragmentRateLimiter,
    now: Timestamp,
) -> bool {
    &&& s1.wf()
    &&& s1.spec_config() == s0.spec_config()
    &&& s1.sessions() =~= Map::new(
        |k: u64| s0.sessions().contains_key(k) && limiter_live(s0.sessions()[k].last_activity, now, s0.spec_config().cleanup_interval_sec),
        |k: u64| s0.sessions()[k],
    )
    &&& s1.sources() =~= Map::new(
        |k: u128| s0.sources().contains_key(k) && limiter_live(s0.sources()[k].last_activity, now, s0.spec_config().cleanup_interval_sec),
        |k: u128| s0.sources()[k],
    )
    &&& s1.spec_stats().active_session_limiters.0 == s1.sessions().len() as u32
    &&& s1.spec_stats().active_source_limiters.0 == s1.sources().len() as u32
    &&& s1.spec_stats().total_checks == s0.spec_stats().total_checks
    &&& s1.spec_stats().session_violations == s0.spec_stats().session_violations
    &&& s1.spec_stats().source_violations == s0.spec_stats().source_violations
}

/// The limiter `s1` is `s0` with the configuration `c`: the limiters and the
/// counters stay.
pub open spec fn config_updated(s0: FragmentRateLimiter, s1: FragmentRateLimiter, c: RateLimitConfig) -> bool {
    &&& s1.wf()
    &&& s1.spec_config() == c
    &&& s1.sessions() == s0.sessions()
    &&& s1.sources() == s0.sources()
    &&& s1.spec_stats() == s0.spec_stats()
}

/// A new configuration applies to the limiters created after it: a session
/// or source seen before keeps its buckets, one not seen before starts with
/// full buckets of the new capacities and rates; the counters stay. With a
/// session burst capacity of zero, the first fragment of a new session is
/// refused for the session's rate.
pub proof fn lemma_config_applies_to_new_limiters(
    s0: FragmentRateLimiter,
    s1: FragmentRateLimiter,
    c: RateLimitConfig,
    request: RateLimitRequest,
    now: Timestamp,
)
    requires
        config_updated(s0, s1, c),
    ensures
        s1.spec_stats() == s0.spec_stats(),
        s0.sessions().contains_key(request.session_id.0) ==> s1.session_before(request.session_id.0, now)
            == s0.sessions()[request.session_id.0],
        !s0.sessions().contains_key(request.session_id.0) ==> s1.session_before(request.session_id.0, now).token_bucket
            == fresh_bucket(c.session_burst_capacity.0, c.fragments_per_second_per_session.0, now),
        s0.sources().contains_key(request.source_ip.0) ==> s1.source_before(request.source_ip.0, now)
            == s0.sources()[request.source_ip.0],
        !s0.sources().contains_key(request.source_ip.0) ==> s1.source_before(request.source_ip.0, now).packet_bucket
            == fresh_bucket(c.source_burst_capacity.0, c.packets_per_second_per_source.0, now),
        !s0.sessions().contains_key(request.session_id.0) && c.session_burst_capacity.0 == 0 ==> (rate_verdict(
            s1,
            request,
            now,
        ) matches Some(v) && v.violation_type == ViolationType::SessionFragmentRate),
{
}

/// How many of the first `n` answers refused a fragment for its session's rate.
pub open spec fn session_refusals(rs: Seq<Option<RateLimitViolation>>, n: nat) -> nat
    decreases n,
{
    if n == 0 {
        0
    } else {
        session_refusals(rs, (n - 1) as nat) + if rs[n - 1] matches Some(v) && v.violation_type
            == ViolationType::SessionFragmentRate {
            1nat
        } else {
            0nat
        }
    }
}

/// How many of the first `n` answers refused a fragment for its source's rates.
pub open spec fn source_refusals(rs: Seq<Option<RateLimitViolation>>, n: nat) -> nat
    decreases n,
{
    if n == 0 {
        0
    } else {
        source_refusals(rs, (n - 1) as nat) + if rs[n - 1] matches Some(v) && v.violation_type
            != ViolationType::SessionFragmentRate {
            1nat
        } else {
            0nat
        }
    }
}

/// How many of the first `n` answers refused a fragment.
pub open spec fn refusals(rs: Seq<Option<RateLimitViolation>>, n: nat) -> nat
    decreases n,
{
    if n == 0 {
        0
    } else {
        refusals(rs, (n - 1) as nat) + if rs[n - 1] is Some { 1nat } else { 0nat }
    }
}

/// The sessions of the first `n` requests.
pub open spec fn sessions_seen(rqs: Seq<RateLimitRequest>, n: nat) -> Set<u64> {
    Set::new(|sid: u64| exists|i: int| 0 <= i < n && #[trigger] rqs[i].session_id.0 == sid)
}

/// The sources of those of the first `n` requests that passed their
/// session's check (answered `rs`).
pub open spec fn sources_seen(rqs: Seq<RateLimitRequest>, rs: Seq<Option<RateLimitViolation>>, n: nat) -> Set<u128> {
    Set::new(
        |ip: u128|
            exists|i: int|
                0 <= i < n && #[trigger] rqs[i].source_ip.0 == ip && !(rs[i] matches Some(v) && v.violation_type
                    == ViolationType::SessionFragmentRate),
    )
}

/// The limiters `ls` go through the checks of `rqs` at `nows`, answered `rs`.
pub open spec fn checks_run(
    ls: Seq<FragmentRateLimiter>,
    rqs: Seq<RateLimitRequest>,
    nows: Seq<Timestamp>,
    rs: Seq<Option<RateLimitViolation>>,
) -> bool {
    &&& ls.len() == rqs.len() + 1
    &&& nows.len() == rqs.len()
    &&& rs.len() == rqs.len()
    &&& forall|i: int| 0 <= i < rqs.len() ==> #[trigger] rate_check_outcome(ls[i], ls[i + 1], rqs[i], nows[i], rs[i])
}

/// From a limiter with no limiters and zero counters, after `n` checks (and
/// no cleanup or reset): `n` checks are counted, the violations counted are
/// the refusals (those for a session's rate and those for a source's rates),
/// there is a session limiter for each session checked and a source limiter
/// for each source whose fragment passed its session's check.
pub proof fn lemma_rate_stats_count(
    ls: Seq<FragmentRateLimiter>,
    rqs: Seq<RateLimitRequest>,
    nows: Seq<Timestamp>,
    rs: Seq<Option<RateLimitViolation>>,
)
    requires
        checks_run(ls, rqs, nows, rs),
        rqs.len() < u64::MAX,
        ls[0].sessions().is_empty(),
        ls[0].sources().is_empty(),
        ls[0].spec_stats().total_checks.0 == 0,
        ls[0].spec_stats().session_violations.0 == 0,
        ls[0].spec_stats().source_violations.0 == 0,
    ensures
        ({
            let n = rqs.len();
            let l = ls[n as int];
            &&& l.spec_stats().total_checks.0 == n
            &&& l.spec_stats().session_violations.0 == session_refusals(rs, n)
            &&& l.spec_stats().source_violations.0 == source_refusals(rs, n)
            &&& l.spec_stats().session_violations.0 + l.spec_stats().source_violations.0 == refusals(rs, n)
            &&& l.sessions().dom() =~= sessions_seen(rqs, n)
            &&& l.sources().dom() =~= sources_seen(rqs, rs, n)
        }),
{
    lemma_rate_stats_prefix(ls, rqs, nows, rs, rqs.len());
}

proof fn lemma_rate_stats_prefix(
    ls: Seq<FragmentRateLimiter>,
    rqs: Seq<RateLimitRequest>,
    nows: Seq<Timestamp>,
    rs: Seq<Option<RateLimitViolation>>,
    k: nat,
)
    requires
        checks_run(ls, rqs, nows, rs),
        rqs.len() < u64::MAX,
        k <= rqs.len(),
        ls[0].sessions().is_empty(),
        ls[0].sources().is_empty(),
        ls[0].spec_stats().total_checks.0 == 0,
        ls[0].spec_stats().session_violations.0 == 0,
        ls[0].spec_stats().source_violations.0 == 0,
    ensures
        ({
            let l = ls[k as int];
            &&& l.spec_stats().total_checks.0 == k
            &&& l.spec_stats().session_violations.0 == session_refusals(rs, k)
            &&& l.spec_stats().source_violations.0 == source_refusals(rs, k)
            &&& session_refusals(rs, k) + source_refusals(rs, k) == refusals(rs, k)
            &&& refusals(rs, k) <= k
            &&& l.sessions().dom() =~= sessions_seen(rqs, k)
            &&& l.sources().dom() =~= sources_seen(rqs, rs, k)
        }),
    decreases k,
{
    if k == 0 {
        assert(sessions_seen(rqs, 0) =~= Set::<u64>::empty());
        assert(sources_seen(rqs, rs, 0) =~= Set::<u128>::empty());
    } else {
        let j = (k - 1) as int;
        lemma_rate_stats_prefix(ls, rqs, nows, rs, (k - 1) as nat);
        assert(rate_check_outcome(ls[j], ls[j + 1], rqs[j], nows[j], rs[j]));
        let l0 = ls[j];
        let l1 = ls[j + 1];
        let rq = rqs[j];
        let c = l0.spec_config();
        let ses = session_step(c, l0.session_before(rq.session_id.0, nows[j]), rq, nows[j]);
        let src = source_step(c, l0.source_before(rq.source_ip.0, nows[j]), rq, nows[j]);
        assert(l1.sessions().dom() =~= sessions_seen(rqs, k)) by {
            assert forall|sid: u64| sessions_seen(rqs, k).contains(sid) implies l1.sessions().dom().contains(sid) by {
                let i = choose|i: int| 0 <= i < k && #[trigger] rqs[i].session_id.0 == sid;
                if i < j {
                    assert(sessions_seen(rqs, (k - 1) as nat).contains(sid));
                }
            }
            assert forall|sid: u64| l1.sessions().dom().contains(sid) implies sessions_seen(rqs, k).contains(sid) by {
                if sid != rq.session_id.0 {
                    assert(sessions_seen(rqs, (k - 1) as nat).contains(sid));
                    let i = choose|i: int| 0 <= i < k - 1 && #[trigger] rqs[i].session_id.0 == sid;
                    assert(rqs[i].session_id.0 == sid);
                } else {
                    assert(rqs[j].session_id.0 == sid);
                }
            }
        }
        assert(l1.sources().dom() =~= sources_seen(rqs, rs, k)) by {
            assert forall|ip: u128| sources_seen(rqs, rs, k).contains(ip) implies l1.sources().dom().contains(ip) by {
                let i = choose|i: int|
                    0 <= i < k && #[trigger] rqs[i].source_ip.0 == ip && !(rs[i] matches Some(v) && v.violation_type
                        == ViolationType::SessionFragmentRate);
                if i < j {
                    assert(sources_seen(rqs, rs, (k - 1) as nat).contains(ip));
                }
            }
            assert forall|ip: u128| l1.sources().dom().contains(ip) implies sources_seen(rqs, rs, k).contains(ip) by {
                if l0.sources().dom().contains(ip) {
                    assert(sources_seen(rqs, rs, (k - 1) as nat).contains(ip));
                    let i = choose|i: int|
                        0 <= i < k - 1 && #[trigger] rqs[i].source_ip.0 == ip && !(rs[i] matches Some(v)
                            && v.violation_type == ViolationType::SessionFragmentRate);
                    assert(rqs[i].source_ip.0 == ip);
                } else {
                    assert(rqs[j].source_ip.0 == ip);
                }
            }
        }
    }
}

impl FragmentRateLimiter {
    pub closed spec fn sessions(&self) -> Map<u64, SessionRateLimiter> {
        self.session_limiters@
    }

    pub closed spec fn sources(&self) -> Map<u128, SourceRateLimiter> {
        self.source_limiters@
    }

    pub closed spec fn spec_config(&self) -> RateLimitConfig {
        self.config
    }

    pub closed spec fn spec_stats(&self) -> FragmentRateLimitStats {
        self.stats
    }

    /// Every bucket is well formed and the configuration fits the counters.
    pub closed spec fn wf(&self) -> bool {
        &&& config_ok(self.config)
        &&& forall|k: u64| #[trigger] self.session_limiters@.contains_key(k) ==> bucket_wf(self.session_limiters@[k].token_bucket)
        &&& forall|k: u128| #[trigger] self.source_limiters@.contains_key(k) ==> bucket_wf(self.source_limiters@[k].packet_bucket)
            && bucket_wf(self.source_limiters@[k].byte_bucket)
    }

    pub fn new() -> (r: FragmentRateLimiter)
        ensures
            r.wf(),
            r.sessions() == Map::<u64, SessionRateLimiter>::empty(),
            r.sources() == Map::<u128, SourceRateLimiter>::empty(),
            r.spec_config().fragments_per_second_per_session.0 == 20,
            r.spec_config().session_burst_capacity.0 == 50,
            r.spec_config().packets_per_second_per_source.0 == 100,
            r.spec_config().source_burst_capacity.0 == 200,
            r.spec_config().cleanup_interval_sec == 60,
            r.spec_stats().total_checks.0 == 0,
            r.spec_stats().session_violations.0 == 0,
            r.spec_stats().source_violations.0 == 0,
    {
        Self::with_config(RateLimitConfig::default())
    }

    pub fn with_config(config: RateLimitConfig) -> (r: FragmentRateLimiter)
        requires
            config_ok(config),
        ensures
            r.wf(),
            r.sessions() == Map::<u64, SessionRateLimiter>::empty(),
            r.sources() == Map::<u128, SourceRateLimiter>::empty(),
            r.spec_config() == config,
            r.spec_stats().total_checks.0 == 0,
            r.spec_stats().session_violations.0 == 0,
            r.spec_stats().source_violations.0 == 0,
            r.spec_stats().active_session_limiters.0 == 0,
            r.spec_stats().active_source_limiters.0 == 0,
    {
        FragmentRateLimiter {
            session_limiters: HashMap::new(),
            source_limiters: HashMap::new(),
            config,
            stats: FragmentRateLimitStats {
                total_checks: PacketCount::new(0),
                session_violations: ViolationCount::new(0),
                source_violations: ViolationCount::new(0),
                active_session_limiters: Capacity::new(0),
                active_source_limiters: Capacity::new(0),
            },
        }
    }

    /// Checks a fragment at the current time.
    pub fn check_rate_limit(&mut self, request: &RateLimitRequest) -> (r: Option<RateLimitViolation>)
        requires
            old(self).wf(),
        ensures
            final(self).wf(),
            exists|now: Timestamp| rate_check_outcome(*old(self), *final(self), *request, now, r),
    {
        let now = Timestamp::now();
        self.check_rate_limit_at(request, now)
    }

    /// The session limiter a check at `now` starts from: the session's, or a
    /// new one with a full bucket.
    pub open spec fn session_before(&self, sid: u64, now: Timestamp) -> SessionRateLimiter {
        if self.sessions().contains_key(sid) {
            self.sessions()[sid]
        } else {
            SessionRateLimiter {
                token_bucket: fresh_bucket(
                    self.spec_config().session_burst_capacity.0,
                    self.spec_config().fragments_per_second_per_session.0,
                    now,
                ),
                last_activity: now,
                fragment_count: PacketCount(0),
                violations: ViolationCount(0),
            }
        }
    }

    /// The source limiter a check at `now` starts from: the source's, or a
    /// new one with full packet and byte buckets (1400 bytes per packet).
    pub open spec fn source_before(&self, ip: u128, now: Timestamp) -> SourceRateLimiter {
        if self.sources().contains_key(ip) {
            self.sources()[ip]
        } else {
            SourceRateLimiter {
                packet_bucket: fresh_bucket(
                    self.spec_config().source_burst_capacity.0,
                    self.spec_config().packets_per_second_per_source.0,
                    now,
                ),
                byte_bucket: fresh_bucket(
                    (self.spec_config().source_burst_capacity.0 * 1400) as u32,
                    (self.spec_config().packets_per_second_per_source.0 * 1400) as u32,
                    now,
                ),
                last_activity: now,
                violations: ViolationCount(0),
            }
        }
    }

    /// Takes a token from the fragment's session at `now`; without one, the
    /// session counts a violation and the fragment is refused.
    fn check_session_rate_limit(&mut self, request: &RateLimitRequest, now: Timestamp) -> (r: Option<RateLimitViolation>)
        requires
            old(self).wf(),
        ensures
            final(self).wf(),
            final(self).spec_config() == old(self).spec_config(),
            final(self).spec_stats() == old(self).spec_stats(),
            final(self).sources() == old(self).sources(),
            ({
                let sid = request.session_id.0;
                let before = old(self).session_before(sid, now);
                let (ok, b1) = consumed(before.token_bucket, 1, now);
                if ok {
                    &&& r is None
                    &&& final(self).sessions() == old(self).sessions().insert(
                        sid,
                        SessionRateLimiter {
                            token_bucket: b1,
                            last_activity: request.timestamp,
                            fragment_count: PacketCount(vstd::wrapping::u64_specs::wrapping_add(before.fragment_count.0, 1)),
                            ..before
                        },
                    )
                } else {
                    &&& r == Some(RateLimitViolation {
                        violation_type: ViolationType::SessionFragmentRate,
                        session_id: request.session_id,
                        source_ip: request.source_ip,
                        current_rate: PacketRate((old(self).spec_config().fragments_per_second_per_session.0 + 1) as u32),
                        rate_limit: old(self).spec_config().fragments_per_second_per_session,
                        retry_after_ms: 1000,
                    })
                    &&& final(self).sessions() == old(self).sessions().insert(
                        sid,
                        SessionRateLimiter {
                            token_bucket: b1,
                            violations: ViolationCount(vstd::wrapping::u64_specs::wrapping_add(before.violations.0, 1)),
                            ..before
                        },
                    )
                }
            }),
    {
        let sid = request.session_id.0;
        let mut session = match self.session_limiters.get(&sid) {
            Some(l) => *l,
            None => SessionRateLimiter {
                token_bucket: TokenBucket::new(
                    self.config.session_burst_capacity.0,
                    self.config.fragments_per_second_per_session.0,
                    now,
                ),
                last_activity: now,
                fragment_count: PacketCount::new(0),
                violations: ViolationCount::new(0),
            },
        };
        proof {
            if old(self).session_limiters@.contains_key(sid) {
                assert(bucket_wf(old(self).session_limiters@[sid].token_bucket));
            }
        }
        let session_ok = session.token_bucket.try_consume(1, now);
        if !session_ok {
            session.violations = ViolationCount::new(session.violations.0.wrapping_add(1));
            self.session_limiters.insert(sid, session);
            return Some(RateLimitViolation {
                violation_type: ViolationType::SessionFragmentRate,
                session_id: request.session_id,
                source_ip: request.source_ip,
                current_rate: PacketRate::new(self.config.fragments_per_second_per_session.0 + 1),
                rate_limit: self.config.fragments_per_second_per_session,
                retry_after_ms: 1000,
            });
        }
        session.last_activity = request.timestamp;
        session.fragment_count = PacketCount::new(session.fragment_count.0.wrapping_add(1));
        self.session_limiters.insert(sid, session);
        None
    }

    /// Takes a packet token and as many byte tokens as the fragment has bytes
    /// from the fragment's source at `now`; when either is missing, the source
    /// counts a violation and the fragment is refused (a packet token taken
    /// stays taken).
    fn check_source_rate_limit(&mut self, request: &RateLimitRequest, now: Timestamp) -> (r: Option<RateLimitViolation>)
        requires
            old(self).wf(),
        ensures
            final(self).wf(),
            final(self).spec_config() == old(self).spec_config(),
            final(self).spec_stats() == old(self).spec_stats(),
            final(self).sessions() == old(self).sessions(),
            ({
                let c = old(self).spec_config();
                let ip = request.source_ip.0;
                let before = old(self).source_before(ip, now);
                let (packet_ok, pb1) = consumed(before.packet_bucket, 1, now);
                let (byte_ok, bb1) = consumed(before.byte_bucket, request.fragment_size.0 as u32, now);
                let violated = SourceRateLimiter {
                    violations: ViolationCount(vstd::wrapping::u64_specs::wrapping_add(before.violations.0, 1)),
                    ..before
                };
                if !packet_ok {
                    &&& r == Some(RateLimitViolation {
                        violation_type: ViolationType::SourcePacketRate,
                        session_id: request.session_id,
                        source_ip: request.source_ip,
                        current_rate: PacketRate((c.packets_per_second_per_source.0 + 1) as u32),
                        rate_limit: c.packets_per_second_per_source,
                        retry_after_ms: 1000,
                    })
                    &&& final(self).sources() == old(self).sources().insert(ip, SourceRateLimiter { packet_bucket: pb1, ..violated })
                } else if !byte_ok {
                    &&& r == Some(RateLimitViolation {
                        violation_type: ViolationType::SourceByteRate,
                        session_id: request.session_id,
                        source_ip: request.source_ip,
                        current_rate: c.packets_per_second_per_source,
                        rate_limit: c.packets_per_second_per_source,
                        retry_after_ms: 1000,
                    })
                    &&& final(self).sources() == old(self).sources().insert(
                        ip,
                        SourceRateLimiter { packet_bucket: pb1, byte_bucket: bb1, ..violated },
                    )
                } else {
                    &&& r is None
                    &&& final(self).sources() == old(self).sources().insert(
                        ip,
                        SourceRateLimiter { packet_bucket: pb1, byte_bucket: bb1, last_activity: request.timestamp, ..before },
                    )
                }
            }),
    {
        let ip = request.source_ip.0;
        let mut source = match self.source_limiters.get(&ip) {
            Some(l) => *l,
            None => SourceRateLimiter {
                packet_bucket: TokenBucket::new(
                    self.config.source_burst_capacity.0,
                    self.config.packets_per_second_per_source.0,
                    now,
                ),
                byte_bucket: TokenBucket::new(
                    self.config.source_burst_capacity.0 * 1400,
                    self.config.packets_per_second_per_source.0 * 1400,
                    now,
                ),
                last_activity: now,
                violations: ViolationCount::new(0),
            },
        };
        proof {
            if old(self).source_limiters@.contains_key(ip) {
                assert(bucket_wf(old(self).source_limiters@[ip].packet_bucket));
                assert(bucket_wf(old(self).source_limiters@[ip].byte_bucket));
            }
        }
        let packet_ok = source.packet_bucket.try_consume(1, now);
        if !packet_ok {
            source.violations = ViolationCount::new(source.violations.0.wrapping_add(1));
            self.source_limiters.insert(ip, source);
            return Some(RateLimitViolation {
                violation_type: ViolationType::SourcePacketRate,
                session_id: request.session_id,
                source_ip: request.source_ip,
                current_rate: PacketRate::new(self.config.packets_per_second_per_source.0 + 1),
                rate_limit: self.config.packets_per_second_per_source,
                retry_after_ms: 1000,
            });
        }
        let byte_ok = source.byte_bucket.try_consume(request.fragment_size.0 as u32, now);
        if !byte_ok {
            source.violations = ViolationCount::new(source.violations.0.wrapping_add(1));
            self.source_limiters.insert(ip, source);
            return Some(RateLimitViolation {
                violation_type: ViolationType::SourceByteRate,
                session_id: request.session_id,
                source_ip: request.source_ip,
                current_rate: self.config.packets_per_second_per_source,
                rate_limit: self.config.packets_per_second_per_source,
                retry_after_ms: 1000,
            });
        }
        source.last_activity = request.timestamp;
        self.source_limiters.insert(ip, source);
        None
    }

    /// Checks a fragment at `now`: the session's limit first, then the
    /// source's; the check, and the first limit exceeded, are counted.
    pub fn check_rate_limit_at(&mut self, request: &RateLimitRequest, now: Timestamp) -> (r: Option<RateLimitViolation>)
        requires
            old(self).wf(),
        ensures
            rate_check_outcome(*old(self), *final(self), *request, now, r),
    {
        self.stats.total_checks = PacketCount::new(self.stats.total_checks.0.wrapping_add(1));
        if let Some(violation) = self.check_session_rate_limit(request, now) {
            self.stats.session_violations = ViolationCount::new(self.stats.session_violations.0.wrapping_add(1));
            return Some(violation);
        }
        if let Some(violation) = self.check_source_rate_limit(request, now) {
            self.stats.source_violations = ViolationCount::new(self.stats.source_violations.0.wrapping_add(1));
            return Some(violation);
        }
        None
    }

    /// Zeroes the counts of checks and violations.
    pub fn reset_stats(&mut self)
        requires
            old(self).wf(),
        ensures
            final(self).wf(),
            final(self).spec_stats().total_checks.0 == 0,
            final(self).spec_stats().session_violations.0 == 0,
            final(self).spec_stats().source_violations.0 == 0,
            final(self).spec_stats().active_session_limiters == old(self).spec_stats().active_session_limiters,
            final(self).spec_stats().active_source_limiters == old(self).spec_stats().active_source_limiters,
            final(self).sessions() == old(self).sessions(),
            final(self).sources() == old(self).sources(),
            final(self).spec_config() == old(self).spec_config(),
    {
        self.stats.total_checks = PacketCount::new(0);
        self.stats.session_violations = ViolationCount::new(0);
        self.stats.source_violations = ViolationCount::new(0);
    }

    /// Replaces the configuration; limiters already created keep their buckets.
    pub fn update_config(&mut self, config: RateLimitConfig)
        requires
            old(self).wf(),
            config_ok(config),
        ensures
            config_updated(*old(self), *final(self), config),
    {
        self.config = config;
    }

    /// Reports the counters with the current numbers of limiters.
    pub fn get_rate_limit_stats(&mut self) -> (r: FragmentRateLimitStats)
        requires
            old(self).wf(),
        ensures
            final(self).wf(),
            r == final(self).spec_stats(),
            r.active_session_limiters.0 == old(self).sessions().len() as u32,
            r.active_source_limiters.0 == old(self).sources().len() as u32,
            r.total_checks == old(self).spec_stats().total_checks,
            r.session_violations == old(self).spec_stats().session_violations,
            r.source_violations == old(self).spec_stats().source_violations,
            final(self).sessions() == old(self).sessions(),
            final(self).sources() == old(self).sources(),
            final(self).spec_config() == old(self).spec_config(),
    {
        self.stats.active_session_limiters = Capacity::new(self.session_limiters.len() as u32);
        self.stats.active_source_limiters = Capacity::new(self.source_limiters.len() as u32);
        self.stats
    }

    /// Drops the limiters idle for the cleanup interval, at the current time.
    pub fn cleanup_expired_limiters(&mut self)
        requires
            old(self).wf(),
        ensures
            final(self).wf(),
            exists|now: Timestamp| limiters_cleanup_outcome(*old(self), *final(self), now),
    {
        let now = Timestamp::now();
        self.cleanup_expired_limiters_at(now);
    }

    /// Drops, at `now`, the limiters idle for at least the cleanup interval.
    pub fn cleanup_expired_limiters_at(&mut self, now: Timestamp)
        requires
            old(self).wf(),
        ensures
            limiters_cleanup_outcome(*old(self), *final(self), now),
    {
        let timeout = self.config.cleanup_interval_sec;
        let ghost m = self.session_limiters@;
        let mut fresh: HashMap<u64, SessionRateLimiter> = HashMap::new();
        for (k, v) in it: self.session_limiters.iter()
            invariant
                m == self.session_limiters@,
                it.seq() == spec_hash_map_iter(&self.session_limiters).remaining(),
                forall|key: u64| #[trigger] m.contains_key(key) ==> bucket_wf(m[key].token_bucket),
                fresh@ == Map::new(
                    |key: u64| m.contains_key(key) && limiter_live(m[key].last_activity, now, timeout)
                        && exists|j: int| 0 <= j < it.index() && *it.seq()[j].0 == key,
                    |key: u64| m[key],
                ),
        {
            let ghost idx = it.index();
            proof {
                let s = spec_hash_map_iter(&self.session_limiters).remaining();
                assert(m.contains_key(*s[idx].0) && m[*s[idx].0] == *s[idx].1);
            }
            if is_live(v.last_activity, now, timeout) {
                fresh.insert(*k, *v);
            }
            proof {
                assert(fresh@ =~= Map::new(
                    |key: u64| m.contains_key(key) && limiter_live(m[key].last_activity, now, timeout)
                        && exists|j: int| 0 <= j < idx + 1 && *it.seq()[j].0 == key,
                    |key: u64| m[key],
                ));
            }
        }
        proof {
            let s = spec_hash_map_iter(&self.session_limiters).remaining();
            assert forall|key: u64| #[trigger] m.contains_key(key) implies exists|j: int|
                0 <= j < s.len() && *s[j].0 == key by {
                assert(s.contains((&key, &m[key])));
            }
            assert(fresh@ =~= Map::new(|key: u64| m.contains_key(key) && limiter_live(m[key].last_activity, now, timeout), |key: u64| m[key]));
        }
        self.session_limiters = fresh;

        let ghost sm = self.source_limiters@;
        let mut sfresh: HashMap<u128, SourceRateLimiter> = HashMap::new();
        for (k, v) in it: self.source_limiters.iter()
            invariant
                sm == self.source_limiters@,
                it.seq() == spec_hash_map_iter(&self.source_limiters).remaining(),
                sfresh@ == Map::new(
                    |key: u128| sm.contains_key(key) && limiter_live(sm[key].last_activity, now, timeout)
                        && exists|j: int| 0 <= j < it.index() && *it.seq()[j].0 == key,
                    |key: u128| sm[key],
                ),
        {
            let ghost idx = it.index();
            proof {
                let s = spec_hash_map_iter(&self.source_limiters).remaining();
                assert(sm.contains_key(*s[idx].0) && sm[*s[idx].0] == *s[idx].1);
            }
            if is_live(v.last_activity, now, timeout) {
                sfresh.insert(*k, *v);
            }
            proof {
                assert(sfresh@ =~= Map::new(
                    |key: u128| sm.contains_key(key) && limiter_live(sm[key].last_activity, now, timeout)
                        && exists|j: int| 0 <= j < idx + 1 && *it.seq()[j].0 == key,
                    |key: u128| sm[key],
                ));
            }
        }
        proof {
            let s = spec_hash_map_iter(&self.source_limiters).remaining();
            assert forall|key: u128| #[trigger] sm.contains_key(key) implies exists|j: int|
                0 <= j < s.len() && *s[j].0 == key by {
                assert(s.contains((&key, &sm[key])));
            }
            assert(sfresh@ =~= Map::new(|key: u128| sm.contains_key(key) && limiter_live(sm[key].last_activity, now, timeout), |key: u128| sm[key]));
        }
        self.source_limiters = sfresh;
        self.stats.active_session_limiters = Capacity::new(self.session_limiters.len() as u32);
        self.stats.active_source_limiters = Capacity::new(self.source_limiters.len() as u32);
    }
}

/// A limiter last active at `last` is kept at `now` while less than the
/// interval (seconds) has elapsed.
pub open spec fn limiter_live(last: Timestamp, now: Timestamp, interval_sec: u64) -> bool {
    (if now.0 >= last.0 { now.0 - last.0 } else { 0 }) < interval_sec * 1_000_000_000
}

fn is_live(last: Timestamp, now: Timestamp, interval_sec: u64) -> (r: bool)
    ensures
        r == limiter_live(last, now, interval_sec),
{
    let elapsed: u64 = if now.0 >= last.0 { now.0 - last.0 } else { 0 };
    (elapsed as u128) < (interval_sec as u128) * 1_000_000_000
}

/// A full bucket lets as many tokens be taken at once as its capacity holds,
/// and no more.
pub proof fn lemma_fresh_bucket_burst(capacity: u32, rate: u32, now: Timestamp, n: u32)
    ensures
        consumed(fresh_bucket(capacity, rate, now), n, now).0 <==> n <= capacity,
{
    assert(n * NANO_TOKENS <= capacity * NANO_TOKENS <==> n <= capacity) by (nonlinear_arith);
}

/// A bucket never holds more than its capacity, however long it waits.
pub proof fn lemma_refill_capped(b: TokenBucket, now: Timestamp)
    requires
        bucket_wf(b),
    ensures
        refilled(b, now).tokens <= b.capacity,
        bucket_wf(refilled(b, now)),
{
}

} // verus!
