//! Detection of enumeration attacks: connection attempts are counted per
//! source in a rate window, analysed for automated timing, port scans and
//! session enumeration, and offending sources are blocked with exponential
//! backoff. Sources are numbered by their IPv6 (or IPv4-mapped) address.
use vstd::prelude::*;
use std::collections::HashMap;
use vstd::std_specs::hash::spec_hash_map_iter;
use vstd::std_specs::iter::IteratorSpec;
use crate::values::{AttackCount, AttemptCount, BlockCount, ErrorCount, Port, SessionId, SourceCount, Timestamp};

verus! {

broadcast use vstd::std_specs::hash::group_hash_axioms;

/// Settings of enumeration detection; durations in nanoseconds.
#[derive(Clone, Copy, Debug)]
pub struct EnumerationConfig {
    /// Most attempts a source may make in a window.
    pub max_attempts_per_window: AttemptCount,
    pub rate_limit_window_ns: u64,
    pub initial_block_duration_ns: u64,
    pub max_block_duration_ns: u64,
    /// Factor a repeated block's duration grows by, in thousandths.
    pub backoff_multiplier_permille: u64,
    /// Attempts in all after which a source is treated as an attacker.
    pub attack_pattern_threshold: AttemptCount,
    pub cleanup_interval_ns: u64,
}

impl Default for EnumerationConfig {
    /// Ten attempts a minute; blocks of five minutes doubling up to an hour;
    /// attackers after fifty attempts; cleanup every five minutes.
    fn default() -> (r: EnumerationConfig)
        ensures
            r.max_attempts_per_window.0 == 10,
            r.rate_limit_window_ns == 60_000_000_000,
            r.initial_block_duration_ns == 300_000_000_000,
            r.max_block_duration_ns == 3_600_000_000_000,
            r.backoff_multiplier_permille == 2000,
            r.attack_pattern_threshold.0 == 50,
            r.cleanup_interval_ns == 300_000_000_000,
    {
        EnumerationConfig {
            max_attempts_per_window: AttemptCount::new(10),
            rate_limit_window_ns: 60_000_000_000,
            initial_block_duration_ns: 300_000_000_000,
            max_block_duration_ns: 3_600_000_000_000,
            backoff_multiplier_permille: 2000,
            attack_pattern_threshold: AttemptCount::new(50),
            cleanup_interval_ns: 300_000_000_000,
        }
    }
}

/// What the analysis looks at: the intervals between attempts (in
/// nanoseconds, the last hundred), the ports, sessions and failures seen.
#[derive(Clone, Debug)]
pub struct PatternAnalysisData {
    pub attempt_intervals: Vec<u64>,
    pub targeted_ports: Vec<Port>,
    pub attempted_sessions: Vec<SessionId>,
    pub failure_types: Vec<String>,
}

/// Attempts of one source.
#[derive(Clone, Debug)]
pub struct ConnectionAttemptInfo {
    pub attempts_in_window: AttemptCount,
    pub window_start: Timestamp,
    pub total_attempts: AttemptCount,
    pub last_attempt: Timestamp,
    pub pattern_data: PatternAnalysisData,
}

/// Why a source was blocked.
#[derive(Clone, Copy, Debug, PartialEq, Eq, Structural)]
pub enum BlockReason {
    RateLimitExceeded,
    AttackPatternDetected,
    RepeatedViolations,
    ManualBlock,
}

/// A block on a source.
#[derive(Clone, Copy, Debug, PartialEq, Eq)]
pub struct BlockInfo {
    pub block_start: Timestamp,
    /// In nanoseconds.
    pub block_duration: u64,
    pub block_count: BlockCount,
    pub block_reason: BlockReason,
}

/// What became of a connection attempt.
#[derive(Clone, Copy, Debug, PartialEq, Eq, Structural)]
pub enum EnumerationDetectionResult {
    Allowed,
    RateLimited,
    /// The source stays blocked for this many nanoseconds.
    Blocked(u64),
    AttackDetected,
}

/// Counters of enumeration detection; the attempt counts wrap around.
#[derive(Clone, Copy, Debug)]
pub struct EnumerationStats {
    pub total_attempts: AttemptCount,
    pub rate_limited_attempts: AttemptCount,
    pub blocked_sources: SourceCount,
    pub attack_patterns_detected: AttackCount,
    pub false_positives: ErrorCount,
}

impl Default for EnumerationStats {
    /// Nothing counted.
    fn default() -> (r: EnumerationStats)
        ensures
            r.total_attempts.0 == 0,
            r.rate_limited_attempts.0 == 0,
            r.blocked_sources.0 == 0,
            r.attack_patterns_detected.0 == 0,
            r.false_positives.0 == 0,
    {
        EnumerationStats {
            total_attempts: AttemptCount::new(0),
            rate_limited_attempts: AttemptCount::new(0),
            blocked_sources: SourceCount::new(0),
            attack_patterns_detected: AttackCount::new(0),
            false_positives: ErrorCount::new(0),
        }
    }
}

/// A time that could not be measured: the clock was earlier than a time recorded.
#[derive(Clone, Debug, PartialEq, Eq)]
pub enum EnumerationError {
    TimeCalculation(String),
}

// ---------------------------------------------------------------------------
// Pattern analysis
// ---------------------------------------------------------------------------

/// The sum of the intervals in whole milliseconds.
pub open spec fn ms_sum(xs: Seq<u64>) -> int
    decreases xs.len(),
{
    if xs.len() == 0 {
        0
    } else {
        ms_sum(xs.drop_last()) + xs.last() as int / 1_000_000
    }
}

/// The sum of the squared intervals in whole milliseconds.
pub open spec fn ms_square_sum(xs: Seq<u64>) -> int
    decreases xs.len(),
{
    if xs.len() == 0 {
        0
    } else {
        ms_square_sum(xs.drop_last()) + (xs.last() as int / 1_000_000) * (xs.last() as int / 1_000_000)
    }
}

/// At least ten intervals, averaging under a second, whose standard
/// deviation is under a tenth of their mean: with `n` intervals of sum `s`
/// and square sum `q`, `100 (n q - s^2) < s^2`.
pub open spec fn regular_timing(xs: Seq<u64>) -> bool {
    let n = xs.len() as int;
    let s = ms_sum(xs);
    let q = ms_square_sum(xs);
    &&& n >= 10
    &&& s > 0
    &&& 100 * (n * q - s * s) < s * s
    &&& s < 1000 * n
}

/// How many neighbouring pairs of `xs` differ by one (wrapping around).
pub open spec fn adjacent_pairs_u16(xs: Seq<Port>) -> int
    decreases xs.len(),
{
    if xs.len() < 2 {
        0
    } else {
        let a = xs[xs.len() - 2].0;
        let b = xs.last().0;
        adjacent_pairs_u16(xs.drop_last()) + if b == vstd::wrapping::u16_specs::wrapping_add(a, 1)
            || b == vstd::wrapping::u16_specs::wrapping_sub(a, 1) {
            1int
        } else {
            0int
        }
    }
}

/// How many neighbouring pairs of `xs` differ by one (wrapping around).
pub open spec fn adjacent_pairs_u64(xs: Seq<SessionId>) -> int
    decreases xs.len(),
{
    if xs.len() < 2 {
        0
    } else {
        let a = xs[xs.len() - 2].0;
        let b = xs.last().0;
        adjacent_pairs_u64(xs.drop_last()) + if b == vstd::wrapping::u64_specs::wrapping_add(a, 1)
            || b == vstd::wrapping::u64_specs::wrapping_sub(a, 1) {
            1int
        } else {
            0int
        }
    }
}

/// At least twenty ports, more than half of the neighbouring pairs consecutive.
pub open spec fn port_scan(ports: Seq<Port>) -> bool {
    ports.len() >= 20 && 2 * adjacent_pairs_u16(ports) > ports.len() - 1
}

/// At least ten sessions, more than 30% of the neighbouring pairs consecutive.
pub open spec fn session_enumeration(sessions: Seq<SessionId>) -> bool {
    sessions.len() >= 10 && 10 * adjacent_pairs_u64(sessions) > 3 * (sessions.len() - 1)
}

proof fn lemma_sums_bounded(xs: Seq<u64>)
    ensures
        0 <= ms_sum(xs) <= xs.len() * 18_446_744_073_709,
        0 <= ms_square_sum(xs) <= xs.len() * (18_446_744_073_709 * 18_446_744_073_709),
    decreases xs.len(),
{
    if xs.len() > 0 {
        let d = xs.drop_last();
        lemma_sums_bounded(d);
        let m = xs.last() as int / 1_000_000;
        let k: int = 18_446_744_073_709;
        assert(0 <= m <= k);
        assert(0 <= m * m <= k * k) by (nonlinear_arith)
            requires
                0 <= m <= k,
        ;
        assert(d.len() * k + k == xs.len() * k) by (nonlinear_arith)
            requires
                d.len() + 1 == xs.len(),
        ;
        assert(d.len() * (k * k) + k * k == xs.len() * (k * k)) by (nonlinear_arith)
            requires
                d.len() + 1 == xs.len(),
        ;
    }
}

/// Ports that each differ by one from the one before, up or down, form only
/// consecutive neighbouring pairs: `n` of them count `n - 1`, and twenty or
/// more are a port scan.
pub proof fn lemma_stepping_ports_scan(ports: Seq<Port>)
    requires
        ports.len() >= 1,
        forall|i: int| 0 <= i < ports.len() - 1 ==> #[trigger] ports[i + 1].0 == ports[i].0 + 1 || ports[i + 1].0 + 1 == ports[i].0,
    ensures
        adjacent_pairs_u16(ports) == ports.len() - 1,
        ports.len() >= 20 ==> port_scan(ports),
    decreases ports.len(),
{
    if ports.len() >= 2 {
        let d = ports.drop_last();
        assert forall|i: int| 0 <= i < d.len() - 1 implies #[trigger] d[i + 1].0 == d[i].0 + 1 || d[i + 1].0 + 1 == d[i].0 by {
            assert(ports[i + 1].0 == ports[i].0 + 1 || ports[i + 1].0 + 1 == ports[i].0);
        }
        lemma_stepping_ports_scan(d);
        let k = ports.len() - 2;
        assert(ports[k + 1].0 == ports[k].0 + 1 || ports[k + 1].0 + 1 == ports[k].0);
    }
}

/// Session identifiers that each differ by one from the one before, up or
/// down, form only consecutive neighbouring pairs: `n` of them count `n - 1`,
/// and ten or more are a session enumeration.
pub proof fn lemma_stepping_sessions_enumerate(sessions: Seq<SessionId>)
    requires
        sessions.len() >= 1,
        forall|i: int| 0 <= i < sessions.len() - 1 ==> #[trigger] sessions[i + 1].0 == sessions[i].0 + 1
            || sessions[i + 1].0 + 1 == sessions[i].0,
    ensures
        adjacent_pairs_u64(sessions) == sessions.len() - 1,
        sessions.len() >= 10 ==> session_enumeration(sessions),
    decreases sessions.len(),
{
    if sessions.len() >= 2 {
        let d = sessions.drop_last();
        assert forall|i: int| 0 <= i < d.len() - 1 implies #[trigger] d[i + 1].0 == d[i].0 + 1 || d[i + 1].0 + 1 == d[i].0 by {
            assert(sessions[i + 1].0 == sessions[i].0 + 1 || sessions[i + 1].0 + 1 == sessions[i].0);
        }
        lemma_stepping_sessions_enumerate(d);
        let k = sessions.len() - 2;
        assert(sessions[k + 1].0 == sessions[k].0 + 1 || sessions[k + 1].0 + 1 == sessions[k].0);
    }
}

proof fn lemma_pairs_bounded_u16(xs: Seq<Port>)
    ensures
        0 <= adjacent_pairs_u16(xs) <= (if xs.len() == 0 { 0 } else { xs.len() - 1 }),
    decreases xs.len(),
{
    if xs.len() >= 2 {
        lemma_pairs_bounded_u16(xs.drop_last());
    }
}

proof fn lemma_pairs_bounded_u64(xs: Seq<SessionId>)
    ensures
        0 <= adjacent_pairs_u64(xs) <= (if xs.len() == 0 { 0 } else { xs.len() - 1 }),
    decreases xs.len(),
{
    if xs.len() >= 2 {
        lemma_pairs_bounded_u64(xs.drop_last());
    }
}

/// Regular timing: mean under a second and a coefficient of variation under
/// a tenth, compared exactly in integers.
fn analyze_timing_pattern(intervals: &Vec<u64>) -> (r: bool)
    requires
        intervals@.len() <= 101,
    ensures
        r == regular_timing(intervals@),
{
    let n = intervals.len();
    if n < 10 {
        return false;
    }
    let mut s: u128 = 0;
    let mut q: u128 = 0;
    let mut i: usize = 0;
    while i < n
        invariant
            n == intervals@.len(),
            n <= 101,
            i <= n,
            s == ms_sum(intervals@.subrange(0, i as int)),
            q == ms_square_sum(intervals@.subrange(0, i as int)),
        decreases n - i,
    {
        proof {
            let p = intervals@.subrange(0, i + 1);
            assert(p.drop_last() =~= intervals@.subrange(0, i as int));
            lemma_sums_bounded(p);
            assert(p.len() * 18_446_744_073_709 <= 101 * 18_446_744_073_709) by (nonlinear_arith)
                requires
                    p.len() <= 101,
            ;
            assert(p.len() * (18_446_744_073_709 * 18_446_744_073_709) <= 101 * (18_446_744_073_709
                * 18_446_744_073_709)) by (nonlinear_arith)
                requires
                    p.len() <= 101,
            ;
        }
        let m = (intervals[i] / 1_000_000) as u128;
        s = s + m;
        q = q + m * m;
        i = i + 1;
    }
    proof {
        assert(intervals@.subrange(0, n as int) =~= intervals@);
        lemma_sums_bounded(intervals@);
        assert(n * q <= 101 * (101 * (18_446_744_073_709 * 18_446_744_073_709))) by (nonlinear_arith)
            requires
                n <= 101,
                q <= n * (18_446_744_073_709 * 18_446_744_073_709),
        ;
        assert(s * s <= (101 * 18_446_744_073_709) * (101 * 18_446_744_073_709)) by (nonlinear_arith)
            requires
                0 <= s <= 101 * 18_446_744_073_709,
        ;
        lemma_cauchy(intervals@);
        assert(s * s <= n * q);
    }
    let nq = (n as u128) * q;
    let ss = s * s;
    s > 0 && 100 * (nq - ss) < ss && s < 1000 * (n as u128)
}

/// The square of a sum is at most the length times the sum of squares.
proof fn lemma_cauchy(xs: Seq<u64>)
    ensures
        ms_sum(xs) * ms_sum(xs) <= xs.len() * ms_square_sum(xs),
    decreases xs.len(),
{
    if xs.len() > 0 {
        let d = xs.drop_last();
        lemma_cauchy(d);
        lemma_sums_bounded(d);
        let s = ms_sum(d);
        let q = ms_square_sum(d);
        let n = d.len() as int;
        let m = xs.last() as int / 1_000_000;
        assert(ms_sum(xs) == s + m);
        assert(ms_square_sum(xs) == q + m * m);
        if n == 0 {
            assert(d.len() == 0);
            assert(s == 0 && q == 0);
            assert((s + m) * (s + m) == 1 * (q + m * m)) by (nonlinear_arith)
                requires
                    s == 0,
                    q == 0,
            ;
        } else {
            let t = n * m - s;
            assert(t * t >= 0) by (nonlinear_arith);
            assert(t * t == n * n * (m * m) - 2 * n * m * s + s * s) by (nonlinear_arith)
                requires
                    t == n * m - s,
            ;
            assert(n * (q + n * (m * m)) >= n * (2 * m * s)) by (nonlinear_arith)
                requires
                    s * s <= n * q,
                    t * t >= 0,
                    t * t == n * n * (m * m) - 2 * n * m * s + s * s,
            ;
            assert(q + n * (m * m) >= 2 * m * s) by (nonlinear_arith)
                requires
                    n > 0,
                    n * (q + n * (m * m)) >= n * (2 * m * s),
            ;
            assert((s + m) * (s + m) <= (n + 1) * (q + m * m)) by (nonlinear_arith)
                requires
                    s * s <= n * q,
                    q + n * (m * m) >= 2 * m * s,
            ;
        }
    }
}

/// A port scan: more than half of the neighbouring ports consecutive.
fn analyze_port_scanning_pattern(ports: &Vec<Port>) -> (r: bool)
    ensures
        r == port_scan(ports@),
{
    let n = ports.len();
    if n < 20 {
        return false;
    }
    let mut sequential_count: usize = 0;
    let mut i: usize = 1;
    while i < n
        invariant
            n == ports@.len(),
            n >= 20,
            1 <= i <= n,
            sequential_count == adjacent_pairs_u16(ports@.subrange(0, i as int)),
        decreases n - i,
    {
        let a = ports[i - 1].as_u16();
        let b = ports[i].as_u16();
        proof {
            let p = ports@.subrange(0, i + 1);
            assert(p.drop_last() =~= ports@.subrange(0, i as int));
            assert(p[p.len() - 2] == ports@[i - 1]);
            lemma_pairs_bounded_u16(ports@.subrange(0, i as int));
        }
        if b == a.wrapping_add(1) || b == a.wrapping_sub(1) {
            sequential_count = sequential_count + 1;
        }
        i = i + 1;
    }
    proof {
        assert(ports@.subrange(0, n as int) =~= ports@);
        lemma_pairs_bounded_u16(ports@);
    }
    2 * (sequential_count as u128) > (n - 1) as u128
}

/// Session enumeration: more than 30% of the neighbouring sessions consecutive.
fn analyze_session_enumeration_pattern(sessions: &Vec<SessionId>) -> (r: bool)
    ensures
        r == session_enumeration(sessions@),
{
    let n = sessions.len();
    if n < 10 {
        return false;
    }
    let mut sequential_count: usize = 0;
    let mut i: usize = 1;
    while i < n
        invariant
            n == sessions@.len(),
            n >= 10,
            1 <= i <= n,
            sequential_count == adjacent_pairs_u64(sessions@.subrange(0, i as int)),
        decreases n - i,
    {
        let a = sessions[i - 1].as_u64();
        let b = sessions[i].as_u64();
        proof {
            let p = sessions@.subrange(0, i + 1);
            assert(p.drop_last() =~= sessions@.subrange(0, i as int));
            assert(p[p.len() - 2] == sessions@[i - 1]);
            lemma_pairs_bounded_u64(sessions@.subrange(0, i as int));
        }
        if b == a.wrapping_add(1) || b == a.wrapping_sub(1) {
            sequential_count = sequential_count + 1;
        }
        i = i + 1;
    }
    proof {
        assert(sessions@.subrange(0, n as int) =~= sessions@);
        lemma_pairs_bounded_u64(sessions@);
    }
    10 * (sequential_count as u128) > 3 * ((n - 1) as u128)
}

// ---------------------------------------------------------------------------
// The detector
// ---------------------------------------------------------------------------

/// What is known of a source's attempts: attempts in the window, window
/// start, attempts in all, last attempt, intervals, ports, sessions and failures.
pub type AttemptView = (u32, Timestamp, u32, Timestamp, Seq<u64>, Seq<Port>, Seq<SessionId>, Seq<String>);

pub open spec fn attempt_view(a: ConnectionAttemptInfo) -> AttemptView {
    (
        a.attempts_in_window.0,
        a.window_start,
        a.total_attempts.0,
        a.last_attempt,
        a.pattern_data.attempt_intervals@,
        a.pattern_data.targeted_ports@,
        a.pattern_data.attempted_sessions@,
        a.pattern_data.failure_types@,
    )
}

/// A source's first attempt, at `now`, before it is counted.
pub open spec fn fresh_attempt(now: Timestamp) -> AttemptView {
    (0, now, 0, now, Seq::empty(), Seq::empty(), Seq::empty(), Seq::empty())
}

/// A source's attempts after one more at `now` (not before the window
/// start): the window starts over when it has passed, the counts grow
/// (wrapping), the interval since the last attempt is kept (the last hundred
/// at most) unless the clock went back, and the port, session and failure
/// are noted.
pub open spec fn attempt_after(
    v: AttemptView,
    window_ns: u64,
    port: Port,
    session: Option<SessionId>,
    failure: Option<String>,
    now: Timestamp,
) -> AttemptView {
    let restart = now.0 - v.1.0 > window_ns;
    let in_window = if restart { 0u32 } else { v.0 };
    let start = if restart { now } else { v.1 };
    let intervals = if now.0 >= v.3.0 {
        let pushed = v.4.push((now.0 - v.3.0) as u64);
        if pushed.len() > 100 { pushed.drop_first() } else { pushed }
    } else {
        v.4
    };
    (
        vstd::wrapping::u32_specs::wrapping_add(in_window, 1),
        start,
        vstd::wrapping::u32_specs::wrapping_add(v.2, 1),
        now,
        intervals,
        v.5.push(port),
        match session { Some(s) => v.6.push(s), None => v.6 },
        match failure { Some(f) => v.7.push(f), None => v.7 },
    )
}

/// The attempts look like an attack: too many in all, regular timing, a
/// port scan or session enumeration.
pub open spec fn attack_pattern(v: AttemptView, threshold: u32) -> bool {
    v.2 > threshold || regular_timing(v.4) || port_scan(v.5) || session_enumeration(v.6)
}

/// How long a new block of a source lasts: the initial duration at first,
/// then the previous one in whole seconds times the backoff, up to the most.
pub open spec fn block_duration(c: EnumerationConfig, previous: Option<BlockInfo>) -> u64 {
    match previous {
        None => c.initial_block_duration_ns,
        Some(b) => {
            let grown = (b.block_duration / 1_000_000_000) as int * c.backoff_multiplier_permille as int / 1000 * 1_000_000_000;
            if grown < c.max_block_duration_ns { grown as u64 } else { c.max_block_duration_ns }
        },
    }
}

/// The block put on a source at `now` for `reason`.
pub open spec fn new_block(c: EnumerationConfig, previous: Option<BlockInfo>, reason: BlockReason, now: Timestamp) -> BlockInfo {
    BlockInfo {
        block_start: now,
        block_duration: block_duration(c, previous),
        block_count: BlockCount(match previous {
            Some(b) => vstd::wrapping::u32_specs::wrapping_add(b.block_count.0, 1),
            None => 1,
        }),
        block_reason: reason,
    }
}

/// A block still holds at `now`: it has started and not run out.
pub open spec fn block_live(b: BlockInfo, now: Timestamp) -> bool {
    now.0 >= b.block_start.0 && now.0 - b.block_start.0 < b.block_duration
}

/// A source last seen at `last` is still remembered at `now`: less than two
/// cleanup intervals have passed, and not a negative time.
pub open spec fn attempt_live(last: Timestamp, now: Timestamp, interval_ns: u64) -> bool {
    now.0 >= last.0 && now.0 - last.0 < 2 * interval_ns as int
}

/// A copy of a source's attempts.
fn copy_attempt(a: &ConnectionAttemptInfo) -> (r: ConnectionAttemptInfo)
    ensures
        attempt_view(r) == attempt_view(*a),
{
    let mut failures: Vec<String> = Vec::new();
    let mut i: usize = 0;
    while i < a.pattern_data.failure_types.len()
        invariant
            i <= a.pattern_data.failure_types@.len(),
            failures@ == a.pattern_data.failure_types@.subrange(0, i as int),
        decreases a.pattern_data.failure_types@.len() - i,
    {
        let item = a.pattern_data.failure_types[i].clone();
        failures.push(item);
        proof {
            assert(failures@ =~= a.pattern_data.failure_types@.subrange(0, i + 1));
        }
        i = i + 1;
    }
    proof {
        assert(a.pattern_data.failure_types@.subrange(0, i as int) =~= a.pattern_data.failure_types@);
    }
    ConnectionAttemptInfo {
        attempts_in_window: a.attempts_in_window,
        window_start: a.window_start,
        total_attempts: a.total_attempts,
        last_attempt: a.last_attempt,
        pattern_data: PatternAnalysisData {
            attempt_intervals: copy_u64s(&a.pattern_data.attempt_intervals),
            targeted_ports: copy_ports(&a.pattern_data.targeted_ports),
            attempted_sessions: copy_sessions(&a.pattern_data.attempted_sessions),
            failure_types: failures,
        },
    }
}

fn copy_u64s(v: &Vec<u64>) -> (r: Vec<u64>)
    ensures
        r@ == v@,
{
    let mut out: Vec<u64> = Vec::new();
    let mut i: usize = 0;
    while i < v.len()
        invariant
            i <= v@.len(),
            out@ == v@.subrange(0, i as int),
        decreases v@.len() - i,
    {
        out.push(v[i]);
        proof {
            assert(out@ =~= v@.subrange(0, i + 1));
        }
        i = i + 1;
    }
    proof {
        assert(v@.subrange(0, i as int) =~= v@);
    }
    out
}

fn copy_ports(v: &Vec<Port>) -> (r: Vec<Port>)
    ensures
        r@ == v@,
{
    let mut out: Vec<Port> = Vec::new();
    let mut i: usize = 0;
    while i < v.len()
        invariant
            i <= v@.len(),
            out@ == v@.subrange(0, i as int),
        decreases v@.len() - i,
    {
        out.push(v[i]);
        proof {
            assert(out@ =~= v@.subrange(0, i + 1));
        }
        i = i + 1;
    }
    proof {
        assert(v@.subrange(0, i as int) =~= v@);
    }
    out
}

fn copy_sessions(v: &Vec<SessionId>) -> (r: Vec<SessionId>)
    ensures
        r@ == v@,
{
    let mut out: Vec<SessionId> = Vec::new();
    let mut i: usize = 0;
    while i < v.len()
        invariant
            i <= v@.len(),
            out@ == v@.subrange(0, i as int),
        decreases v@.len() - i,
    {
        out.push(v[i]);
        proof {
            assert(out@ =~= v@.subrange(0, i + 1));
        }
        i = i + 1;
    }
    proof {
        assert(v@.subrange(0, i as int) =~= v@);
    }
    out
}

/// Detects enumeration attacks with progressive blocking.
pub struct EnumerationDetector {
    connection_attempts: HashMap<u128, ConnectionAttemptInfo>,
    blocked_sources: HashMap<u128, BlockInfo>,
    config: EnumerationConfig,
    stats: EnumerationStats,
}

/// `r` and the detector `d1` are what deciding on an attempt of `source_ip`
/// at `now` to `target_port`, with the session and failure seen, gives from
/// the detector `d0`.
pub open spec fn attempt_outcome(
    d0: EnumerationDetector,
    d1: EnumerationDetector,
    source_ip: u128,
    target_port: Port,
    session_id: Option<SessionId>,
    failure_type: Option<String>,
    now: Timestamp,
    r: Result<EnumerationDetectionResult, EnumerationError>,
) -> bool {
    let c = d0.spec_config();
    let bl = d0.blocks();
    let blocked_now = bl.contains_key(source_ip);
    let b = bl[source_ip];
    let v0 = if d0.attempts().contains_key(source_ip) {
        d0.attempts()[source_ip]
    } else {
        fresh_attempt(now)
    };
    let v1 = attempt_after(v0, c.rate_limit_window_ns, target_port, session_id, failure_type, now);
    let previous = if blocked_now { Some(b) } else { None };
    if blocked_now && now.0 < b.block_start.0 {
        r is Err && d1.attempts() == d0.attempts() && d1.blocks() == bl
    } else if blocked_now && now.0 - b.block_start.0 < b.block_duration {
        &&& r == Ok::<EnumerationDetectionResult, EnumerationError>(
            EnumerationDetectionResult::Blocked((b.block_duration - (now.0 - b.block_start.0)) as u64),
        )
        &&& d1.attempts() == d0.attempts()
        &&& d1.blocks() == bl
    } else if now.0 < v0.1.0 {
        r is Err && d1.attempts() == d0.attempts() && d1.blocks() == bl
    } else {
        &&& d1.attempts() == d0.attempts().insert(source_ip, v1)
        &&& if v1.0 > c.max_attempts_per_window.0 {
            &&& r == Ok::<EnumerationDetectionResult, EnumerationError>(EnumerationDetectionResult::RateLimited)
            &&& d1.blocks() == bl.insert(source_ip, new_block(c, previous, BlockReason::RateLimitExceeded, now))
        } else if attack_pattern(v1, c.attack_pattern_threshold.0) {
            &&& r == Ok::<EnumerationDetectionResult, EnumerationError>(EnumerationDetectionResult::AttackDetected)
            &&& d1.blocks() == bl.insert(source_ip, new_block(c, previous, BlockReason::AttackPatternDetected, now))
        } else {
            r == Ok::<EnumerationDetectionResult, EnumerationError>(EnumerationDetectionResult::Allowed)
                && d1.blocks() == bl
        }
    }
}

/// The detector `s1` and answer `r` after `s0` dropped, at `now`, the blocks
/// that ended and the attempt records idle for the cleanup interval; the
/// answer counts each.
pub open spec fn entries_cleanup_outcome(
    s0: EnumerationDetector,
    s1: EnumerationDetector,
    now: Timestamp,
    r: Result<(usize, usize), EnumerationError>,
) -> bool {
    &&& s1.wf()
    &&& s1.spec_config() == s0.spec_config()
    &&& forall|k: u128| #[trigger] s1.blocks().contains_key(k) <==> s0.blocks().contains_key(k)
        && block_live(s0.blocks()[k], now)
    &&& forall|k: u128| #[trigger] s1.blocks().contains_key(k) ==> s1.blocks()[k] == s0.blocks()[k]
    &&& forall|k: u128| #[trigger] s1.attempts().contains_key(k) <==> s0.attempts().contains_key(k)
        && attempt_live(s0.attempts()[k].3, now, s0.spec_config().cleanup_interval_ns)
    &&& forall|k: u128| #[trigger] s1.attempts().contains_key(k) ==> s1.attempts()[k] == s0.attempts()[k]
    &&& r == Ok::<(usize, usize), EnumerationError>(
        (
            (s0.blocks().len() - s1.blocks().len()) as usize,
            (s0.attempts().len() - s1.attempts().len()) as usize,
        ),
    )
    &&& s1.spec_stats() == (EnumerationStats {
        blocked_sources: SourceCount(s1.blocks().len() as usize),
        ..s0.spec_stats()
    })
}

impl EnumerationDetector {
    pub closed spec fn spec_config(&self) -> EnumerationConfig {
        self.config
    }

    /// The attempts of each source.
    pub closed spec fn attempts(&self) -> Map<u128, AttemptView> {
        self.connection_attempts@.map_values(|a: ConnectionAttemptInfo| attempt_view(a))
    }

    /// The blocks on sources.
    pub closed spec fn blocks(&self) -> Map<u128, BlockInfo> {
        self.blocked_sources@
    }

    pub closed spec fn spec_stats(&self) -> EnumerationStats {
        self.stats
    }

    /// Each source keeps at most a hundred intervals.
    pub open spec fn wf(&self) -> bool {
        forall|k: u128| #[trigger] self.attempts().contains_key(k) ==> self.attempts()[k].4.len() <= 100
    }

    pub fn new() -> (r: EnumerationDetector)
        ensures
            r.wf(),
            r.attempts().is_empty(),
            r.blocks().is_empty(),
            r.spec_config().max_attempts_per_window.0 == 10,
    {
        Self::with_config(EnumerationConfig::default())
    }

    /// A detector with `config` that has seen no source.
    pub fn with_config(config: EnumerationConfig) -> (r: EnumerationDetector)
        ensures
            r.wf(),
            r.attempts().is_empty(),
            r.blocks().is_empty(),
            r.spec_config() == config,
            r.spec_stats().total_attempts.0 == 0,
    {
        let r = EnumerationDetector {
            connection_attempts: HashMap::new(),
            blocked_sources: HashMap::new(),
            config,
            stats: EnumerationStats::default(),
        };
        assert(r.attempts() =~= Map::<u128, AttemptView>::empty());
        r
    }

    /// How long a source stays blocked at `now`, if it is; refused when the
    /// clock is earlier than the block's start.
    fn check_blocked_source_at(&self, source_ip: u128, now: Timestamp) -> (r: Result<Option<u64>, EnumerationError>)
        ensures
            !self.blocks().contains_key(source_ip) ==> r == Ok::<Option<u64>, EnumerationError>(None),
            self.blocks().contains_key(source_ip) ==> {
                let b = self.blocks()[source_ip];
                if now.0 < b.block_start.0 {
                    r is Err
                } else if now.0 - b.block_start.0 < b.block_duration {
                    r == Ok::<Option<u64>, EnumerationError>(Some((b.block_duration - (now.0 - b.block_start.0)) as u64))
                } else {
                    r == Ok::<Option<u64>, EnumerationError>(None)
                }
            },
    {
        match self.blocked_sources.get(&source_ip) {
            Some(block_info) => {
                if now.0 < block_info.block_start.0 {
                    return Err(EnumerationError::TimeCalculation("Block duration".to_owned()));
                }
                let elapsed = now.0 - block_info.block_start.0;
                if elapsed < block_info.block_duration {
                    return Ok(Some(block_info.block_duration - elapsed));
                }
                Ok(None)
            },
            None => Ok(None),
        }
    }

    /// Counts an attempt of a source at `now` as `attempt_after` says (a new
    /// source starts at `now`) and tells whether the source passed its limit
    /// in the window; refused, with the source's attempts as they were, when
    /// the clock is earlier than the window start.
    fn update_connection_attempts_at(
        &mut self,
        source_ip: u128,
        target_port: Port,
        session_id: Option<SessionId>,
        failure_type: Option<String>,
        now: Timestamp,
    ) -> (r: Result<bool, EnumerationError>)
        requires
            old(self).wf(),
        ensures
            final(self).wf(),
            final(self).blocks() == old(self).blocks(),
            final(self).spec_config() == old(self).spec_config(),
            final(self).spec_stats() == old(self).spec_stats(),
            ({
                let v0 = if old(self).attempts().contains_key(source_ip) {
                    old(self).attempts()[source_ip]
                } else {
                    fresh_attempt(now)
                };
                if now.0 < v0.1.0 {
                    r is Err && final(self).attempts() == old(self).attempts()
                } else {
                    let v1 = attempt_after(v0, old(self).spec_config().rate_limit_window_ns, target_port, session_id, failure_type, now);
                    &&& final(self).attempts() == old(self).attempts().insert(source_ip, v1)
                    &&& r == Ok::<bool, EnumerationError>(v1.0 > old(self).spec_config().max_attempts_per_window.0)
                }
            }),
    {
        let existing = self.connection_attempts.remove(&source_ip);
        let mut attempt_info = match existing {
            Some(info) => info,
            None => ConnectionAttemptInfo {
                attempts_in_window: AttemptCount::new(0),
                window_start: now,
                total_attempts: AttemptCount::new(0),
                last_attempt: now,
                pattern_data: PatternAnalysisData {
                    attempt_intervals: Vec::new(),
                    targeted_ports: Vec::new(),
                    attempted_sessions: Vec::new(),
                    failure_types: Vec::new(),
                },
            },
        };
        let ghost v0 = attempt_view(attempt_info);
        proof {
            if old(self).attempts().contains_key(source_ip) {
                assert(v0 == old(self).attempts()[source_ip]);
            } else {
                assert(v0 =~= fresh_attempt(now));
            }
        }
        if now.0 < attempt_info.window_start.0 {
            self.connection_attempts.insert(source_ip, attempt_info);
            proof {
                assert(self.attempts() =~= old(self).attempts());
            }
            return Err(EnumerationError::TimeCalculation("Window duration".to_owned()));
        }
        if now.0 - attempt_info.window_start.0 > self.config.rate_limit_window_ns {
            attempt_info.attempts_in_window = AttemptCount::new(0);
            attempt_info.window_start = now;
        }
        attempt_info.attempts_in_window = AttemptCount::new(attempt_info.attempts_in_window.0.wrapping_add(1));
        attempt_info.total_attempts = AttemptCount::new(attempt_info.total_attempts.0.wrapping_add(1));
        if now.0 >= attempt_info.last_attempt.0 {
            let interval = now.0 - attempt_info.last_attempt.0;
            attempt_info.pattern_data.attempt_intervals.push(interval);
            if attempt_info.pattern_data.attempt_intervals.len() > 100 {
                let ghost pushed = attempt_info.pattern_data.attempt_intervals@;
                attempt_info.pattern_data.attempt_intervals.remove(0);
                assert(attempt_info.pattern_data.attempt_intervals@ =~= pushed.drop_first());
            }
        }
        attempt_info.pattern_data.targeted_ports.push(target_port);
        if let Some(session) = session_id {
            attempt_info.pattern_data.attempted_sessions.push(session);
        }
        if let Some(failure) = failure_type {
            attempt_info.pattern_data.failure_types.push(failure);
        }
        attempt_info.last_attempt = now;
        let should_block = attempt_info.attempts_in_window.as_u32() > self.config.max_attempts_per_window.as_u32();
        let ghost v1 = attempt_view(attempt_info);
        self.connection_attempts.insert(source_ip, attempt_info);
        proof {
            assert(v1 =~= attempt_after(v0, self.config.rate_limit_window_ns, target_port, session_id, failure_type, now));
            assert(self.attempts() =~= old(self).attempts().insert(source_ip, v1));
        }
        Ok(should_block)
    }

    /// Whether a source's attempts look like an attack.
    fn detect_attack_pattern(&self, source_ip: u128) -> (r: bool)
        requires
            self.wf(),
        ensures
            r == (self.attempts().contains_key(source_ip) && attack_pattern(
                self.attempts()[source_ip],
                self.spec_config().attack_pattern_threshold.0,
            )),
    {
        match self.connection_attempts.get(&source_ip) {
            Some(attempt_info) => {
                proof {
                    assert(self.attempts().contains_key(source_ip));
                    assert(attempt_view(*attempt_info) == self.attempts()[source_ip]);
                }
                if attempt_info.total_attempts.as_u32() > self.config.attack_pattern_threshold.as_u32() {
                    return true;
                }
                if analyze_timing_pattern(&attempt_info.pattern_data.attempt_intervals) {
                    return true;
                }
                if analyze_port_scanning_pattern(&attempt_info.pattern_data.targeted_ports) {
                    return true;
                }
                if analyze_session_enumeration_pattern(&attempt_info.pattern_data.attempted_sessions) {
                    return true;
                }
                false
            },
            None => false,
        }
    }

    /// Blocks a source at `now` as `new_block` says.
    fn block_source_at(&mut self, source_ip: u128, reason: BlockReason, now: Timestamp)
        requires
            old(self).wf(),
        ensures
            final(self).wf(),
            final(self).attempts() == old(self).attempts(),
            final(self).spec_config() == old(self).spec_config(),
            final(self).blocks() == old(self).blocks().insert(
                source_ip,
                new_block(
                    old(self).spec_config(),
                    if old(self).blocks().contains_key(source_ip) {
                        Some(old(self).blocks()[source_ip])
                    } else {
                        None
                    },
                    reason,
                    now,
                ),
            ),
            final(self).spec_stats() == (EnumerationStats {
                blocked_sources: SourceCount(final(self).blocks().len() as usize),
                ..old(self).spec_stats()
            }),
    {
        let previous = match self.blocked_sources.get(&source_ip) {
            Some(b) => Some(*b),
            None => None,
        };
        let block_duration: u64 = match previous {
            Some(existing_block) => {
                let secs: u128 = (existing_block.block_duration / 1_000_000_000) as u128;
                let factor: u128 = self.config.backoff_multiplier_permille as u128;
                proof {
                    assert(secs * factor <= 18_446_744_073u128 * 18_446_744_073_709_551_615u128) by (nonlinear_arith)
                        requires
                            secs <= 18_446_744_073u128,
                            factor <= 18_446_744_073_709_551_615u128,
                    ;
                }
                let product: u128 = secs * factor;
                let thousandths: u128 = product / 1000;
                proof {
                    assert(thousandths <= 18_446_744_073u128 * 18_446_744_073_709_551_615u128 / 1000);
                    assert(thousandths * 1_000_000_000 <= 340_282_366_920_938_463_463_374_607_431_768_211_455u128) by (nonlinear_arith)
                        requires
                            thousandths <= 18_446_744_073u128 * 18_446_744_073_709_551_615u128 / 1000,
                    ;
                }
                let grown: u128 = thousandths * 1_000_000_000;
                if grown < self.config.max_block_duration_ns as u128 {
                    grown as u64
                } else {
                    self.config.max_block_duration_ns
                }
            },
            None => self.config.initial_block_duration_ns,
        };
        let block_count = match previous {
            Some(b) => BlockCount::new(b.block_count.as_u32().wrapping_add(1)),
            None => BlockCount::new(1),
        };
        self.blocked_sources.insert(
            source_ip,
            BlockInfo { block_start: now, block_duration, block_count, block_reason: reason },
        );
        self.stats.blocked_sources = SourceCount::new(self.blocked_sources.len());
        assert(self.attempts() == old(self).attempts());
    }

    /// Decides on a connection attempt of a source at `now` to a port, with
    /// the session and failure seen: a blocked source is told how long it
    /// stays blocked; otherwise the attempt is counted, a source past its
    /// limit in the window is blocked and rate limited, a source whose
    /// attempts look like an attack is blocked; the others are allowed.
    pub fn check_connection_attempt_at(
        &mut self,
        source_ip: u128,
        target_port: Port,
        session_id: Option<SessionId>,
        failure_type: Option<String>,
        now: Timestamp,
    ) -> (r: Result<EnumerationDetectionResult, EnumerationError>)
        requires
            old(self).wf(),
        ensures
            final(self).wf(),
            final(self).spec_config() == old(self).spec_config(),
            final(self).spec_stats().total_attempts.0 == vstd::wrapping::u32_specs::wrapping_add(
                old(self).spec_stats().total_attempts.0,
                1,
            ),
            attempt_outcome(*old(self), *final(self), source_ip, target_port, session_id, failure_type, now, r),
    {
        self.stats.total_attempts = AttemptCount::new(self.stats.total_attempts.0.wrapping_add(1));
        assert(self.attempts() == old(self).attempts());
        match self.check_blocked_source_at(source_ip, now) {
            Ok(Some(remaining_block)) => return Ok(EnumerationDetectionResult::Blocked(remaining_block)),
            Ok(None) => {},
            Err(e) => return Err(e),
        }
        let should_block = match self.update_connection_attempts_at(source_ip, target_port, session_id, failure_type, now) {
            Ok(b) => b,
            Err(e) => return Err(e),
        };
        if should_block {
            self.block_source_at(source_ip, BlockReason::RateLimitExceeded, now);
            self.stats.rate_limited_attempts = AttemptCount::new(self.stats.rate_limited_attempts.0.wrapping_add(1));
            return Ok(EnumerationDetectionResult::RateLimited);
        }
        if self.detect_attack_pattern(source_ip) {
            self.block_source_at(source_ip, BlockReason::AttackPatternDetected, now);
            self.stats.attack_patterns_detected = AttackCount::new(self.stats.attack_patterns_detected.0.wrapping_add(1));
            return Ok(EnumerationDetectionResult::AttackDetected);
        }
        Ok(EnumerationDetectionResult::Allowed)
    }

    /// Decides on a connection attempt at the current time, as `check_connection_attempt_at` does.
    pub fn check_connection_attempt(
        &mut self,
        source_ip: u128,
        target_port: Port,
        session_id: Option<SessionId>,
        failure_type: Option<String>,
    ) -> (r: Result<EnumerationDetectionResult, EnumerationError>)
        requires
            old(self).wf(),
        ensures
            final(self).wf(),
            exists|now: Timestamp|
                attempt_outcome(*old(self), *final(self), source_ip, target_port, session_id, failure_type, now, r),
    {
        let now = Timestamp::now();
        self.check_connection_attempt_at(source_ip, target_port, session_id, failure_type, now)
    }

    /// Lifts the block on a source, counting a false positive when there was one.
    pub fn unblock_source(&mut self, source_ip: u128) -> (r: bool)
        ensures
            r == old(self).blocks().contains_key(source_ip),
            final(self).blocks() == old(self).blocks().remove(source_ip),
            final(self).attempts() == old(self).attempts(),
            r ==> final(self).spec_stats() == (EnumerationStats {
                blocked_sources: SourceCount(final(self).blocks().len() as usize),
                false_positives: ErrorCount(vstd::wrapping::u64_specs::wrapping_add(old(self).spec_stats().false_positives.0, 1)),
                ..old(self).spec_stats()
            }),
            !r ==> final(self).spec_stats() == old(self).spec_stats(),
    {
        let was_blocked = self.blocked_sources.remove(&source_ip).is_some();
        if was_blocked {
            self.stats.blocked_sources = SourceCount::new(self.blocked_sources.len());
            self.stats.false_positives = ErrorCount::new(self.stats.false_positives.0.wrapping_add(1));
        }
        was_blocked
    }

    pub fn get_stats(&self) -> (r: EnumerationStats)
        ensures
            r == self.spec_stats(),
    {
        self.stats
    }

    /// Each blocked source with its block, in no particular order.
    pub fn get_blocked_sources(&self) -> (r: Vec<(u128, BlockInfo)>)
        ensures
            r@.len() == self.blocks().len(),
            forall|i: int| 0 <= i < r@.len() ==> self.blocks().contains_key(#[trigger] r@[i].0) && self.blocks()[r@[i].0] == r@[i].1,
            forall|k: u128| #[trigger] self.blocks().contains_key(k) ==> exists|i: int| 0 <= i < r@.len() && r@[i].0 == k,
    {
        let ghost m = self.blocked_sources@;
        let mut out: Vec<(u128, BlockInfo)> = Vec::new();
        for (k, v) in it: self.blocked_sources.iter()
            invariant
                m == self.blocked_sources@,
                it.seq() == spec_hash_map_iter(&self.blocked_sources).remaining(),
                out@.len() == it.index(),
                forall|j: int| 0 <= j < it.index() ==> #[trigger] out@[j] == (*it.seq()[j].0, *it.seq()[j].1),
        {
            out.push((*k, *v));
        }
        proof {
            let s = spec_hash_map_iter(&self.blocked_sources).remaining();
            assert(m.dom().len() == m.len());
            assert forall|i: int| 0 <= i < out@.len() implies m.contains_key(#[trigger] out@[i].0) && m[out@[i].0] == out@[i].1 by {
                assert(m.contains_key(*s[i].0) && m[*s[i].0] == *s[i].1);
            }
            assert forall|k: u128| #[trigger] m.contains_key(k) implies exists|i: int| 0 <= i < out@.len() && out@[i].0 == k by {
                assert(s.contains((&k, &m[k])));
                let i = choose|i: int| 0 <= i < s.len() && s[i] == (&k, &m[k]);
                assert(out@[i].0 == k);
            }
        }
        out
    }

    /// A copy of a source's attempts, if it made any.
    pub fn get_attempt_info(&self, source_ip: u128) -> (r: Option<ConnectionAttemptInfo>)
        ensures
            r is Some <==> self.attempts().contains_key(source_ip),
            r matches Some(a) ==> attempt_view(a) == self.attempts()[source_ip],
    {
        match self.connection_attempts.get(&source_ip) {
            Some(a) => Some(copy_attempt(a)),
            None => None,
        }
    }

    /// Lifts, at `now`, the blocks that have run out (or started after `now`)
    /// and forgets the sources whose last attempt is two cleanup intervals old
    /// (or after `now`); tells how many blocks and sources went.
    pub fn cleanup_expired_entries_at(&mut self, now: Timestamp) -> (r: Result<(usize, usize), EnumerationError>)
        requires
            old(self).wf(),
        ensures
            entries_cleanup_outcome(*old(self), *final(self), now, r),
    {
        let initial_blocks = self.blocked_sources.len();
        let ghost mb = self.blocked_sources@;
        let mut expired: Vec<u128> = Vec::new();
        for (k, v) in it: self.blocked_sources.iter()
            invariant
                mb == self.blocked_sources@,
                it.seq() == spec_hash_map_iter(&self.blocked_sources).remaining(),
                forall|j: int| 0 <= j < expired@.len() ==> mb.contains_key(#[trigger] expired@[j]) && !block_live(mb[expired@[j]], now),
                forall|j: int| 0 <= j < it.index() && !block_live(*it.seq()[j].1, now) ==> expired@.contains(*it.seq()[j].0),
        {
            let ghost idx = it.index();
            let ghost prev = expired@;
            proof {
                let sq = spec_hash_map_iter(&self.blocked_sources).remaining();
                assert(mb.contains_key(*sq[idx].0) && mb[*sq[idx].0] == *sq[idx].1);
            }
            let live = now.0 >= v.block_start.0 && now.0 - v.block_start.0 < v.block_duration;
            if !live {
                expired.push(*k);
            }
            proof {
                assert forall|j: int| 0 <= j < idx + 1 && !block_live(*it.seq()[j].1, now) implies expired@.contains(*it.seq()[j].0) by {
                    if j < idx {
                        assert(prev.contains(*it.seq()[j].0));
                        let w = choose|w: int| 0 <= w < prev.len() && prev[w] == *it.seq()[j].0;
                        assert(expired@[w] == *it.seq()[j].0);
                    } else {
                        assert(expired@[expired@.len() - 1] == *it.seq()[j].0);
                    }
                }
            }
        }
        proof {
            let sq = spec_hash_map_iter(&self.blocked_sources).remaining();
            assert forall|key: u128| #[trigger] mb.contains_key(key) && !block_live(mb[key], now) implies expired@.contains(key) by {
                assert(sq.contains((&key, &mb[key])));
                let j = choose|j: int| 0 <= j < sq.len() && sq[j] == (&key, &mb[key]);
                assert(*sq[j].0 == key);
            }
        }
        let n = expired.len();
        let mut i: usize = 0;
        while i < n
            invariant
                i <= n,
                n == expired@.len(),
                mb == old(self).blocked_sources@,
                self.connection_attempts@ == old(self).connection_attempts@,
                self.config == old(self).config,
                self.stats == old(self).stats,
                forall|j: int| 0 <= j < expired@.len() ==> mb.contains_key(#[trigger] expired@[j]) && !block_live(mb[expired@[j]], now),
                forall|key: u128| #[trigger] mb.contains_key(key) && !block_live(mb[key], now) ==> expired@.contains(key),
                forall|key: u128| #[trigger] self.blocked_sources@.contains_key(key) <==> mb.contains_key(key)
                    && !exists|w: int| 0 <= w < i && #[trigger] expired@[w] == key,
                forall|key: u128| #[trigger] self.blocked_sources@.contains_key(key) ==> self.blocked_sources@[key] == mb[key],
            decreases n - i,
        {
            let key = expired[i];
            self.blocked_sources.remove(&key);
            proof {
                assert forall|k2: u128| #[trigger] self.blocked_sources@.contains_key(k2) <==> mb.contains_key(k2)
                    && !exists|w: int| 0 <= w < i + 1 && #[trigger] expired@[w] == k2 by {
                    if exists|w: int| 0 <= w < i + 1 && #[trigger] expired@[w] == k2 {
                        let w = choose|w: int| 0 <= w < i + 1 && #[trigger] expired@[w] == k2;
                        if w == i {
                            assert(k2 == key);
                        }
                    }
                }
            }
            i = i + 1;
        }
        proof {
            assert forall|key: u128| #[trigger] self.blocked_sources@.contains_key(key) <==> mb.contains_key(key) && block_live(mb[key], now) by {
                if mb.contains_key(key) && !block_live(mb[key], now) {
                    assert(expired@.contains(key));
                    let w = choose|w: int| 0 <= w < expired@.len() && expired@[w] == key;
                    assert(0 <= w < i && expired@[w] == key);
                }
                if mb.contains_key(key) && block_live(mb[key], now) {
                    assert forall|w: int| 0 <= w < i implies #[trigger] expired@[w] != key by {
                        assert(!block_live(mb[expired@[w]], now));
                    }
                }
            }
            vstd::set_lib::lemma_len_subset(self.blocked_sources@.dom(), mb.dom());
        }
        let blocks_removed = initial_blocks - self.blocked_sources.len();
        self.stats.blocked_sources = SourceCount::new(self.blocked_sources.len());

        let ghost ma = self.connection_attempts@;
        let ghost va = self.attempts();
        proof {
            assert forall|key: u128| #[trigger] ma.contains_key(key) implies ma[key].pattern_data.attempt_intervals@.len() <= 100 by {
                assert(old(self).attempts().contains_key(key));
            }
        }
        let threshold: u128 = 2 * (self.config.cleanup_interval_ns as u128);
        let initial_attempts = self.connection_attempts.len();
        let mut stale: Vec<u128> = Vec::new();
        for (k, v) in it: self.connection_attempts.iter()
            invariant
                ma == self.connection_attempts@,
                threshold == 2 * (self.config.cleanup_interval_ns as u128),
                it.seq() == spec_hash_map_iter(&self.connection_attempts).remaining(),
                forall|j: int| 0 <= j < stale@.len() ==> ma.contains_key(#[trigger] stale@[j])
                    && !attempt_live(ma[stale@[j]].last_attempt, now, self.config.cleanup_interval_ns),
                forall|j: int| 0 <= j < it.index() && !attempt_live((*it.seq()[j].1).last_attempt, now, self.config.cleanup_interval_ns)
                    ==> stale@.contains(*it.seq()[j].0),
        {
            let ghost idx = it.index();
            let ghost prev = stale@;
            proof {
                let sq = spec_hash_map_iter(&self.connection_attempts).remaining();
                assert(ma.contains_key(*sq[idx].0) && ma[*sq[idx].0] == *sq[idx].1);
            }
            let live = now.0 >= v.last_attempt.0 && ((now.0 - v.last_attempt.0) as u128) < threshold;
            if !live {
                stale.push(*k);
            }
            proof {
                assert forall|j: int| 0 <= j < idx + 1 && !attempt_live((*it.seq()[j].1).last_attempt, now, self.config.cleanup_interval_ns)
                    implies stale@.contains(*it.seq()[j].0) by {
                    if j < idx {
                        assert(prev.contains(*it.seq()[j].0));
                        let w = choose|w: int| 0 <= w < prev.len() && prev[w] == *it.seq()[j].0;
                        assert(stale@[w] == *it.seq()[j].0);
                    } else {
                        assert(stale@[stale@.len() - 1] == *it.seq()[j].0);
                    }
                }
            }
        }
        proof {
            let sq = spec_hash_map_iter(&self.connection_attempts).remaining();
            assert forall|key: u128| #[trigger] ma.contains_key(key) && !attempt_live(ma[key].last_attempt, now, self.config.cleanup_interval_ns)
                implies stale@.contains(key) by {
                assert(sq.contains((&key, &ma[key])));
                let j = choose|j: int| 0 <= j < sq.len() && sq[j] == (&key, &ma[key]);
                assert(*sq[j].0 == key);
            }
        }
        let n2 = stale.len();
        let mut i2: usize = 0;
        while i2 < n2
            invariant
                i2 <= n2,
                n2 == stale@.len(),
                self.config == old(self).config,
                ma == old(self).connection_attempts@,
                forall|key: u128| #[trigger] ma.contains_key(key) ==> ma[key].pattern_data.attempt_intervals@.len() <= 100,
                forall|j: int| 0 <= j < stale@.len() ==> ma.contains_key(#[trigger] stale@[j])
                    && !attempt_live(ma[stale@[j]].last_attempt, now, self.config.cleanup_interval_ns),
                forall|key: u128| #[trigger] ma.contains_key(key) && !attempt_live(ma[key].last_attempt, now, self.config.cleanup_interval_ns)
                    ==> stale@.contains(key),
                forall|key: u128| #[trigger] self.connection_attempts@.contains_key(key) <==> ma.contains_key(key)
                    && !exists|w: int| 0 <= w < i2 && #[trigger] stale@[w] == key,
                forall|key: u128| #[trigger] self.connection_attempts@.contains_key(key) ==> self.connection_attempts@[key] == ma[key],
                forall|key: u128| #[trigger] self.blocked_sources@.contains_key(key) <==> mb.contains_key(key) && block_live(mb[key], now),
                forall|key: u128| #[trigger] self.blocked_sources@.contains_key(key) ==> self.blocked_sources@[key] == mb[key],
                mb == old(self).blocked_sources@,
                self.stats == (EnumerationStats {
                    blocked_sources: SourceCount(self.blocked_sources@.len() as usize),
                    ..old(self).stats
                }),
                blocks_removed == mb.len() - self.blocked_sources@.len(),
            decreases n2 - i2,
        {
            let key = stale[i2];
            self.connection_attempts.remove(&key);
            proof {
                assert forall|k2: u128| #[trigger] self.connection_attempts@.contains_key(k2) <==> ma.contains_key(k2)
                    && !exists|w: int| 0 <= w < i2 + 1 && #[trigger] stale@[w] == k2 by {
                    if exists|w: int| 0 <= w < i2 + 1 && #[trigger] stale@[w] == k2 {
                        let w = choose|w: int| 0 <= w < i2 + 1 && #[trigger] stale@[w] == k2;
                        if w == i2 {
                            assert(k2 == key);
                        }
                    }
                }
            }
            i2 = i2 + 1;
        }
        proof {
            assert forall|key: u128| #[trigger] self.connection_attempts@.contains_key(key) <==> ma.contains_key(key)
                && attempt_live(ma[key].last_attempt, now, self.config.cleanup_interval_ns) by {
                if ma.contains_key(key) && !attempt_live(ma[key].last_attempt, now, self.config.cleanup_interval_ns) {
                    assert(stale@.contains(key));
                    let w = choose|w: int| 0 <= w < stale@.len() && stale@[w] == key;
                    assert(0 <= w < i2 && stale@[w] == key);
                }
                if ma.contains_key(key) && attempt_live(ma[key].last_attempt, now, self.config.cleanup_interval_ns) {
                    assert forall|w: int| 0 <= w < i2 implies #[trigger] stale@[w] != key by {
                        assert(!attempt_live(ma[stale@[w]].last_attempt, now, self.config.cleanup_interval_ns));
                    }
                }
            }
            vstd::set_lib::lemma_len_subset(self.connection_attempts@.dom(), ma.dom());
            assert(self.attempts().dom() =~= self.connection_attempts@.dom());
            assert(va.dom() =~= ma.dom());
        }
        let attempts_removed = initial_attempts - self.connection_attempts.len();
        proof {
            assert forall|k: u128| #[trigger] self.attempts().contains_key(k) implies self.attempts()[k].4.len() <= 100 by {
                assert(self.connection_attempts@[k] == ma[k]);
            }
        }
        Ok((blocks_removed, attempts_removed))
    }

    /// The same cleanup at the current time.
    pub fn cleanup_expired_entries(&mut self) -> (r: Result<(usize, usize), EnumerationError>)
        requires
            old(self).wf(),
        ensures
            final(self).wf(),
            exists|now: Timestamp| entries_cleanup_outcome(*old(self), *final(self), now, r),
    {
        let now = Timestamp::now();
        self.cleanup_expired_entries_at(now)
    }
}


impl Default for EnumerationDetector {
    fn default() -> (r: EnumerationDetector)
        ensures
            r.wf(),
            r.attempts().is_empty(),
    {
        EnumerationDetector::new()
    }
}


/// Repeated blocks grow at most to the longest block allowed.
pub proof fn lemma_block_duration_capped(c: EnumerationConfig, previous: BlockInfo)
    ensures
        block_duration(c, Some(previous)) <= c.max_block_duration_ns,
{
}

} // verus!
