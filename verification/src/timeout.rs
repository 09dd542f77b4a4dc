//! Retransmission timeouts (RFC 6298), retry bookkeeping and timeout decisions.
use vstd::prelude::*;
use rand::Rng;
use std::collections::HashMap;
use vstd::std_specs::hash::spec_hash_map_iter;
use vstd::std_specs::iter::IteratorSpec;
use crate::error::ProtocolError;
use crate::text::{decimal, with_decimal};
use crate::types::ConnectionState;
use crate::values::{ConnectionId, MicrosecondTimestamp, PacketId, SequenceNumber, Timestamp};

verus! {

broadcast use vstd::std_specs::hash::group_hash_axioms;

/// Initial round-trip time estimate.
pub const RTT_INITIAL_MS: u32 = 1000;
/// Smallest round-trip time sample.
pub const RTT_MIN_MS: u32 = 1;
/// Largest round-trip time sample.
pub const RTT_MAX_MS: u32 = 60000;
/// Clock granularity.
pub const RTT_G: u32 = 10;
/// Smallest retransmission timeout.
pub const MIN_RETRANSMISSION_TIMEOUT_MS: u32 = 1000;
/// Largest retransmission timeout.
pub const MAX_RETRANSMISSION_TIMEOUT_MS: u32 = 60000;
/// Retransmissions of a packet before the connection is declared failed.
pub const MAX_RETRANSMISSION_ATTEMPTS: u32 = 8;

/// Connection establishment timeout.
pub const CONNECTION_TIMEOUT_MS: u64 = 30000;
/// Heartbeat timeout.
pub const HEARTBEAT_TIMEOUT_MS: u64 = 90000;
/// Session idle timeout.
pub const SESSION_IDLE_TIMEOUT_MS: u64 = 300000;
/// Fragment reassembly timeout.
pub const FRAGMENT_TIMEOUT_MS: u64 = 5000;
/// Heartbeat failures before the connection is declared failed.
pub const MAX_HEARTBEAT_FAILURES: u32 = 3;
/// Discovery timeout.
pub const DISCOVERY_TIMEOUT_MS: u64 = 5000;
/// Largest discovery timeout.
pub const MAX_DISCOVERY_TIMEOUT_MS: u64 = 60000;
/// Time resynchronization timeout.
pub const TIME_RESYNC_TIMEOUT_MS: u64 = 5000;
/// Rekey timeout.
pub const REKEY_TIMEOUT_MS: u64 = 10000;
/// Sequence repair timeout.
pub const SEQUENCE_REPAIR_TIMEOUT_MS: u64 = 8000;
/// Emergency recovery timeout.
pub const EMERGENCY_RECOVERY_TIMEOUT_MS: u64 = 60000;
/// General recovery timeout.
pub const RECOVERY_TIMEOUT_MS: u64 = 20000;
/// Base timeout of generic operations.
pub const BASE_TIMEOUT_MS: u64 = 5000;
/// Largest timeout of generic operations.
pub const MAX_GENERIC_TIMEOUT_MS: u64 = 120000;
/// Retries of a generic operation.
pub const MAX_RETRY_ATTEMPTS: u32 = 5;
/// Anti-replay window for packet timestamps.
pub const TIMESTAMP_WINDOW_MS: u64 = 30000;
/// Tolerated clock drift for timestamps from the future.
pub const TIME_SYNC_TOLERANCE_MS: u64 = 50;

// ---------------------------------------------------------------------------
// Round-trip time estimation
// ---------------------------------------------------------------------------

/// Round-trip time estimator. Estimates are integers of milliseconds: the
/// smoothing steps compute `floor((7 SRTT + R) / 8)` and `floor((3 RTTVAR + |SRTT - R|) / 4)`,
/// the exact values of the weighted averages with weights 1/8 and 1/4
/// rounded down, and the variation term of the timeout is `4 RTTVAR`,
/// saturated at the largest `u32`.
#[derive(Debug)]
pub struct RtoState {
    rtt_srtt: u32,
    rtt_rttvar: u32,
    rtt_rto: u32,
    first_measurement: bool,
    last_measurement_time: u64,
    measurement_count: u64,
}

/// RTT statistics for monitoring.
#[derive(Clone, Copy, Debug)]
pub struct RtoStatistics {
    pub srtt_ms: u32,
    pub rttvar_ms: u32,
    pub rto_ms: u32,
    pub measurement_count: u64,
    pub last_measurement_time: MicrosecondTimestamp,
}

/// `v` clamped into `[lo, hi]`.
pub open spec fn clamp(v: int, lo: int, hi: int) -> int {
    if v < lo {
        lo
    } else if v > hi {
        hi
    } else {
        v
    }
}

/// The sample that a round trip from `send` to `ack` (microseconds) gives:
/// whole milliseconds, zero when the acknowledgment precedes the send,
/// clamped to `[1, 60000]`.
pub open spec fn rtt_sample(send: u64, ack: u64) -> u32 {
    let micros = if ack >= send { ack - send } else { 0 };
    clamp(micros / 1000, RTT_MIN_MS as int, RTT_MAX_MS as int) as u32
}

/// `|SRTT - R|` as the estimator computes it: both are read as `i32` and
/// the magnitude of their difference is taken.
pub open spec fn rtt_variation(srtt: u32, sample: u32) -> int {
    let d = (sample as i32) as int - (srtt as i32) as int;
    if d < 0 {
        -d
    } else {
        d
    }
}

/// The difference the variation is taken of fits an `i32`.
pub open spec fn variation_fits(srtt: u32, sample: u32) -> bool {
    let d = (sample as i32) as int - (srtt as i32) as int;
    i32::MIN <= d <= i32::MAX
}

/// Smoothed RTT after a sample.
pub open spec fn next_srtt(first: bool, srtt: u32, sample: u32) -> u32 {
    if first {
        sample
    } else {
        ((7 * srtt + sample) / 8) as u32
    }
}

/// RTT variation after a sample.
pub open spec fn next_rttvar(first: bool, srtt: u32, rttvar: u32, sample: u32) -> u32 {
    if first {
        sample / 2
    } else {
        ((3 * rttvar + rtt_variation(srtt, sample)) / 4) as u32
    }
}

/// `SRTT + max(G, 4 RTTVAR)` before clamping, the multiple saturated at the largest `u32`.
pub open spec fn raw_rto(srtt: u32, rttvar: u32) -> int {
    let k = if 4 * rttvar > u32::MAX { u32::MAX as int } else { 4 * rttvar };
    srtt + if k > RTT_G { k } else { RTT_G as int }
}

/// The retransmission timeout of an estimate: `SRTT + max(G, 4 RTTVAR)` in `[1000, 60000]`.
pub open spec fn rto_of(srtt: u32, rttvar: u32) -> u32 {
    clamp(raw_rto(srtt, rttvar), MIN_RETRANSMISSION_TIMEOUT_MS as int, MAX_RETRANSMISSION_TIMEOUT_MS as int) as u32
}

/// The timeout after a retransmission timeout: doubled, at most 60000.
pub open spec fn backed_off(rto: u32) -> u32 {
    if 2 * rto > MAX_RETRANSMISSION_TIMEOUT_MS {
        MAX_RETRANSMISSION_TIMEOUT_MS
    } else {
        (2 * rto) as u32
    }
}

/// Whether the estimator can take `sample` without an arithmetic overflow.
pub open spec fn sample_accepted(first: bool, srtt: u32, rttvar: u32, sample: u32) -> bool {
    &&& (!first ==> variation_fits(srtt, sample))
    &&& raw_rto(next_srtt(first, srtt, sample), next_rttvar(first, srtt, rttvar, sample)) <= u32::MAX
}

impl RtoState {
    pub closed spec fn srtt(&self) -> u32 {
        self.rtt_srtt
    }

    pub closed spec fn rttvar(&self) -> u32 {
        self.rtt_rttvar
    }

    pub closed spec fn rto(&self) -> u32 {
        self.rtt_rto
    }

    pub closed spec fn first(&self) -> bool {
        self.first_measurement
    }

    pub closed spec fn count(&self) -> u64 {
        self.measurement_count
    }

    pub closed spec fn last_time(&self) -> u64 {
        self.last_measurement_time
    }

    /// The timeout always lies in `[1000, 60000]`.
    pub open spec fn wf(&self) -> bool {
        MIN_RETRANSMISSION_TIMEOUT_MS <= self.rto() <= MAX_RETRANSMISSION_TIMEOUT_MS
    }

    /// Estimates of one second, variation of half a second, no measurement yet.
    pub fn new() -> (r: RtoState)
        ensures
            r.wf(),
            r.srtt() == 1000,
            r.rttvar() == 500,
            r.rto() == 1000,
            r.first(),
            r.count() == 0,
            r.last_time() == 0,
    {
        RtoState {
            rtt_srtt: RTT_INITIAL_MS,
            rtt_rttvar: RTT_INITIAL_MS / 2,
            rtt_rto: RTT_INITIAL_MS,
            first_measurement: true,
            last_measurement_time: 0,
            measurement_count: 0,
        }
    }

    /// Turns a send and an acknowledgment time into a sample and records the measurement.
    pub fn measure_rtt(&mut self, send_time: MicrosecondTimestamp, ack_time: MicrosecondTimestamp) -> (r: u32)
        ensures
            r == rtt_sample(send_time.0, ack_time.0),
            RTT_MIN_MS <= r <= RTT_MAX_MS,
            final(self).last_time() == ack_time.0,
            final(self).count() == (old(self).count() + 1) % 0x1_0000_0000_0000_0000,
            final(self).srtt() == old(self).srtt(),
            final(self).rttvar() == old(self).rttvar(),
            final(self).rto() == old(self).rto(),
            final(self).first() == old(self).first(),
    {
        let micros = if ack_time.0 >= send_time.0 { ack_time.0 - send_time.0 } else { 0 };
        let ms = micros / 1000;
        let sample: u32 = if ms < RTT_MIN_MS as u64 {
            RTT_MIN_MS
        } else if ms > RTT_MAX_MS as u64 {
            RTT_MAX_MS
        } else {
            ms as u32
        };
        self.last_measurement_time = ack_time.0;
        self.measurement_count = self.measurement_count.wrapping_add(1);
        sample
    }

    /// Takes a sample into the estimates (the first sample sets them) and
    /// returns the new timeout in milliseconds.
    pub fn update_rto_with_measurement(&mut self, rtt_sample_ms: u32) -> (r: u64)
        requires
            sample_accepted(old(self).first(), old(self).srtt(), old(self).rttvar(), rtt_sample_ms),
        ensures
            final(self).wf(),
            !final(self).first(),
            final(self).srtt() == next_srtt(old(self).first(), old(self).srtt(), rtt_sample_ms),
            final(self).rttvar() == next_rttvar(old(self).first(), old(self).srtt(), old(self).rttvar(), rtt_sample_ms),
            final(self).rto() == rto_of(final(self).srtt(), final(self).rttvar()),
            r == final(self).rto(),
            final(self).count() == old(self).count(),
            final(self).last_time() == old(self).last_time(),
    {
        if self.first_measurement {
            self.first_measurement = false;
            self.rtt_srtt = rtt_sample_ms;
            self.rtt_rttvar = rtt_sample_ms / 2;
        } else {
            let current_srtt = self.rtt_srtt;
            let d: i32 = (rtt_sample_ms as i32) - (current_srtt as i32);
            let variation: u64 = if d < 0 { (-(d as i64)) as u64 } else { d as u64 };
            let new_rttvar = ((3 * (self.rtt_rttvar as u64) + variation) / 4) as u32;
            let new_srtt = ((7 * (current_srtt as u64) + rtt_sample_ms as u64) / 8) as u32;
            self.rtt_rttvar = new_rttvar;
            self.rtt_srtt = new_srtt;
        }
        let srtt = self.rtt_srtt;
        let rttvar = self.rtt_rttvar;
        let k: u32 = if (rttvar as u64) * 4 > u32::MAX as u64 { u32::MAX } else { rttvar * 4 };
        let term: u32 = if k > RTT_G { k } else { RTT_G };
        let rto_value: u32 = srtt + term;
        let bounded: u32 = if rto_value < MIN_RETRANSMISSION_TIMEOUT_MS {
            MIN_RETRANSMISSION_TIMEOUT_MS
        } else if rto_value > MAX_RETRANSMISSION_TIMEOUT_MS {
            MAX_RETRANSMISSION_TIMEOUT_MS
        } else {
            rto_value
        };
        self.rtt_rto = bounded;
        bounded as u64
    }

    /// Doubles the timeout after a retransmission timeout, up to 60 seconds,
    /// and returns it in milliseconds.
    pub fn handle_retransmission_timeout(&mut self) -> (r: u64)
        requires
            old(self).wf(),
        ensures
            final(self).wf(),
            final(self).rto() == backed_off(old(self).rto()),
            r == final(self).rto(),
            final(self).srtt() == old(self).srtt(),
            final(self).rttvar() == old(self).rttvar(),
            final(self).first() == old(self).first(),
            final(self).count() == old(self).count(),
            final(self).last_time() == old(self).last_time(),
    {
        let doubled = self.rtt_rto * 2;
        let new_rto = if doubled > MAX_RETRANSMISSION_TIMEOUT_MS { MAX_RETRANSMISSION_TIMEOUT_MS } else { doubled };
        self.rtt_rto = new_rto;
        new_rto as u64
    }

    /// The current timeout in milliseconds.
    pub fn get_current_rto(&self) -> (r: u64)
        ensures
            r == self.rto(),
    {
        self.rtt_rto as u64
    }

    /// Back to the initial estimates; the last measurement time is kept.
    pub fn reset_rto_estimates(&mut self)
        ensures
            final(self).wf(),
            final(self).srtt() == 1000,
            final(self).rttvar() == 500,
            final(self).rto() == 1000,
            final(self).first(),
            final(self).count() == 0,
            final(self).last_time() == old(self).last_time(),
    {
        self.rtt_srtt = RTT_INITIAL_MS;
        self.rtt_rttvar = RTT_INITIAL_MS / 2;
        self.rtt_rto = RTT_INITIAL_MS;
        self.first_measurement = true;
        self.measurement_count = 0;
    }

    pub fn get_statistics(&self) -> (r: RtoStatistics)
        ensures
            r.srtt_ms == self.srtt(),
            r.rttvar_ms == self.rttvar(),
            r.rto_ms == self.rto(),
            r.measurement_count == self.count(),
            r.last_measurement_time.0 == self.last_time(),
    {
        RtoStatistics {
            srtt_ms: self.rtt_srtt,
            rttvar_ms: self.rtt_rttvar,
            rto_ms: self.rtt_rto,
            measurement_count: self.measurement_count,
            last_measurement_time: MicrosecondTimestamp::new(self.last_measurement_time),
        }
    }
}

/// Every sample in `[1, 60000]`, the range `measure_rtt` gives, is taken by an
/// estimator whose estimates came from such samples or from the start.
pub proof fn lemma_measured_samples_accepted(first: bool, srtt: u32, rttvar: u32, sample: u32)
    requires
        RTT_MIN_MS <= sample <= RTT_MAX_MS,
        srtt <= RTT_MAX_MS,
        rttvar <= RTT_MAX_MS,
    ensures
        sample_accepted(first, srtt, rttvar, sample),
        next_srtt(first, srtt, sample) <= RTT_MAX_MS,
        next_rttvar(first, srtt, rttvar, sample) <= RTT_MAX_MS,
{
}

/// The retransmission timeout stays within `[1000, 60000]` whatever the samples.
pub proof fn lemma_rto_bounds(srtt: u32, rttvar: u32)
    ensures
        MIN_RETRANSMISSION_TIMEOUT_MS <= rto_of(srtt, rttvar) <= MAX_RETRANSMISSION_TIMEOUT_MS,
{
}

/// Repeated retransmission timeouts double the timeout until it reaches 60
/// seconds and keep it there.
pub proof fn lemma_backoff_reaches_cap(rto: u32)
    requires
        MIN_RETRANSMISSION_TIMEOUT_MS <= rto <= MAX_RETRANSMISSION_TIMEOUT_MS,
    ensures
        backed_off(rto) >= rto,
        backed_off(rto) == MAX_RETRANSMISSION_TIMEOUT_MS || backed_off(rto) == 2 * rto,
        rto == MAX_RETRANSMISSION_TIMEOUT_MS ==> backed_off(rto) == rto,
{
}

// ---------------------------------------------------------------------------
// Packet timing and events
// ---------------------------------------------------------------------------

/// Send time and retries of a packet awaiting acknowledgment.
#[derive(Clone, Copy, Debug)]
pub struct PacketTiming {
    pub packet_id: PacketId,
    pub send_time: MicrosecondTimestamp,
    pub sequence_number: SequenceNumber,
    pub retransmitted: bool,
    pub retry_count: u32,
}

/// The current time in microseconds since the Unix epoch.
fn now_micros() -> (r: u64) {
    Timestamp::now().as_nanos() / 1000
}

impl PacketTiming {
    /// A packet sent now.
    pub fn new(packet_id: PacketId, sequence_number: SequenceNumber) -> (r: PacketTiming)
        ensures
            r.packet_id == packet_id,
            r.sequence_number == sequence_number,
            !r.retransmitted,
            r.retry_count == 0,
    {
        Self::new_at(packet_id, sequence_number, MicrosecondTimestamp::new(now_micros()))
    }

    /// A packet sent at `now`.
    pub fn new_at(packet_id: PacketId, sequence_number: SequenceNumber, now: MicrosecondTimestamp) -> (r: PacketTiming)
        ensures
            r == (PacketTiming { packet_id, send_time: now, sequence_number, retransmitted: false, retry_count: 0 }),
    {
        PacketTiming { packet_id, send_time: now, sequence_number, retransmitted: false, retry_count: 0 }
    }

    /// Records a retransmission now.
    pub fn mark_retransmitted(&mut self)
        requires
            old(self).retry_count < u32::MAX,
        ensures
            final(self).retransmitted,
            final(self).retry_count == old(self).retry_count + 1,
            final(self).packet_id == old(self).packet_id,
            final(self).sequence_number == old(self).sequence_number,
    {
        let now = MicrosecondTimestamp::new(now_micros());
        self.mark_retransmitted_at(now);
    }

    /// Records a retransmission at `now`.
    pub fn mark_retransmitted_at(&mut self, now: MicrosecondTimestamp)
        requires
            old(self).retry_count < u32::MAX,
        ensures
            *final(self) == after_retransmission(*old(self), now),
    {
        self.retransmitted = true;
        self.send_time = now;
        self.retry_count = self.retry_count + 1;
    }

    /// Whether the packet has been retransmitted as often as allowed.
    pub fn has_exceeded_max_retries(&self) -> (r: bool)
        ensures
            r == (self.retry_count >= MAX_RETRANSMISSION_ATTEMPTS),
    {
        self.retry_count >= MAX_RETRANSMISSION_ATTEMPTS
    }
}

/// Kind of timeout an event is about.
#[derive(Clone, Copy, Debug, PartialEq, Eq, Structural)]
pub enum TimeoutEventType {
    Connection,
    Heartbeat,
    SessionIdle,
    Fragment,
    Retransmission,
    Discovery,
    Recovery,
    WindowUpdate,
    ZeroWindowProbe,
    TimestampReplay,
    Generic,
}

/// How a timeout ended.
#[derive(Clone, Copy, Debug, PartialEq, Eq, Structural)]
pub enum TimeoutOutcome {
    Success,
    Timeout,
    Retry,
    Failure,
    Cancelled,
}

/// A timeout event, for monitoring.
#[derive(Clone, Debug)]
pub struct TimeoutEvent {
    pub event_type: TimeoutEventType,
    pub outcome: TimeoutOutcome,
    pub duration_ms: u64,
    pub timestamp: MicrosecondTimestamp,
    /// The timeout in force when the event was recorded.
    pub rto_value_ms: u32,
    pub connection_id: Option<ConnectionId>,
    pub additional_info: String,
}

impl TimeoutEvent {
    /// An event stamped now.
    pub fn new(
        event_type: TimeoutEventType,
        outcome: TimeoutOutcome,
        duration_ms: u64,
        connection_id: Option<ConnectionId>,
        additional_info: String,
    ) -> (r: TimeoutEvent)
        ensures
            r.event_type == event_type,
            r.outcome == outcome,
            r.duration_ms == duration_ms,
            r.rto_value_ms == 0,
            r.connection_id == connection_id,
            r.additional_info@ == additional_info@,
    {
        Self::new_at(event_type, outcome, duration_ms, connection_id, additional_info, MicrosecondTimestamp::new(now_micros()))
    }

    /// An event stamped `now`; the timeout in force is filled in when it is recorded.
    pub fn new_at(
        event_type: TimeoutEventType,
        outcome: TimeoutOutcome,
        duration_ms: u64,
        connection_id: Option<ConnectionId>,
        additional_info: String,
        now: MicrosecondTimestamp,
    ) -> (r: TimeoutEvent)
        ensures
            r.event_type == event_type,
            r.outcome == outcome,
            r.duration_ms == duration_ms,
            r.timestamp == now,
            r.rto_value_ms == 0,
            r.connection_id == connection_id,
            r.additional_info@ == additional_info@,
    {
        TimeoutEvent {
            event_type,
            outcome,
            duration_ms,
            timestamp: now,
            rto_value_ms: 0,
            connection_id,
            additional_info,
        }
    }
}

/// Kind of recovery operation.
#[derive(Clone, Copy, Debug, PartialEq, Eq, Structural)]
pub enum RecoveryType {
    TimeResync,
    Rekey,
    SequenceRepair,
    Emergency,
}

impl RecoveryType {
    /// How long the recovery may take, in milliseconds.
    pub fn get_timeout_limit(&self) -> (r: u64)
        ensures
            r == match *self {
                RecoveryType::TimeResync => TIME_RESYNC_TIMEOUT_MS,
                RecoveryType::Rekey => REKEY_TIMEOUT_MS,
                RecoveryType::SequenceRepair => SEQUENCE_REPAIR_TIMEOUT_MS,
                RecoveryType::Emergency => EMERGENCY_RECOVERY_TIMEOUT_MS,
            },
    {
        match self {
            RecoveryType::TimeResync => TIME_RESYNC_TIMEOUT_MS,
            RecoveryType::Rekey => REKEY_TIMEOUT_MS,
            RecoveryType::SequenceRepair => SEQUENCE_REPAIR_TIMEOUT_MS,
            RecoveryType::Emergency => EMERGENCY_RECOVERY_TIMEOUT_MS,
        }
    }
}

/// Retry bookkeeping of an operation that timed out.
#[derive(Clone, Debug)]
pub struct TimeoutErrorContext {
    pub error_type: TimeoutEventType,
    pub retry_count: u32,
    pub operation: String,
    pub connection_id: Option<ConnectionId>,
    pub last_error: String,
}

impl TimeoutErrorContext {
    /// No retry yet.
    pub fn new(
        error_type: TimeoutEventType,
        operation: String,
        connection_id: Option<ConnectionId>,
        last_error: String,
    ) -> (r: TimeoutErrorContext)
        ensures
            r.error_type == error_type,
            r.retry_count == 0,
            r.operation@ == operation@,
            r.connection_id == connection_id,
            r.last_error@ == last_error@,
    {
        TimeoutErrorContext { error_type, retry_count: 0, operation, connection_id, last_error }
    }

    pub fn increment_retry(&mut self)
        requires
            old(self).retry_count < u32::MAX,
        ensures
            final(self).retry_count == old(self).retry_count + 1,
            final(self).error_type == old(self).error_type,
            final(self).connection_id == old(self).connection_id,
            final(self).operation@ == old(self).operation@,
            final(self).last_error@ == old(self).last_error@,
    {
        self.retry_count = self.retry_count + 1;
    }

    /// Whether the operation has been retried as often as allowed.
    pub fn has_exceeded_max_retries(&self) -> (r: bool)
        ensures
            r == (self.retry_count >= MAX_RETRY_ATTEMPTS),
    {
        self.retry_count >= MAX_RETRY_ATTEMPTS
    }
}

/// What a timeout calls for.
#[derive(Clone, Debug)]
pub enum TimeoutAction {
    ConnectionEstablishmentTimeout(ConnectionId),
    HeartbeatTimeout(ConnectionId),
    SessionIdleTimeout(ConnectionId),
    ConnectionFailure(ConnectionId, String),
    RetransmitPacket(PacketId),
    RequestFragmentRetransmission(u16),
    InitiateRecovery(ConnectionId, RecoveryType),
    SendZeroWindowProbe(ConnectionId),
    SendWindowProbe(ConnectionId),
}


// ---------------------------------------------------------------------------
// Backoff
// ---------------------------------------------------------------------------

/// `2^n`.
pub open spec fn two_pow(n: nat) -> nat
    decreases n,
{
    if n == 0 {
        1
    } else {
        2 * two_pow((n - 1) as nat)
    }
}

/// `base * 2^retry`, saturated at the largest `u64`.
pub open spec fn exponential_component(retry_count: u32, base_ms: u64) -> u64 {
    if base_ms * two_pow(retry_count as nat) > u64::MAX {
        u64::MAX
    } else {
        (base_ms * two_pow(retry_count as nat)) as u64
    }
}

/// The most jitter a backoff adds: a tenth of the exponential component.
pub open spec fn jitter_range(retry_count: u32, base_ms: u64) -> u64 {
    exponential_component(retry_count, base_ms) / 10
}

/// The backoff for a given jitter: the exponential component plus the jitter,
/// saturated, at most `max_ms`.
pub open spec fn backoff_value(retry_count: u32, base_ms: u64, max_ms: u64, jitter: u64) -> u64 {
    let e = exponential_component(retry_count, base_ms) as int;
    let sum = if e + jitter > u64::MAX { u64::MAX as int } else { e + jitter };
    if sum < max_ms {
        sum as u64
    } else {
        max_ms
    }
}

proof fn lemma_two_pow_grows(n: nat)
    ensures
        two_pow(n) >= 1,
        two_pow(n + 1) == 2 * two_pow(n),
    decreases n,
{
    if n > 0 {
        lemma_two_pow_grows((n - 1) as nat);
    }
}

/// `base * 2^retry`, saturated.
fn exponential_component_of(retry_count: u32, base_ms: u64) -> (r: u64)
    requires
        retry_count < 64,
    ensures
        r == exponential_component(retry_count, base_ms),
{
    let mut acc: u64 = base_ms;
    let mut saturated = false;
    let mut i: u32 = 0;
    assert(two_pow(0) == 1);
    while i < retry_count
        invariant
            i <= retry_count,
            saturated ==> base_ms * two_pow(i as nat) > u64::MAX,
            !saturated ==> acc == base_ms * two_pow(i as nat),
        decreases retry_count - i,
    {
        proof {
            lemma_two_pow_grows(i as nat);
            assert(base_ms * two_pow((i + 1) as nat) == 2 * (base_ms * two_pow(i as nat))) by (nonlinear_arith)
                requires
                    two_pow((i + 1) as nat) == 2 * two_pow(i as nat),
            ;
        }
        if !saturated {
            if acc > u64::MAX / 2 {
                saturated = true;
            } else {
                acc = acc * 2;
            }
        }
        i = i + 1;
    }
    if saturated {
        u64::MAX
    } else {
        acc
    }
}

/// The backoff for a given jitter: the exponential component plus the jitter,
/// saturated, at most `max_timeout_ms`.
pub fn backoff_with_jitter(retry_count: u32, base_timeout_ms: u64, max_timeout_ms: u64, jitter: u64) -> (r: u64)
    requires
        retry_count < 64,
    ensures
        r == backoff_value(retry_count, base_timeout_ms, max_timeout_ms, jitter),
{
    let e = exponential_component_of(retry_count, base_timeout_ms);
    let sum = if e > u64::MAX - jitter { u64::MAX } else { e + jitter };
    if sum < max_timeout_ms {
        sum
    } else {
        max_timeout_ms
    }
}

/// Calls `rand::Rng::gen_range` on the thread's generator with the range
/// `0..=max`, which is never empty: the result is some number from it.
#[verifier::external_body]
fn random_up_to(max: u64) -> (r: u64)
    ensures
        r <= max,
{
    rand::thread_rng().gen_range(0..=max)
}

/// A backoff with random jitter (a larger jitter never gives a shorter backoff).
pub open spec fn backoff_in_range(r: u64, retry_count: u32, base_ms: u64, max_ms: u64) -> bool {
    exists|j: u64| j <= jitter_range(retry_count, base_ms) && r == backoff_value(retry_count, base_ms, max_ms, j)
}

// ---------------------------------------------------------------------------
// The timeout manager
// ---------------------------------------------------------------------------

/// Retransmission timers, RTT measurement, fragment reassembly timeouts and
/// retry backoff. Times are passed in: microseconds since the Unix epoch for
/// send and acknowledgment times and events, milliseconds of a monotonic clock
/// for timers.
pub struct TimeoutManager {
    rto_state: RtoState,
    pending_packets: HashMap<u64, PacketTiming>,
    retransmission_timers: HashMap<u64, u64>,
    retransmission_counts: HashMap<u64, u32>,
    fragment_timeouts: HashMap<u16, u64>,
    timeout_statistics: Vec<TimeoutEvent>,
}

/// Milliseconds elapsed from `from` to `now`, zero when `from` is later.
pub open spec fn since(now: u64, from: u64) -> int {
    if now >= from {
        now - from
    } else {
        0
    }
}

/// The actions a connection's timeouts call for at `now`, in order: an
/// establishment timeout for a connecting connection that started over 30
/// seconds ago; for an established connection whose last heartbeat is over 90
/// seconds old, a heartbeat timeout, or a failure once three heartbeats have
/// failed; a session idle timeout when the last packet is over five minutes old.
pub open spec fn connection_timeout_actions(
    connection_id: ConnectionId,
    state: ConnectionState,
    start: Option<u64>,
    last_heartbeat: Option<u64>,
    last_packet: Option<u64>,
    failures: u32,
    now: u64,
) -> Seq<TimeoutActionKind> {
    let a = if state == ConnectionState::Connecting && (start matches Some(t) && since(now, t) > CONNECTION_TIMEOUT_MS) {
        seq![TimeoutActionKind::ConnectionEstablishmentTimeout]
    } else {
        Seq::empty()
    };
    let b = if state == ConnectionState::Established && (last_heartbeat matches Some(t) && since(now, t)
        > HEARTBEAT_TIMEOUT_MS) {
        if failures < MAX_HEARTBEAT_FAILURES {
            seq![TimeoutActionKind::HeartbeatTimeout]
        } else {
            seq![TimeoutActionKind::ConnectionFailure]
        }
    } else {
        Seq::empty()
    };
    let c = if last_packet matches Some(t) && since(now, t) > SESSION_IDLE_TIMEOUT_MS {
        seq![TimeoutActionKind::SessionIdleTimeout]
    } else {
        Seq::empty()
    };
    a + b + c
}

/// The kind of a timeout action.
#[derive(Clone, Copy, Debug, PartialEq, Eq, Structural)]
pub enum TimeoutActionKind {
    ConnectionEstablishmentTimeout,
    HeartbeatTimeout,
    SessionIdleTimeout,
    ConnectionFailure,
    RetransmitPacket,
    RequestFragmentRetransmission,
    InitiateRecovery,
    SendZeroWindowProbe,
    SendWindowProbe,
}

/// The kind of `a`, and that it is about connection `c`.
pub open spec fn action_is(a: TimeoutAction, kind: TimeoutActionKind, c: ConnectionId) -> bool {
    match a {
        TimeoutAction::ConnectionEstablishmentTimeout(x) => kind == TimeoutActionKind::ConnectionEstablishmentTimeout && x == c,
        TimeoutAction::HeartbeatTimeout(x) => kind == TimeoutActionKind::HeartbeatTimeout && x == c,
        TimeoutAction::SessionIdleTimeout(x) => kind == TimeoutActionKind::SessionIdleTimeout && x == c,
        TimeoutAction::ConnectionFailure(x, _) => kind == TimeoutActionKind::ConnectionFailure && x == c,
        _ => false,
    }
}

/// The start of the month a packet's timestamp counts from: the current time
/// less whole days, taken as thirty to a month.
pub open spec fn month_start(now_ms: u64) -> int {
    now_ms - ((now_ms / 86_400_000) % 30) * 86_400_000
}

/// What an event records: its type, outcome, duration in milliseconds, time
/// stamp, the timeout in force, its connection, and its text.
pub type EventRecord = (TimeoutEventType, TimeoutOutcome, u64, MicrosecondTimestamp, u32, Option<ConnectionId>, Seq<char>);

/// The record of the event `e`.
pub open spec fn event_view(e: TimeoutEvent) -> EventRecord {
    (e.event_type, e.outcome, e.duration_ms, e.timestamp, e.rto_value_ms, e.connection_id, e.additional_info@)
}

/// The record `v` with the timeout in force `rto`.
pub open spec fn with_rto(v: EventRecord, rto: u32) -> EventRecord {
    (v.0, v.1, v.2, v.3, rto, v.5, v.6)
}

/// The log `s` after `e` was recorded: appended, and the oldest dropped once
/// more than 1000 are kept.
pub open spec fn logged(s: Seq<EventRecord>, e: EventRecord) -> Seq<EventRecord> {
    if s.len() >= 1000 {
        s.push(e).subrange(1, s.len() + 1int)
    } else {
        s.push(e)
    }
}

/// The log `s` after the events `es` were recorded in order.
pub open spec fn logged_all(s: Seq<EventRecord>, es: Seq<EventRecord>) -> Seq<EventRecord>
    decreases es.len(),
{
    if es.len() == 0 {
        s
    } else {
        logged(logged_all(s, es.drop_last()), es.last())
    }
}

/// The events the timeouts of `connection_timeout_actions` record, one for
/// each action and in the same order, stamped `now_us` with the timeout `rto`
/// in force: the time elapsed, and a text that names the timeout.
pub open spec fn connection_timeout_events(
    connection_id: ConnectionId,
    state: ConnectionState,
    start: Option<u64>,
    last_heartbeat: Option<u64>,
    last_packet: Option<u64>,
    failures: u32,
    now: u64,
    now_us: u64,
    rto: u32,
) -> Seq<EventRecord> {
    let stamp = MicrosecondTimestamp(now_us);
    let cid = Some(connection_id);
    let a = if state == ConnectionState::Connecting && (start matches Some(t) && since(now, t) > CONNECTION_TIMEOUT_MS) {
        seq![(TimeoutEventType::Connection, TimeoutOutcome::Timeout, since(now, start->Some_0) as u64, stamp, rto, cid,
            "Connection establishment timeout"@)]
    } else {
        Seq::empty()
    };
    let b = if state == ConnectionState::Established && (last_heartbeat matches Some(t) && since(now, t)
        > HEARTBEAT_TIMEOUT_MS) {
        seq![(
            TimeoutEventType::Heartbeat,
            if failures < MAX_HEARTBEAT_FAILURES { TimeoutOutcome::Retry } else { TimeoutOutcome::Failure },
            since(now, last_heartbeat->Some_0) as u64,
            stamp,
            rto,
            cid,
            "Heartbeat timeout (failures: "@ + decimal(failures as nat) + ")"@,
        )]
    } else {
        Seq::empty()
    };
    let c = if last_packet matches Some(t) && since(now, t) > SESSION_IDLE_TIMEOUT_MS {
        seq![(TimeoutEventType::SessionIdle, TimeoutOutcome::Timeout, since(now, last_packet->Some_0) as u64, stamp, rto,
            cid, "Session idle timeout"@)]
    } else {
        Seq::empty()
    };
    a + b + c
}

/// The events that the reassembly timeouts of the fragments `fs` record, in
/// the same order, stamped `now_us` with the timeout `rto` in force.
pub open spec fn fragment_timeout_events(fs: Seq<u16>, now_us: u64, rto: u32) -> Seq<EventRecord> {
    fs.map_values(
        |f: u16|
            (
                TimeoutEventType::Fragment,
                TimeoutOutcome::Timeout,
                FRAGMENT_TIMEOUT_MS,
                MicrosecondTimestamp(now_us),
                rto,
                None::<ConnectionId>,
                "Fragment "@ + decimal(f as nat) + " reassembly timeout"@,
            ),
    )
}

/// The events of `s` stamped at `cutoff` (microseconds) or later, in order.
pub open spec fn recent_events(s: Seq<TimeoutEvent>, cutoff: u64) -> Seq<TimeoutEvent>
    decreases s.len(),
{
    if s.len() == 0 {
        s
    } else if s.last().timestamp.0 >= cutoff {
        recent_events(s.drop_last(), cutoff).push(s.last())
    } else {
        recent_events(s.drop_last(), cutoff)
    }
}

/// A copy of an event.
fn copy_timeout_event(e: &TimeoutEvent) -> (r: TimeoutEvent)
    ensures
        r == *e,
{
    TimeoutEvent {
        event_type: e.event_type,
        outcome: e.outcome,
        duration_ms: e.duration_ms,
        timestamp: e.timestamp,
        rto_value_ms: e.rto_value_ms,
        connection_id: e.connection_id,
        additional_info: e.additional_info.clone(),
    }
}

/// The timing `t` after a retransmission recorded at `now`: marked
/// retransmitted, sent at `now`, with one more retry.
pub open spec fn after_retransmission(t: PacketTiming, now: MicrosecondTimestamp) -> PacketTiming {
    PacketTiming { retransmitted: true, send_time: now, retry_count: (t.retry_count + 1) as u32, ..t }
}

/// The timing `t` after retransmissions recorded at the times `at`, in order.
pub open spec fn after_retransmissions(t: PacketTiming, at: Seq<MicrosecondTimestamp>) -> PacketTiming
    decreases at.len(),
{
    if at.len() == 0 {
        t
    } else {
        after_retransmission(after_retransmissions(t, at.drop_last()), at.last())
    }
}

/// A packet sent and then retransmitted `k` times has a retry count of `k`,
/// is marked retransmitted exactly when `k > 0`, keeps its identifier and
/// sequence number, and has exceeded its retries exactly when `k` has reached
/// the maximum number of retransmissions.
pub proof fn lemma_retransmission_count(
    packet_id: PacketId,
    sequence_number: SequenceNumber,
    sent: MicrosecondTimestamp,
    at: Seq<MicrosecondTimestamp>,
)
    requires
        at.len() < u32::MAX,
    ensures
        ({
            let t = after_retransmissions(PacketTiming::new_spec(packet_id, sequence_number, sent), at);
            &&& t.retry_count == at.len()
            &&& t.retransmitted == (at.len() > 0)
            &&& t.packet_id == packet_id
            &&& t.sequence_number == sequence_number
            &&& (t.retry_count >= MAX_RETRANSMISSION_ATTEMPTS) == (at.len() >= MAX_RETRANSMISSION_ATTEMPTS)
        }),
    decreases at.len(),
{
    if at.len() > 0 {
        lemma_retransmission_count(packet_id, sequence_number, sent, at.drop_last());
    }
}

/// Retransmission is bounded: no packet a well-formed timeout manager tracks
/// has been retransmitted more than the allowed number of times; a timer
/// expiring for a packet retransmitted that often drops it instead (see
/// `handle_retransmission_timer_expiry_at`).
pub proof fn lemma_retries_bounded(m: TimeoutManager)
    requires
        m.wf(),
    ensures
        forall|k: u64| #[trigger] m.pending().contains_key(k) ==> m.pending()[k].retry_count
            <= MAX_RETRANSMISSION_ATTEMPTS,
{
}

impl TimeoutManager {
    pub closed spec fn rto(&self) -> RtoState {
        self.rto_state
    }

    pub closed spec fn pending(&self) -> Map<u64, PacketTiming> {
        self.pending_packets@
    }

    pub closed spec fn timers(&self) -> Map<u64, u64> {
        self.retransmission_timers@
    }

    pub closed spec fn fragment_deadlines(&self) -> Map<u16, u64> {
        self.fragment_timeouts@
    }

    pub closed spec fn events(&self) -> Seq<TimeoutEvent> {
        self.timeout_statistics@
    }

    /// The records of the events kept, oldest first.
    pub open spec fn event_log(&self) -> Seq<EventRecord> {
        self.events().map_values(|e: TimeoutEvent| event_view(e))
    }

    /// The estimator only ever saw measured samples, and no pending packet has
    /// been retransmitted as often as allowed; at most 1000 events are kept.
    pub closed spec fn wf(&self) -> bool {
        &&& self.rto_state.wf()
        &&& self.rto_state.srtt() <= RTT_MAX_MS
        &&& self.rto_state.rttvar() <= RTT_MAX_MS
        &&& forall|k: u64| #[trigger] self.pending_packets@.contains_key(k)
            ==> self.pending_packets@[k].retry_count <= MAX_RETRANSMISSION_ATTEMPTS
        &&& self.timeout_statistics@.len() <= 1000
    }

    pub fn new() -> (r: TimeoutManager)
        ensures
            r.wf(),
            r.pending() == Map::<u64, PacketTiming>::empty(),
            r.timers() == Map::<u64, u64>::empty(),
            r.fragment_deadlines() == Map::<u16, u64>::empty(),
            r.events().len() == 0,
            r.rto().rto() == 1000,
    {
        TimeoutManager {
            rto_state: RtoState::new(),
            pending_packets: HashMap::new(),
            retransmission_timers: HashMap::new(),
            retransmission_counts: HashMap::new(),
            fragment_timeouts: HashMap::new(),
            timeout_statistics: Vec::new(),
        }
    }

    /// Records an event with the timeout in force, keeping the last 1000.
    fn track_timeout_event(&mut self, event: TimeoutEvent)
        requires
            old(self).wf(),
        ensures
            final(self).wf(),
            final(self).rto() == old(self).rto(),
            final(self).pending() == old(self).pending(),
            final(self).timers() == old(self).timers(),
            final(self).fragment_deadlines() == old(self).fragment_deadlines(),
            final(self).event_log() == logged(old(self).event_log(), with_rto(event_view(event), old(self).rto().rto() as u32)),
    {
        let ghost log0 = self.event_log();
        let mut e = event;
        e.rto_value_ms = self.rto_state.get_current_rto() as u32;
        let ghost rec = event_view(e);
        self.timeout_statistics.push(e);
        assert(self.event_log() =~= log0.push(rec));
        if self.timeout_statistics.len() > 1000 {
            self.timeout_statistics.remove(0);
            assert(self.event_log() =~= log0.push(rec).subrange(1, log0.len() + 1int));
        }
    }

    /// Tracks a packet sent at `now_us` and arms its timer at the current timeout.
    pub fn send_packet_with_timing_at(&mut self, packet_id: PacketId, sequence_number: SequenceNumber, now_us: u64, now_ms: u64) -> (r: Result<(), ProtocolError>)
        requires
            old(self).wf(),
            now_ms <= u64::MAX - MAX_RETRANSMISSION_TIMEOUT_MS,
        ensures
            r is Ok,
            final(self).wf(),
            final(self).pending() == old(self).pending().insert(
                packet_id.0,
                PacketTiming::new_spec(packet_id, sequence_number, MicrosecondTimestamp(now_us)),
            ),
            final(self).timers() == old(self).timers().insert(packet_id.0, (now_ms + old(self).rto().rto()) as u64),
            final(self).rto() == old(self).rto(),
    {
        let timing = PacketTiming::new_at(packet_id, sequence_number, MicrosecondTimestamp::new(now_us));
        self.pending_packets.insert(packet_id.0, timing);
        let timeout = self.rto_state.get_current_rto();
        self.retransmission_timers.insert(packet_id.0, now_ms + timeout);
        Ok(())
    }

    /// Handles a retransmission timer that expired at `now`: a packet no longer
    /// pending needs nothing; one retransmitted as often as allowed is dropped
    /// and reported as failed; any other is retransmitted with the timeout
    /// doubled. Returns whether to retransmit.
    pub fn handle_retransmission_timer_expiry_at(&mut self, packet_id: PacketId, now_us: u64, now_ms: u64) -> (r: Result<bool, ProtocolError>)
        requires
            old(self).wf(),
            now_ms <= u64::MAX - MAX_RETRANSMISSION_TIMEOUT_MS,
        ensures
            final(self).wf(),
            !old(self).pending().contains_key(packet_id.0) ==> r == Ok::<bool, ProtocolError>(false)
                && final(self).pending() == old(self).pending() && final(self).timers() == old(self).timers()
                && final(self).rto() == old(self).rto(),
            old(self).pending().contains_key(packet_id.0) && old(self).pending()[packet_id.0].retry_count
                >= MAX_RETRANSMISSION_ATTEMPTS ==> r == Ok::<bool, ProtocolError>(false)
                && final(self).pending() == old(self).pending().remove(packet_id.0)
                && final(self).rto() == old(self).rto(),
            old(self).pending().contains_key(packet_id.0) && old(self).pending()[packet_id.0].retry_count
                < MAX_RETRANSMISSION_ATTEMPTS ==> r == Ok::<bool, ProtocolError>(true)
                && final(self).rto().rto() == backed_off(old(self).rto().rto())
                && final(self).pending() == old(self).pending().insert(
                packet_id.0,
                PacketTiming {
                    retransmitted: true,
                    send_time: MicrosecondTimestamp(now_us),
                    retry_count: (old(self).pending()[packet_id.0].retry_count + 1) as u32,
                    ..old(self).pending()[packet_id.0]
                },
            ) && final(self).timers() == old(self).timers().insert(
                packet_id.0,
                (now_ms + backed_off(old(self).rto().rto())) as u64,
            ),
            !old(self).pending().contains_key(packet_id.0) ==> final(self).event_log() == old(self).event_log(),
            old(self).pending().contains_key(packet_id.0) && old(self).pending()[packet_id.0].retry_count
                >= MAX_RETRANSMISSION_ATTEMPTS ==> final(self).event_log() == logged(
                old(self).event_log(),
                (TimeoutEventType::Retransmission, TimeoutOutcome::Failure, 0u64, MicrosecondTimestamp(now_us),
                    old(self).rto().rto() as u32, None::<ConnectionId>,
                    "Max retries exceeded for packet "@ + decimal(packet_id.0 as nat)),
            ),
            old(self).pending().contains_key(packet_id.0) && old(self).pending()[packet_id.0].retry_count
                < MAX_RETRANSMISSION_ATTEMPTS ==> final(self).event_log() == logged(
                old(self).event_log(),
                (TimeoutEventType::Retransmission, TimeoutOutcome::Retry, 0u64, MicrosecondTimestamp(now_us),
                    backed_off(old(self).rto().rto()) as u32, None::<ConnectionId>,
                    "Retransmitting packet "@ + decimal(packet_id.0 as nat)),
            ),
    {
        let key = packet_id.0;
        let timing = match self.pending_packets.get(&key) {
            Some(t) => *t,
            None => return Ok(false),
        };
        self.pending_packets.remove(&key);
        let count = match self.retransmission_counts.get(&key) {
            Some(c) => c.wrapping_add(1),
            None => 1,
        };
        self.retransmission_counts.insert(key, count);
        if timing.has_exceeded_max_retries() {
            let event = TimeoutEvent::new_at(
                TimeoutEventType::Retransmission,
                TimeoutOutcome::Failure,
                0,
                None,
                with_decimal("Max retries exceeded for packet ", key),
                MicrosecondTimestamp::new(now_us),
            );
            self.track_timeout_event(event);
            return Ok(false);
        }
        let new_rto = self.rto_state.handle_retransmission_timeout();
        let mut t = timing;
        t.mark_retransmitted_at(MicrosecondTimestamp::new(now_us));
        self.pending_packets.insert(key, t);
        self.retransmission_timers.insert(key, now_ms + new_rto);
        let event = TimeoutEvent::new_at(
            TimeoutEventType::Retransmission,
            TimeoutOutcome::Retry,
            0,
            None,
            with_decimal("Retransmitting packet ", key),
            MicrosecondTimestamp::new(now_us),
        );
        self.track_timeout_event(event);
        Ok(true)
    }

    /// The packets whose retransmission timer has expired at `now_ms`, in no particular order.
    pub fn check_retransmission_timers(&self, now_ms: u64) -> (r: Vec<PacketId>)
        ensures
            forall|j: int| 0 <= j < r@.len() ==> self.timers().contains_key(#[trigger] r@[j].0)
                && self.timers()[r@[j].0] <= now_ms,
            forall|k: u64| #[trigger] self.timers().contains_key(k) && self.timers()[k] <= now_ms
                ==> r@.contains(PacketId(k)),
    {
        let mut out: Vec<PacketId> = Vec::new();
        let ghost m = self.retransmission_timers@;
        for (k, v) in it: self.retransmission_timers.iter()
            invariant
                m == self.retransmission_timers@,
                it.seq() == spec_hash_map_iter(&self.retransmission_timers).remaining(),
                forall|j: int| 0 <= j < out@.len() ==> m.contains_key(#[trigger] out@[j].0) && m[out@[j].0] <= now_ms,
                forall|j: int| 0 <= j < it.index() && *it.seq()[j].1 <= now_ms ==> out@.contains(PacketId(*it.seq()[j].0)),
        {
            let ghost idx = it.index();
            proof {
                let s = spec_hash_map_iter(&self.retransmission_timers).remaining();
                assert(m.contains_key(*s[idx].0) && m[*s[idx].0] == *s[idx].1);
            }
            let ghost prev = out@;
            if now_ms >= *v {
                out.push(PacketId::new(*k));
            }
            proof {
                assert forall|j: int| 0 <= j < idx + 1 && *it.seq()[j].1 <= now_ms implies out@.contains(PacketId(*it.seq()[j].0)) by {
                    if j < idx {
                        assert(prev.contains(PacketId(*it.seq()[j].0)));
                        let w = choose|w: int| 0 <= w < prev.len() && prev[w] == PacketId(*it.seq()[j].0);
                        assert(out@[w] == PacketId(*it.seq()[j].0));
                    } else {
                        assert(out@[out@.len() - 1] == PacketId(*it.seq()[j].0));
                    }
                }
            }
        }
        proof {
            let s = spec_hash_map_iter(&self.retransmission_timers).remaining();
            assert forall|k: u64| #[trigger] self.timers().contains_key(k) && self.timers()[k] <= now_ms implies out@.contains(PacketId(k)) by {
                assert(s.contains((&k, &m[k])));
                let j = choose|j: int| 0 <= j < s.len() && s[j] == (&k, &m[k]);
                assert(*s[j].0 == k && *s[j].1 <= now_ms);
            }
        }
        out
    }

    /// Decides a connection's timeouts at `now_ms` (see `connection_timeout_actions`)
    /// and records an event for each.
    pub fn manage_connection_timeouts_at(
        &mut self,
        connection_id: ConnectionId,
        connection_state: ConnectionState,
        connection_start_time: Option<u64>,
        last_heartbeat_time: Option<u64>,
        last_packet_time: Option<u64>,
        consecutive_heartbeat_failures: u32,
        now_ms: u64,
        now_us: u64,
    ) -> (r: Result<Vec<TimeoutAction>, ProtocolError>)
        requires
            old(self).wf(),
        ensures
            final(self).wf(),
            final(self).rto() == old(self).rto(),
            final(self).pending() == old(self).pending(),
            final(self).timers() == old(self).timers(),
            r is Ok,
            ({
                let kinds = connection_timeout_actions(
                    connection_id,
                    connection_state,
                    connection_start_time,
                    last_heartbeat_time,
                    last_packet_time,
                    consecutive_heartbeat_failures,
                    now_ms,
                );
                &&& r->Ok_0@.len() == kinds.len()
                &&& forall|j: int| 0 <= j < kinds.len() ==> action_is(#[trigger] r->Ok_0@[j], kinds[j], connection_id)
            }),
            final(self).event_log() == logged_all(
                old(self).event_log(),
                connection_timeout_events(
                    connection_id,
                    connection_state,
                    connection_start_time,
                    last_heartbeat_time,
                    last_packet_time,
                    consecutive_heartbeat_failures,
                    now_ms,
                    now_us,
                    old(self).rto().rto() as u32,
                ),
            ),
    {
        let ghost log0 = self.event_log();
        let ghost rto = self.rto().rto() as u32;
        let ghost mut recs: Seq<EventRecord> = Seq::empty();
        assert(self.event_log() == logged_all(log0, recs));
        let ghost kinds = connection_timeout_actions(
            connection_id,
            connection_state,
            connection_start_time,
            last_heartbeat_time,
            last_packet_time,
            consecutive_heartbeat_failures,
            now_ms,
        );
        let mut actions: Vec<TimeoutAction> = Vec::new();
        let mut kinds_done: Ghost<Seq<TimeoutActionKind>> = Ghost(Seq::empty());
        if connection_state == ConnectionState::Connecting {
            match connection_start_time {
                Some(t) => {
                    let elapsed = if now_ms >= t { now_ms - t } else { 0 };
                    if elapsed > CONNECTION_TIMEOUT_MS {
                        actions.push(TimeoutAction::ConnectionEstablishmentTimeout(connection_id));
                        proof { kinds_done@ = kinds_done@.push(TimeoutActionKind::ConnectionEstablishmentTimeout); }
                        let info = "Connection establishment timeout".to_owned();
                        let e = TimeoutEvent::new_at(TimeoutEventType::Connection, TimeoutOutcome::Timeout, elapsed, Some(connection_id), info, MicrosecondTimestamp::new(now_us));
                        let ghost rec = with_rto(event_view(e), rto);
                        self.track_timeout_event(e);
                        proof {
                            assert(recs.push(rec).drop_last() =~= recs);
                            recs = recs.push(rec);
                            assert(self.event_log() == logged_all(log0, recs));
                        }
                    }
                },
                None => {},
            }
        }
        if connection_state == ConnectionState::Established {
            match last_heartbeat_time {
                Some(t) => {
                    let elapsed = if now_ms >= t { now_ms - t } else { 0 };
                    if elapsed > HEARTBEAT_TIMEOUT_MS {
                        let outcome = if consecutive_heartbeat_failures < MAX_HEARTBEAT_FAILURES {
                            actions.push(TimeoutAction::HeartbeatTimeout(connection_id));
                            proof { kinds_done@ = kinds_done@.push(TimeoutActionKind::HeartbeatTimeout); }
                            TimeoutOutcome::Retry
                        } else {
                            actions.push(TimeoutAction::ConnectionFailure(connection_id, "Heartbeat timeout".to_string()));
                            proof { kinds_done@ = kinds_done@.push(TimeoutActionKind::ConnectionFailure); }
                            TimeoutOutcome::Failure
                        };
                        let info = with_decimal("Heartbeat timeout (failures: ", consecutive_heartbeat_failures as u64).concat(")");
                        let e = TimeoutEvent::new_at(TimeoutEventType::Heartbeat, outcome, elapsed, Some(connection_id), info, MicrosecondTimestamp::new(now_us));
                        let ghost rec = with_rto(event_view(e), rto);
                        self.track_timeout_event(e);
                        proof {
                            assert(recs.push(rec).drop_last() =~= recs);
                            recs = recs.push(rec);
                            assert(self.event_log() == logged_all(log0, recs));
                        }
                    }
                },
                None => {},
            }
        }
        match last_packet_time {
            Some(t) => {
                let elapsed = if now_ms >= t { now_ms - t } else { 0 };
                if elapsed > SESSION_IDLE_TIMEOUT_MS {
                    actions.push(TimeoutAction::SessionIdleTimeout(connection_id));
                    proof { kinds_done@ = kinds_done@.push(TimeoutActionKind::SessionIdleTimeout); }
                    let info = "Session idle timeout".to_owned();
                    let e = TimeoutEvent::new_at(TimeoutEventType::SessionIdle, TimeoutOutcome::Timeout, elapsed, Some(connection_id), info, MicrosecondTimestamp::new(now_us));
                    let ghost rec = with_rto(event_view(e), rto);
                    self.track_timeout_event(e);
                    proof {
                        assert(recs.push(rec).drop_last() =~= recs);
                        recs = recs.push(rec);
                        assert(self.event_log() == logged_all(log0, recs));
                    }
                }
            },
            None => {},
        }
        proof {
            assert(kinds_done@ =~= kinds);
            assert(actions@.len() == kinds.len());
            assert(recs =~= connection_timeout_events(
                connection_id,
                connection_state,
                connection_start_time,
                last_heartbeat_time,
                last_packet_time,
                consecutive_heartbeat_failures,
                now_ms,
                now_us,
                rto,
            ));
        }
        Ok(actions)
    }

    /// Arms the reassembly timeout of a fragment at `now_ms`.
    pub fn set_fragment_reassembly_timeout_at(&mut self, fragment_id: u16, now_ms: u64)
        requires
            old(self).wf(),
            now_ms <= u64::MAX - FRAGMENT_TIMEOUT_MS,
        ensures
            final(self).wf(),
            final(self).fragment_deadlines() == old(self).fragment_deadlines().insert(fragment_id, (now_ms + FRAGMENT_TIMEOUT_MS) as u64),
            final(self).pending() == old(self).pending(),
            final(self).timers() == old(self).timers(),
    {
        self.fragment_timeouts.insert(fragment_id, now_ms + FRAGMENT_TIMEOUT_MS);
    }

    /// Disarms the reassembly timeout of a fragment.
    pub fn cancel_fragment_timeout(&mut self, fragment_id: u16)
        requires
            old(self).wf(),
        ensures
            final(self).wf(),
            final(self).fragment_deadlines() == old(self).fragment_deadlines().remove(fragment_id),
            final(self).pending() == old(self).pending(),
            final(self).timers() == old(self).timers(),
    {
        self.fragment_timeouts.remove(&fragment_id);
    }

    /// A backoff of `base * 2^retry` milliseconds plus up to ten percent of
    /// random jitter, at most `max_timeout_ms`.
    pub fn calculate_exponential_backoff(&self, retry_count: u32, base_timeout_ms: u64, max_timeout_ms: u64) -> (r: u64)
        requires
            retry_count < 64,
        ensures
            backoff_in_range(r, retry_count, base_timeout_ms, max_timeout_ms),
            r <= max_timeout_ms,
    {
        let e = exponential_component_of(retry_count, base_timeout_ms);
        let range = e / 10;
        let jitter = if range > 0 { random_up_to(range) } else { 0 };
        backoff_with_jitter(retry_count, base_timeout_ms, max_timeout_ms, jitter)
    }

    /// The backoff of a failed operation, with the base and largest timeout of its kind.
    pub fn implement_timeout_backoff(&self, error_context: &TimeoutErrorContext) -> (r: u64)
        requires
            error_context.retry_count < 64,
        ensures
            backoff_in_range(
                r,
                error_context.retry_count,
                backoff_base(error_context.error_type),
                backoff_max(error_context.error_type),
            ),
    {
        match error_context.error_type {
            TimeoutEventType::Connection => self.calculate_exponential_backoff(error_context.retry_count, CONNECTION_TIMEOUT_MS, CONNECTION_TIMEOUT_MS * 4),
            TimeoutEventType::Discovery => self.calculate_exponential_backoff(error_context.retry_count, DISCOVERY_TIMEOUT_MS, MAX_DISCOVERY_TIMEOUT_MS),
            TimeoutEventType::Fragment => self.calculate_exponential_backoff(error_context.retry_count, FRAGMENT_TIMEOUT_MS, FRAGMENT_TIMEOUT_MS * 8),
            TimeoutEventType::Recovery => self.calculate_exponential_backoff(error_context.retry_count, RECOVERY_TIMEOUT_MS, RECOVERY_TIMEOUT_MS * 4),
            _ => self.calculate_exponential_backoff(error_context.retry_count, BASE_TIMEOUT_MS, MAX_GENERIC_TIMEOUT_MS),
        }
    }

    /// Gives up (`None`) once the operation has been retried as often as
    /// allowed, and otherwise returns the backoff before the next retry; either
    /// way an event is recorded.
    pub fn handle_timeout_error_with_backoff_at(&mut self, error_context: TimeoutErrorContext, now_us: u64) -> (r: Result<Option<u64>, ProtocolError>)
        requires
            old(self).wf(),
        ensures
            final(self).wf(),
            final(self).rto() == old(self).rto(),
            final(self).pending() == old(self).pending(),
            final(self).timers() == old(self).timers(),
            error_context.retry_count >= MAX_RETRY_ATTEMPTS ==> r == Ok::<Option<u64>, ProtocolError>(None),
            error_context.retry_count < MAX_RETRY_ATTEMPTS ==> (r matches Ok(Some(b)) && backoff_in_range(
                b,
                error_context.retry_count,
                backoff_base(error_context.error_type),
                backoff_max(error_context.error_type),
            )),
            error_context.retry_count >= MAX_RETRY_ATTEMPTS ==> final(self).event_log() == logged(
                old(self).event_log(),
                (error_context.error_type, TimeoutOutcome::Failure, 0u64, MicrosecondTimestamp(now_us),
                    old(self).rto().rto() as u32, error_context.connection_id,
                    "Maximum retries exceeded for "@ + error_context.operation@),
            ),
            error_context.retry_count < MAX_RETRY_ATTEMPTS ==> (r matches Ok(Some(b)) && final(self).event_log() == logged(
                old(self).event_log(),
                (error_context.error_type, TimeoutOutcome::Retry, b, MicrosecondTimestamp(now_us),
                    old(self).rto().rto() as u32, error_context.connection_id,
                    "Retry "@ + decimal((error_context.retry_count + 1) as nat) + " for "@ + error_context.operation@),
            )),
    {
        if error_context.has_exceeded_max_retries() {
            let info = "Maximum retries exceeded for ".to_owned().concat(error_context.operation.as_str());
            let e = TimeoutEvent::new_at(error_context.error_type, TimeoutOutcome::Failure, 0, error_context.connection_id, info, MicrosecondTimestamp::new(now_us));
            self.track_timeout_event(e);
            return Ok(None);
        }
        let backoff_time = self.implement_timeout_backoff(&error_context);
        let mut ctx = error_context;
        ctx.increment_retry();
        let info = with_decimal("Retry ", ctx.retry_count as u64).concat(" for ").concat(ctx.operation.as_str());
        let e = TimeoutEvent::new_at(ctx.error_type, TimeoutOutcome::Retry, backoff_time, ctx.connection_id, info, MicrosecondTimestamp::new(now_us));
        self.track_timeout_event(e);
        Ok(Some(backoff_time))
    }

    /// Checks a packet timestamp (milliseconds into the month) at `now_ms`:
    /// refused when older than the anti-replay window or more than the drift
    /// tolerance ahead of now.
    pub fn validate_packet_timestamp_timeout_at(&self, packet_timestamp: u64, now_ms: u64) -> (r: Result<(), ProtocolError>)
        requires
            month_start(now_ms) + packet_timestamp <= u64::MAX,
            now_ms + TIME_SYNC_TOLERANCE_MS <= u64::MAX,
        ensures
            since(now_ms, (month_start(now_ms) + packet_timestamp) as u64) > TIMESTAMP_WINDOW_MS
                ==> r matches Err(ProtocolError::InvalidState(_)),
            since(now_ms, (month_start(now_ms) + packet_timestamp) as u64) <= TIMESTAMP_WINDOW_MS
                && packet_timestamp > now_ms + TIME_SYNC_TOLERANCE_MS ==> r matches Err(ProtocolError::InvalidState(_)),
            since(now_ms, (month_start(now_ms) + packet_timestamp) as u64) <= TIMESTAMP_WINDOW_MS
                && packet_timestamp <= now_ms + TIME_SYNC_TOLERANCE_MS ==> r is Ok,
    {
        let day: u64 = 86_400_000;
        let start = now_ms - ((now_ms / day) % 30) * day;
        let reference = start + packet_timestamp;
        let age = if now_ms >= reference { now_ms - reference } else { 0 };
        if age > TIMESTAMP_WINDOW_MS {
            return Err(ProtocolError::InvalidState("Timestamp replay detected".to_string()));
        }
        if packet_timestamp > now_ms + TIME_SYNC_TOLERANCE_MS {
            return Err(ProtocolError::InvalidState("Future timestamp detected".to_string()));
        }
        Ok(())
    }

    /// Handles an acknowledgment of everything up to `ack_sequence` at
    /// `now_us`: each pending packet it covers stops being tracked and its timer
    /// is disarmed; those never retransmitted give an RTT sample (Karn's rule).
    pub fn handle_ack_packet_at(&mut self, ack_sequence: SequenceNumber, now_us: u64) -> (r: Result<(), ProtocolError>)
        requires
            old(self).wf(),
        ensures
            r is Ok,
            final(self).wf(),
            final(self).pending() == old(self).pending().restrict(
                old(self).pending().dom().filter(|k: u64| old(self).pending()[k].sequence_number.0 > ack_sequence.0),
            ),
            forall|k: u64| #[trigger] final(self).timers().contains_key(k) <==> old(self).timers().contains_key(k)
                && !(old(self).pending().contains_key(k) && old(self).pending()[k].sequence_number.0 <= ack_sequence.0),
            forall|k: u64| #[trigger] final(self).timers().contains_key(k) ==> final(self).timers()[k] == old(self).timers()[k],
    {
        let mut acked: Vec<(u64, PacketTiming)> = Vec::new();
        let ghost m = self.pending_packets@;
        for (k, v) in it: self.pending_packets.iter()
            invariant
                m == self.pending_packets@,
                it.seq() == spec_hash_map_iter(&self.pending_packets).remaining(),
                forall|j: int| 0 <= j < acked@.len() ==> m.contains_key(#[trigger] acked@[j].0)
                    && m[acked@[j].0] == acked@[j].1 && acked@[j].1.sequence_number.0 <= ack_sequence.0,
                forall|j: int| 0 <= j < it.index() && (*it.seq()[j].1).sequence_number.0 <= ack_sequence.0
                    ==> exists|w: int| 0 <= w < acked@.len() && #[trigger] acked@[w].0 == *it.seq()[j].0,
        {
            let ghost idx = it.index();
            let ghost prev = acked@;
            proof {
                let s = spec_hash_map_iter(&self.pending_packets).remaining();
                assert(m.contains_key(*s[idx].0) && m[*s[idx].0] == *s[idx].1);
            }
            if v.sequence_number.0 <= ack_sequence.0 {
                acked.push((*k, *v));
            }
            proof {
                assert forall|j: int| 0 <= j < idx + 1 && (*it.seq()[j].1).sequence_number.0 <= ack_sequence.0
                    implies exists|w: int| 0 <= w < acked@.len() && #[trigger] acked@[w].0 == *it.seq()[j].0 by {
                    if j < idx {
                        let w = choose|w: int| 0 <= w < prev.len() && #[trigger] prev[w].0 == *it.seq()[j].0;
                        assert(acked@[w] == prev[w]);
                    } else {
                        assert(acked@[acked@.len() - 1].0 == *it.seq()[j].0);
                    }
                }
            }
        }
        proof {
            let s = spec_hash_map_iter(&self.pending_packets).remaining();
            assert forall|k: u64| #[trigger] m.contains_key(k) && m[k].sequence_number.0 <= ack_sequence.0
                implies exists|w: int| 0 <= w < acked@.len() && #[trigger] acked@[w].0 == k by {
                assert(s.contains((&k, &m[k])));
                let j = choose|j: int| 0 <= j < s.len() && s[j] == (&k, &m[k]);
                assert(*s[j].0 == k);
            }
        }
        let n = acked.len();
        let ghost t0 = self.retransmission_timers@;
        let mut i: usize = 0;
        while i < n
            invariant
                0 <= i <= n,
                n == acked@.len(),
                self.wf(),
                forall|j: int| 0 <= j < acked@.len() ==> m.contains_key(#[trigger] acked@[j].0)
                    && m[acked@[j].0] == acked@[j].1 && acked@[j].1.sequence_number.0 <= ack_sequence.0,
                forall|k: u64| #[trigger] m.contains_key(k) && m[k].sequence_number.0 <= ack_sequence.0
                    ==> exists|w: int| 0 <= w < acked@.len() && #[trigger] acked@[w].0 == k,
                self.pending_packets@ == m.restrict(m.dom().filter(|k: u64| !exists|w: int| 0 <= w < i && #[trigger] acked@[w].0 == k)),
                forall|k: u64| #[trigger] self.retransmission_timers@.contains_key(k) <==> t0.contains_key(k)
                    && !exists|w: int| 0 <= w < i && #[trigger] acked@[w].0 == k,
                forall|k: u64| #[trigger] self.retransmission_timers@.contains_key(k) ==> self.retransmission_timers@[k] == t0[k],
            decreases n - i,
        {
            let (key, timing) = acked[i];
            if !timing.retransmitted {
                let sample = self.rto_state.measure_rtt(timing.send_time, MicrosecondTimestamp::new(now_us));
                proof {
                    lemma_measured_samples_accepted(self.rto_state.first(), self.rto_state.srtt(), self.rto_state.rttvar(), sample);
                }
                self.rto_state.update_rto_with_measurement(sample);
            }
            self.retransmission_timers.remove(&key);
            self.pending_packets.remove(&key);
            self.retransmission_counts.remove(&key);
            proof {
                assert(self.pending_packets@ =~= m.restrict(m.dom().filter(|k: u64| !exists|w: int| 0 <= w < i + 1 && #[trigger] acked@[w].0 == k)));
                assert forall|k: u64| #[trigger] self.retransmission_timers@.contains_key(k) <==> t0.contains_key(k)
                    && !exists|w: int| 0 <= w < i + 1 && #[trigger] acked@[w].0 == k by {
                    if exists|w: int| 0 <= w < i + 1 && #[trigger] acked@[w].0 == k {
                        let w = choose|w: int| 0 <= w < i + 1 && #[trigger] acked@[w].0 == k;
                        if w < i {
                        } else {
                            assert(k == key);
                        }
                    }
                }
            }
            i = i + 1;
        }
        proof {
            let d = old(self).pending().dom().filter(|k: u64| old(self).pending()[k].sequence_number.0 > ack_sequence.0);
            assert forall|k: u64| m.contains_key(k) implies ((exists|w: int| 0 <= w < n && #[trigger] acked@[w].0 == k) <==> m[k].sequence_number.0 <= ack_sequence.0) by {
                if exists|w: int| 0 <= w < n && #[trigger] acked@[w].0 == k {
                    let w = choose|w: int| 0 <= w < n && #[trigger] acked@[w].0 == k;
                    assert(m[acked@[w].0] == acked@[w].1);
                }
            }
            assert(self.pending_packets@ =~= old(self).pending().restrict(d));
        }
        Ok(())
    }

    /// The fragments whose reassembly timeout has expired at `now_ms`: their
    /// timeouts are disarmed and an event is recorded for each.
    pub fn manage_fragment_timeouts_at(&mut self, now_ms: u64, now_us: u64) -> (r: Result<Vec<u16>, ProtocolError>)
        requires
            old(self).wf(),
        ensures
            final(self).wf(),
            final(self).pending() == old(self).pending(),
            final(self).timers() == old(self).timers(),
            final(self).rto() == old(self).rto(),
            r is Ok,
            forall|f: u16| #[trigger] final(self).fragment_deadlines().contains_key(f) <==> old(self).fragment_deadlines().contains_key(f)
                && old(self).fragment_deadlines()[f] > now_ms,
            forall|f: u16| #[trigger] final(self).fragment_deadlines().contains_key(f) ==> final(self).fragment_deadlines()[f] == old(self).fragment_deadlines()[f],
            forall|j: int| 0 <= j < r->Ok_0@.len() ==> old(self).fragment_deadlines().contains_key(#[trigger] r->Ok_0@[j])
                && old(self).fragment_deadlines()[r->Ok_0@[j]] <= now_ms,
            forall|f: u16| #[trigger] old(self).fragment_deadlines().contains_key(f) && old(self).fragment_deadlines()[f] <= now_ms
                ==> r->Ok_0@.contains(f),
            final(self).event_log() == logged_all(
                old(self).event_log(),
                fragment_timeout_events(r->Ok_0@, now_us, old(self).rto().rto() as u32),
            ),
    {
        let ghost log0 = self.event_log();
        let ghost rto = self.rto().rto() as u32;
        let mut expired: Vec<u16> = Vec::new();
        let ghost m = self.fragment_timeouts@;
        for (k, v) in it: self.fragment_timeouts.iter()
            invariant
                m == self.fragment_timeouts@,
                it.seq() == spec_hash_map_iter(&self.fragment_timeouts).remaining(),
                forall|j: int| 0 <= j < expired@.len() ==> m.contains_key(#[trigger] expired@[j]) && m[expired@[j]] <= now_ms,
                forall|j: int| 0 <= j < it.index() && *it.seq()[j].1 <= now_ms ==> expired@.contains(*it.seq()[j].0),
        {
            let ghost idx = it.index();
            let ghost prev = expired@;
            proof {
                let s = spec_hash_map_iter(&self.fragment_timeouts).remaining();
                assert(m.contains_key(*s[idx].0) && m[*s[idx].0] == *s[idx].1);
            }
            if now_ms >= *v {
                expired.push(*k);
            }
            proof {
                assert forall|j: int| 0 <= j < idx + 1 && *it.seq()[j].1 <= now_ms implies expired@.contains(*it.seq()[j].0) by {
                    if j < idx {
                        assert(prev.contains(*it.seq()[j].0));
                        let w = choose|w: int| 0 <= w < prev.len() && prev[w] == *it.seq()[j].0;
                        assert(expired@[w] == *it.seq()[j].0);
                    } else {
                        assert(expired@[expired@.len() - 1] == *it.seq()[j].0);
                    }
                }
            }
        }
        proof {
            let s = spec_hash_map_iter(&self.fragment_timeouts).remaining();
            assert forall|f: u16| #[trigger] m.contains_key(f) && m[f] <= now_ms implies expired@.contains(f) by {
                assert(s.contains((&f, &m[f])));
                let j = choose|j: int| 0 <= j < s.len() && s[j] == (&f, &m[f]);
                assert(*s[j].0 == f);
            }
        }
        let n = expired.len();
        let mut i: usize = 0;
        assert(fragment_timeout_events(expired@.subrange(0, 0), now_us, rto) =~= Seq::<EventRecord>::empty());
        while i < n
            invariant
                0 <= i <= n,
                n == expired@.len(),
                self.wf(),
                self.pending_packets@ == old(self).pending_packets@,
                self.retransmission_timers@ == old(self).retransmission_timers@,
                self.rto_state == old(self).rto_state,
                rto == self.rto().rto() as u32,
                self.event_log() == logged_all(log0, fragment_timeout_events(expired@.subrange(0, i as int), now_us, rto)),
                forall|j: int| 0 <= j < expired@.len() ==> m.contains_key(#[trigger] expired@[j]) && m[expired@[j]] <= now_ms,
                forall|f: u16| #[trigger] self.fragment_timeouts@.contains_key(f) <==> m.contains_key(f)
                    && !exists|w: int| 0 <= w < i && #[trigger] expired@[w] == f,
                forall|f: u16| #[trigger] self.fragment_timeouts@.contains_key(f) ==> self.fragment_timeouts@[f] == m[f],
            decreases n - i,
        {
            let f = expired[i];
            self.fragment_timeouts.remove(&f);
            let info = with_decimal("Fragment ", f as u64).concat(" reassembly timeout");
            let e = TimeoutEvent::new_at(TimeoutEventType::Fragment, TimeoutOutcome::Timeout, FRAGMENT_TIMEOUT_MS, None, info, MicrosecondTimestamp::new(now_us));
            self.track_timeout_event(e);
            proof {
                let done = fragment_timeout_events(expired@.subrange(0, i as int), now_us, rto);
                let next = fragment_timeout_events(expired@.subrange(0, i + 1), now_us, rto);
                assert(next.drop_last() =~= done);
                assert(next.last() == with_rto(event_view(e), rto));
                assert forall|g: u16| #[trigger] self.fragment_timeouts@.contains_key(g) <==> m.contains_key(g)
                    && !exists|w: int| 0 <= w < i + 1 && #[trigger] expired@[w] == g by {
                    if exists|w: int| 0 <= w < i + 1 && #[trigger] expired@[w] == g {
                        let w = choose|w: int| 0 <= w < i + 1 && #[trigger] expired@[w] == g;
                        if w == i {
                            assert(g == f);
                        }
                    }
                }
            }
            i = i + 1;
        }
        proof {
            assert(expired@.subrange(0, n as int) =~= expired@);
            assert forall|f: u16| #[trigger] old(self).fragment_deadlines().contains_key(f) && old(self).fragment_deadlines()[f] <= now_ms
                implies exists|w: int| 0 <= w < n && #[trigger] expired@[w] == f by {
                assert(expired@.contains(f));
            }
        }
        Ok(expired)
    }

    /// Copies of the events kept, oldest first.
    pub fn get_timeout_statistics(&self) -> (r: Vec<TimeoutEvent>)
        ensures
            r@ == self.events(),
    {
        let mut out: Vec<TimeoutEvent> = Vec::new();
        let mut i: usize = 0;
        while i < self.timeout_statistics.len()
            invariant
                i <= self.timeout_statistics@.len(),
                out@ == self.timeout_statistics@.subrange(0, i as int),
            decreases self.timeout_statistics@.len() - i,
        {
            out.push(copy_timeout_event(&self.timeout_statistics[i]));
            proof {
                assert(out@ =~= self.timeout_statistics@.subrange(0, i + 1));
            }
            i = i + 1;
        }
        proof {
            assert(self.timeout_statistics@.subrange(0, i as int) =~= self.timeout_statistics@);
        }
        out
    }

    /// Keeps, at `now_ms` (milliseconds) and `now_us` (microseconds), the
    /// events of the last five minutes and the timers not yet expired.
    pub fn cleanup_expired_data_at(&mut self, now_ms: u64, now_us: u64)
        requires
            old(self).wf(),
            now_us >= 300_000_000,
        ensures
            final(self).wf(),
            final(self).events() == recent_events(old(self).events(), (now_us - 300_000_000) as u64),
            forall|k: u64| #[trigger] final(self).timers().contains_key(k) <==> old(self).timers().contains_key(k)
                && now_ms < old(self).timers()[k],
            forall|k: u64| #[trigger] final(self).timers().contains_key(k) ==> final(self).timers()[k] == old(self).timers()[k],
            final(self).pending() == old(self).pending(),
            final(self).rto() == old(self).rto(),
            final(self).fragment_deadlines() == old(self).fragment_deadlines(),
    {
        let cutoff = now_us - 300_000_000;
        let n = self.timeout_statistics.len();
        let mut kept: Vec<TimeoutEvent> = Vec::new();
        let mut i: usize = 0;
        while i < n
            invariant
                i <= n,
                n == self.timeout_statistics@.len(),
                self.timeout_statistics@ == old(self).timeout_statistics@,
                kept@ == recent_events(self.timeout_statistics@.subrange(0, i as int), cutoff),
                kept@.len() <= i,
            decreases n - i,
        {
            let e = &self.timeout_statistics[i];
            proof {
                assert(self.timeout_statistics@.subrange(0, i + 1).drop_last() =~= self.timeout_statistics@.subrange(0, i as int));
            }
            if e.timestamp.0 >= cutoff {
                kept.push(copy_timeout_event(e));
            }
            i = i + 1;
        }
        proof {
            assert(self.timeout_statistics@.subrange(0, n as int) =~= self.timeout_statistics@);
        }
        self.timeout_statistics = kept;
        let ghost m = self.retransmission_timers@;
        let mut expired: Vec<u64> = Vec::new();
        for (k, v) in it: self.retransmission_timers.iter()
            invariant
                m == self.retransmission_timers@,
                it.seq() == spec_hash_map_iter(&self.retransmission_timers).remaining(),
                forall|j: int| 0 <= j < expired@.len() ==> m.contains_key(#[trigger] expired@[j]) && now_ms >= m[expired@[j]],
                forall|j: int| 0 <= j < it.index() && now_ms >= *it.seq()[j].1 ==> expired@.contains(*it.seq()[j].0),
        {
            let ghost idx = it.index();
            let ghost prev = expired@;
            proof {
                let sq = spec_hash_map_iter(&self.retransmission_timers).remaining();
                assert(m.contains_key(*sq[idx].0) && m[*sq[idx].0] == *sq[idx].1);
            }
            if now_ms >= *v {
                expired.push(*k);
            }
            proof {
                assert forall|j: int| 0 <= j < idx + 1 && now_ms >= *it.seq()[j].1 implies expired@.contains(*it.seq()[j].0) by {
                    if j < idx {
                        assert(prev.contains(*it.seq()[j].0));
                        let w = choose|w: int| 0 <= w < prev.len() && prev[w] == *it.seq()[j].0;
                        assert(expired@[w] == *it.seq()[j].0);
                    } else {
                        assert(expired@[expired@.len() - 1] == *it.seq()[j].0);
                    }
                }
            }
        }
        proof {
            let sq = spec_hash_map_iter(&self.retransmission_timers).remaining();
            assert forall|key: u64| #[trigger] m.contains_key(key) && now_ms >= m[key] implies expired@.contains(key) by {
                assert(sq.contains((&key, &m[key])));
                let j = choose|j: int| 0 <= j < sq.len() && sq[j] == (&key, &m[key]);
                assert(*sq[j].0 == key);
            }
        }
        let count = expired.len();
        let mut w: usize = 0;
        while w < count
            invariant
                w <= count,
                count == expired@.len(),
                m == old(self).retransmission_timers@,
                self.rto_state == old(self).rto_state,
                self.pending_packets@ == old(self).pending_packets@,
                self.fragment_timeouts@ == old(self).fragment_timeouts@,
                self.timeout_statistics@.len() <= 1000,
                self.timeout_statistics@ == recent_events(old(self).timeout_statistics@, cutoff),
                forall|j: int| 0 <= j < expired@.len() ==> m.contains_key(#[trigger] expired@[j]) && now_ms >= m[expired@[j]],
                forall|key: u64| #[trigger] m.contains_key(key) && now_ms >= m[key] ==> expired@.contains(key),
                forall|key: u64| #[trigger] self.retransmission_timers@.contains_key(key) <==> m.contains_key(key)
                    && !exists|v: int| 0 <= v < w && #[trigger] expired@[v] == key,
                forall|key: u64| #[trigger] self.retransmission_timers@.contains_key(key) ==> self.retransmission_timers@[key] == m[key],
            decreases count - w,
        {
            let key = expired[w];
            self.retransmission_timers.remove(&key);
            proof {
                assert forall|k2: u64| #[trigger] self.retransmission_timers@.contains_key(k2) <==> m.contains_key(k2)
                    && !exists|v: int| 0 <= v < w + 1 && #[trigger] expired@[v] == k2 by {
                    if exists|v: int| 0 <= v < w + 1 && #[trigger] expired@[v] == k2 {
                        let v = choose|v: int| 0 <= v < w + 1 && #[trigger] expired@[v] == k2;
                        if v == w {
                            assert(k2 == key);
                        }
                    }
                }
            }
            w = w + 1;
        }
        proof {
            assert forall|key: u64| #[trigger] self.retransmission_timers@.contains_key(key) <==> m.contains_key(key) && now_ms < m[key] by {
                if m.contains_key(key) && now_ms >= m[key] {
                    assert(expired@.contains(key));
                    let v = choose|v: int| 0 <= v < expired@.len() && expired@[v] == key;
                    assert(0 <= v < w && expired@[v] == key);
                }
                if m.contains_key(key) && now_ms < m[key] {
                    assert forall|v: int| 0 <= v < w implies #[trigger] expired@[v] != key by {
                        assert(now_ms >= m[expired@[v]]);
                    }
                }
            }
        }
    }

    pub fn get_rto_statistics(&self) -> (r: RtoStatistics)
        ensures
            r.rto_ms == self.rto().rto(),
            r.srtt_ms == self.rto().srtt(),
            r.rttvar_ms == self.rto().rttvar(),
    {
        self.rto_state.get_statistics()
    }

    pub fn reset_rto_estimates(&mut self)
        requires
            old(self).wf(),
        ensures
            final(self).wf(),
            final(self).rto().rto() == 1000,
            final(self).rto().srtt() == 1000,
            final(self).rto().rttvar() == 500,
            final(self).pending() == old(self).pending(),
            final(self).timers() == old(self).timers(),
    {
        self.rto_state.reset_rto_estimates();
    }
}

/// Base backoff of an operation of kind `t`.
pub open spec fn backoff_base(t: TimeoutEventType) -> u64 {
    match t {
        TimeoutEventType::Connection => CONNECTION_TIMEOUT_MS,
        TimeoutEventType::Discovery => DISCOVERY_TIMEOUT_MS,
        TimeoutEventType::Fragment => FRAGMENT_TIMEOUT_MS,
        TimeoutEventType::Recovery => RECOVERY_TIMEOUT_MS,
        _ => BASE_TIMEOUT_MS,
    }
}

/// Largest backoff of an operation of kind `t`.
pub open spec fn backoff_max(t: TimeoutEventType) -> u64 {
    match t {
        TimeoutEventType::Connection => (CONNECTION_TIMEOUT_MS * 4) as u64,
        TimeoutEventType::Discovery => MAX_DISCOVERY_TIMEOUT_MS,
        TimeoutEventType::Fragment => (FRAGMENT_TIMEOUT_MS * 8) as u64,
        TimeoutEventType::Recovery => (RECOVERY_TIMEOUT_MS * 4) as u64,
        _ => MAX_GENERIC_TIMEOUT_MS,
    }
}

impl PacketTiming {
    /// A packet sent at `now`, not retransmitted.
    pub open spec fn new_spec(packet_id: PacketId, sequence_number: SequenceNumber, now: MicrosecondTimestamp) -> PacketTiming {
        PacketTiming { packet_id, send_time: now, sequence_number, retransmitted: false, retry_count: 0 }
    }
}

} // verus!
