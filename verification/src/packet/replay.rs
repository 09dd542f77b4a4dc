//! Replay protection: stale timestamps and sequence numbers seen before are refused.
use vstd::prelude::*;
use std::collections::HashMap;
use crate::packet::header::PacketHeader;
use crate::values::{Timestamp, ValidationError};

verus! {

broadcast use vstd::std_specs::hash::group_hash_axioms;

/// How many sequence numbers below the highest one seen are remembered.
pub const REPLAY_WINDOW_SIZE: u32 = 64;

/// Settings of replay protection.
#[derive(Clone, Copy, Debug, PartialEq, Eq)]
pub struct AntiReplayConfig {
    /// Whether packets whose timestamp is too far from the local clock are refused.
    pub timestamp_validation: bool,
    /// How far a packet's timestamp may lie from the local clock, in milliseconds.
    pub max_timestamp_age_ms: u64,
}

impl Default for AntiReplayConfig {
    /// Timestamps are checked against a window of thirty seconds.
    fn default() -> (r: AntiReplayConfig)
        ensures
            r.timestamp_validation,
            r.max_timestamp_age_ms == 30_000,
    {
        AntiReplayConfig { timestamp_validation: true, max_timestamp_age_ms: 30_000 }
    }
}

/// The sequence numbers of one session seen so far: the highest one, and a
/// bitmap whose bit `i` is set when `highest - i` was seen.
#[derive(Clone, Copy, Debug, PartialEq, Eq)]
pub struct ReplayWindow {
    pub highest: u32,
    pub bitmap: u64,
}

/// The window after the first packet of a session.
pub open spec fn first_window(seq: u32) -> ReplayWindow {
    ReplayWindow { highest: seq, bitmap: 1 }
}

/// `seq` is refused by `w`: it lies below the window, or in it and was seen.
pub open spec fn window_rejects(w: ReplayWindow, seq: u32) -> bool {
    &&& seq <= w.highest
    &&& (w.highest - seq >= 64 || (w.bitmap >> ((w.highest - seq) as u64)) & 1u64 == 1u64)
}

/// The window after `seq` was accepted: a higher number slides the window up,
/// a lower one marks its bit.
pub open spec fn window_accept(w: ReplayWindow, seq: u32) -> ReplayWindow {
    if seq > w.highest {
        let shift = (seq - w.highest) as u64;
        ReplayWindow {
            highest: seq,
            bitmap: if shift >= 64 { 1u64 } else { (w.bitmap << shift) | 1u64 },
        }
    } else {
        ReplayWindow { highest: w.highest, bitmap: w.bitmap | (1u64 << ((w.highest - seq) as u64)) }
    }
}

/// The timestamp `ts` lies within the configured distance of `now`, or
/// timestamps are not checked.
pub open spec fn timestamp_fresh(config: AntiReplayConfig, ts: u64, now: u64) -> bool {
    !config.timestamp_validation || {
        let max = config.max_timestamp_age_ms as int * 1_000_000;
        &&& ts as int <= now as int + max
        &&& now as int <= ts as int + max
    }
}

/// Once accepted, a sequence number is refused by the window that follows.
pub proof fn lemma_accepted_is_rejected(w: ReplayWindow, seq: u32)
    requires
        !window_rejects(w, seq),
    ensures
        window_rejects(window_accept(w, seq), seq),
        window_rejects(first_window(seq), seq),
{
    let b = w.bitmap;
    assert((1u64 >> 0u64) & 1u64 == 1u64) by (bit_vector);
    if seq > w.highest {
        let shift = (seq - w.highest) as u64;
        if shift < 64 {
            assert((((b << shift) | 1u64) >> 0u64) & 1u64 == 1u64) by (bit_vector);
        }
    } else {
        let d = (w.highest - seq) as u64;
        assert(d < 64);
        assert(d < 64 ==> ((b | (1u64 << d)) >> d) & 1u64 == 1u64) by (bit_vector);
    }
}

/// A sequence number that a window refuses stays refused after another one is accepted.
pub proof fn lemma_rejection_persists(w: ReplayWindow, refused: u32, seq: u32)
    requires
        window_rejects(w, refused),
        !window_rejects(w, seq),
    ensures
        window_rejects(window_accept(w, seq), refused),
{
    let b = w.bitmap;
    let d = (w.highest - refused) as u64;
    if seq > w.highest {
        let shift = (seq - w.highest) as u64;
        if shift < 64 && (d as int) + (shift as int) < 64 {
            assert(d < 64);
            assert((d < 64 && shift < 64 && d + shift < 64 && (b >> d) & 1u64 == 1u64)
                ==> (((b << shift) | 1u64) >> ((d + shift) as u64)) & 1u64 == 1u64) by (bit_vector);
        }
    } else {
        let e = (w.highest - seq) as u64;
        if d < 64 {
            assert(e < 64);
            assert((d < 64 && e < 64 && (b >> d) & 1u64 == 1u64) ==> ((b | (1u64 << e)) >> d) & 1u64
                == 1u64) by (bit_vector);
        }
    }
}

/// Bit `i` of `b` is set.
pub open spec fn bit_set(b: u64, i: u64) -> bool {
    (b >> i) & 1u64 == 1u64
}

/// The window of a session after the sequence numbers `seqs` were accepted,
/// in order (the first opens the window).
pub open spec fn window_of(seqs: Seq<u32>) -> ReplayWindow
    decreases seqs.len(),
{
    if seqs.len() <= 1 {
        first_window(seqs[0])
    } else {
        window_accept(window_of(seqs.drop_last()), seqs.last())
    }
}

/// Each of `seqs` after the first was accepted by the window the ones before
/// it left.
pub open spec fn accepted_in_order(seqs: Seq<u32>) -> bool {
    forall|i: int| 1 <= i < seqs.len() ==> !window_rejects(window_of(#[trigger] seqs.take(i)), seqs[i])
}

proof fn lemma_bits_first(i: u64)
    by (bit_vector)
    requires
        i < 64,
    ensures
        bit_set(1u64, i) <==> i == 0,
{
}

proof fn lemma_bits_slide(b: u64, s: u64, i: u64)
    by (bit_vector)
    requires
        0 < s < 64,
        i < 64,
    ensures
        bit_set((b << s) | 1u64, i) <==> (i == 0 || (i >= s && bit_set(b, (i - s) as u64))),
{
}

proof fn lemma_bits_mark(b: u64, d: u64, i: u64)
    by (bit_vector)
    requires
        d < 64,
        i < 64,
    ensures
        bit_set(b | (1u64 << d), i) <==> (bit_set(b, i) || i == d),
{
}

/// The bits of a window record exactly which of the 64 numbers up to its
/// highest were accepted, and the highest is the largest accepted.
proof fn lemma_window_bits(seqs: Seq<u32>)
    requires
        seqs.len() >= 1,
        accepted_in_order(seqs),
    ensures
        seqs.contains(window_of(seqs).highest),
        forall|j: int| 0 <= j < seqs.len() ==> seqs[j] <= window_of(seqs).highest,
        forall|i: u64|
            i < 64 ==> (bit_set(window_of(seqs).bitmap, i) <==> (i <= window_of(seqs).highest && seqs.contains(
                (window_of(seqs).highest - i) as u32,
            ))),
    decreases seqs.len(),
{
    let w = window_of(seqs);
    if seqs.len() == 1 {
        assert(seqs[0] == w.highest);
        assert forall|i: u64| i < 64 implies (bit_set(w.bitmap, i) <==> (i <= w.highest && seqs.contains(
            (w.highest - i) as u32,
        ))) by {
            lemma_bits_first(i);
            if i <= w.highest && seqs.contains((w.highest - i) as u32) {
                let j = choose|j: int| 0 <= j < seqs.len() && seqs[j] == (w.highest - i) as u32;
                assert(j == 0);
            }
        }
    } else {
        let p = seqs.drop_last();
        let x = seqs.last();
        assert forall|i: int| 1 <= i < p.len() implies !window_rejects(window_of(#[trigger] p.take(i)), p[i]) by {
            assert(p.take(i) =~= seqs.take(i));
            assert(!window_rejects(window_of(seqs.take(i)), seqs[i]));
        }
        lemma_window_bits(p);
        let w0 = window_of(p);
        assert(seqs.take(seqs.len() - 1) =~= p);
        assert(!window_rejects(window_of(seqs.take(seqs.len() - 1)), seqs[seqs.len() - 1]));
        assert(!window_rejects(w0, x));
        assert forall|z: u32| p.contains(z) implies seqs.contains(z) by {
            let j = choose|j: int| 0 <= j < p.len() && p[j] == z;
            assert(seqs[j] == z);
        }
        assert forall|z: u32| seqs.contains(z) implies p.contains(z) || z == x by {
            let j = choose|j: int| 0 <= j < seqs.len() && seqs[j] == z;
            if j < p.len() {
                assert(p[j] == z);
            }
        }
        assert(seqs[seqs.len() - 1] == x);
        if x > w0.highest {
            let shift = (x - w0.highest) as u64;
            assert(w.highest == x);
            assert forall|j: int| 0 <= j < seqs.len() implies seqs[j] <= w.highest by {
                if j < p.len() {
                    assert(p[j] == seqs[j]);
                }
            }
            assert forall|i: u64| i < 64 implies (bit_set(w.bitmap, i) <==> (i <= w.highest && seqs.contains(
                (w.highest - i) as u32,
            ))) by {
                let z = (x - i) as u32;
                if shift >= 64 {
                    lemma_bits_first(i);
                    if i > 0 && i <= x && seqs.contains(z) {
                        assert(z != x);
                        let j = choose|j: int| 0 <= j < p.len() && p[j] == z;
                        assert(p[j] <= w0.highest);
                    }
                } else {
                    lemma_bits_slide(w0.bitmap, shift, i);
                    if i > 0 {
                        if i >= shift {
                            assert(z == (w0.highest - (i - shift)) as u32);
                        } else if i <= x && seqs.contains(z) {
                            assert(z != x);
                            let j = choose|j: int| 0 <= j < p.len() && p[j] == z;
                            assert(p[j] <= w0.highest);
                        }
                    }
                }
            }
        } else {
            let d = (w0.highest - x) as u64;
            assert(d < 64);
            assert(w.highest == w0.highest);
            assert forall|j: int| 0 <= j < seqs.len() implies seqs[j] <= w.highest by {
                if j < p.len() {
                    assert(p[j] == seqs[j]);
                }
            }
            assert forall|i: u64| i < 64 implies (bit_set(w.bitmap, i) <==> (i <= w.highest && seqs.contains(
                (w.highest - i) as u32,
            ))) by {
                lemma_bits_mark(w0.bitmap, d, i);
            }
        }
    }
}

/// Within the window, a window refuses exactly the sequence numbers it
/// accepted before: after the numbers `seqs` were accepted in order, one no
/// more than 63 below the highest accepted is refused if and only if it is
/// among them; one above the highest is never refused, and one 64 or more
/// below it always is.
pub proof fn lemma_window_refuses_exactly_the_seen(seqs: Seq<u32>, seq: u32)
    requires
        seqs.len() >= 1,
        accepted_in_order(seqs),
    ensures
        forall|j: int| 0 <= j < seqs.len() ==> seqs[j] <= window_of(seqs).highest,
        seqs.contains(window_of(seqs).highest),
        seq <= window_of(seqs).highest && window_of(seqs).highest - seq < REPLAY_WINDOW_SIZE ==> (window_rejects(
            window_of(seqs),
            seq,
        ) <==> seqs.contains(seq)),
        seq > window_of(seqs).highest ==> !window_rejects(window_of(seqs), seq),
        seq + REPLAY_WINDOW_SIZE <= window_of(seqs).highest ==> window_rejects(window_of(seqs), seq),
{
    lemma_window_bits(seqs);
    let w = window_of(seqs);
    if seq <= w.highest && w.highest - seq < 64 {
        let i = (w.highest - seq) as u64;
        assert((w.highest - i) as u32 == seq);
        assert(bit_set(w.bitmap, i) <==> (i <= w.highest && seqs.contains((w.highest - i) as u32)));
        assert(window_rejects(w, seq) <==> bit_set(w.bitmap, i));
    }
}

/// Refuses packets with stale timestamps and sequence numbers already seen in their session.
#[derive(Clone, Debug)]
pub struct AntiReplayEngine {
    config: AntiReplayConfig,
    windows: HashMap<u64, ReplayWindow>,
}

/// The engine `s1` and answer `r` after `s0` checked the packet with header
/// `header` at clock reading `now`: a refused packet leaves the windows as
/// they were; an accepted one is entered in its session's window.
pub open spec fn replay_check_outcome(
    s0: AntiReplayEngine,
    s1: AntiReplayEngine,
    header: PacketHeader,
    now: Timestamp,
    r: Result<(), ValidationError>,
) -> bool {
    &&& s1.spec_config() == s0.spec_config()
    &&& s0.refuses(header, now.0) ==> r == Err::<(), ValidationError>(
        ValidationError::ReplayAttackDetected,
    ) && s1.spec_windows() =~= s0.spec_windows()
    &&& !s0.refuses(header, now.0) ==> r is Ok && s1.spec_windows()
        == s0.windows_after(header)
    &&& r is Ok ==> s1.refuses(header, now.0)
}

impl AntiReplayEngine {
    pub closed spec fn spec_config(&self) -> AntiReplayConfig {
        self.config
    }

    /// The window of each session seen, by session identifier.
    pub closed spec fn spec_windows(&self) -> Map<u64, ReplayWindow> {
        self.windows@
    }

    /// The packet with header `h` is refused at time `now`: its timestamp is
    /// stale, or its session's window refuses its sequence number.
    pub open spec fn refuses(&self, h: PacketHeader, now: u64) -> bool {
        ||| !timestamp_fresh(self.spec_config(), h.timestamp.0, now)
        ||| (self.spec_windows().contains_key(h.session_id.0) && window_rejects(
            self.spec_windows()[h.session_id.0],
            h.sequence_number.0,
        ))
    }

    /// The windows after the packet with header `h` was accepted.
    pub open spec fn windows_after(&self, h: PacketHeader) -> Map<u64, ReplayWindow> {
        let sid = h.session_id.0;
        let seq = h.sequence_number.0;
        self.spec_windows().insert(
            sid,
            if self.spec_windows().contains_key(sid) {
                window_accept(self.spec_windows()[sid], seq)
            } else {
                first_window(seq)
            },
        )
    }

    /// Protection with the default settings and no session seen.
    pub fn new() -> (r: AntiReplayEngine)
        ensures
            r.spec_config().timestamp_validation,
            r.spec_config().max_timestamp_age_ms == 30_000,
            r.spec_windows().is_empty(),
    {
        AntiReplayEngine::from_config(AntiReplayConfig::default())
    }

    /// Protection with `config` and no session seen.
    pub fn from_config(config: AntiReplayConfig) -> (r: AntiReplayEngine)
        ensures
            r.spec_config() == config,
            r.spec_windows().is_empty(),
    {
        AntiReplayEngine { config, windows: HashMap::new() }
    }

    /// Checks the packet with header `header` against the clock reading `now`
    /// (nanoseconds) and its session's window. A refused packet leaves the
    /// windows as they were; an accepted one is entered in its session's window.
    pub fn validate_packet_at(&mut self, header: &PacketHeader, now: Timestamp) -> (r: Result<(), ValidationError>)
        ensures
            replay_check_outcome(*old(self), *final(self), *header, now, r),
    {
        let ts = header.timestamp.as_nanos();
        let now_ns = now.as_nanos();
        if self.config.timestamp_validation {
            let max: u128 = self.config.max_timestamp_age_ms as u128 * 1_000_000;
            if ts as u128 > now_ns as u128 + max || now_ns as u128 > ts as u128 + max {
                return Err(ValidationError::ReplayAttackDetected);
            }
        }
        let sid = header.session_id.as_u64();
        let seq = header.sequence_number.as_u32();
        let next = match self.windows.get(&sid) {
            Some(w) => {
                let w = *w;
                let rejected = seq <= w.highest && (w.highest - seq >= 64 || (w.bitmap >> ((w.highest
                    - seq) as u64)) & 1u64 == 1u64);
                if rejected {
                    return Err(ValidationError::ReplayAttackDetected);
                }
                proof {
                    lemma_accepted_is_rejected(w, seq);
                }
                if seq > w.highest {
                    let shift = (seq - w.highest) as u64;
                    ReplayWindow {
                        highest: seq,
                        bitmap: if shift >= 64 { 1u64 } else { (w.bitmap << shift) | 1u64 },
                    }
                } else {
                    ReplayWindow { highest: w.highest, bitmap: w.bitmap | (1u64 << ((w.highest - seq) as u64)) }
                }
            },
            None => {
                proof {
                    assert((1u64 >> 0u64) & 1u64 == 1u64) by (bit_vector);
                }
                ReplayWindow { highest: seq, bitmap: 1 }
            },
        };
        self.windows.insert(sid, next);
        Ok(())
    }

    /// Checks the packet with header `header` against the system clock and its
    /// session's window, as `validate_packet_at` does.
    pub fn validate_packet(&mut self, header: &PacketHeader) -> (r: Result<(), ValidationError>)
        ensures
            final(self).spec_config() == old(self).spec_config(),
            r is Err ==> r == Err::<(), ValidationError>(ValidationError::ReplayAttackDetected)
                && final(self).spec_windows() == old(self).spec_windows(),
            r is Ok ==> final(self).spec_windows() == old(self).windows_after(*header),
            !old(self).spec_config().timestamp_validation ==> (r is Ok <==> !(old(self).spec_windows().contains_key(
                header.session_id.0,
            ) && window_rejects(old(self).spec_windows()[header.session_id.0], header.sequence_number.0))),
            exists|now: Timestamp| replay_check_outcome(*old(self), *final(self), *header, now, r),
    {
        let now = Timestamp::now();
        self.validate_packet_at(header, now)
    }
}

} // verus!
