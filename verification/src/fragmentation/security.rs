//! Security checks on fragments: size, count, timing and attack patterns.
use vstd::prelude::*;
use std::collections::HashMap;
use vstd::std_specs::hash::spec_hash_map_iter;
use vstd::std_specs::iter::IteratorSpec;
use crate::codec::{be_decode, read_be};
use crate::error::{FragmentationError, ProtocolError};
use crate::packet::structures::{packet_header, Packet};
use crate::values::{FragmentCount, FragmentId, FragmentIndex, FragmentSize, SessionId, Timestamp};

verus! {

broadcast use vstd::std_specs::hash::group_hash_axioms;

/// Policies of the fragment security checks.
#[derive(Clone, Copy, Debug)]
pub struct FragmentSecurityPolicies {
    pub max_fragment_size: FragmentSize,
    pub max_fragments_per_session: u16,
    pub fragment_timeout_sec: u64,
    pub enable_overlap_detection: bool,
    pub enable_size_validation: bool,
    pub enable_timing_validation: bool,
    pub enable_attack_detection: bool,
}

impl Default for FragmentSecurityPolicies {
    /// Fragments of at most 1400 bytes, 256 per packet, 30 seconds apart at
    /// most, every check on.
    fn default() -> (r: FragmentSecurityPolicies)
        ensures
            r.max_fragment_size.0 == 1400,
            r.max_fragments_per_session == 256,
            r.fragment_timeout_sec == 30,
            r.enable_overlap_detection && r.enable_size_validation && r.enable_timing_validation
                && r.enable_attack_detection,
    {
        FragmentSecurityPolicies {
            max_fragment_size: FragmentSize::new(1400),
            max_fragments_per_session: 256,
            fragment_timeout_sec: 30,
            enable_overlap_detection: true,
            enable_size_validation: true,
            enable_timing_validation: true,
            enable_attack_detection: true,
        }
    }
}

/// Verdict on a fragment.
#[derive(Debug)]
pub enum SecurityValidationResult {
    Valid,
    Suspicious { reason: String },
    Rejected { reason: String },
}

/// Counters of the security checks; they wrap around.
#[derive(Clone, Copy, Debug)]
pub struct FragmentSecurityStats {
    pub total_validated: u64,
    pub valid_fragments: u64,
    pub suspicious_fragments: u64,
    pub rejected_fragments: u64,
    pub attack_attempts: u64,
    pub suspicious_sessions: usize,
}

/// What the checks remember of a session's fragments: how many were accepted,
/// how many recently, when the last one came, and the number and total of
/// their sizes.
#[derive(Clone, Copy, Debug, PartialEq, Eq, Structural)]
pub struct SessionFragmentState {
    pub fragment_count: u32,
    pub recent_fragments: u32,
    pub last_fragment_time: Timestamp,
    pub size_samples: u64,
    pub size_total: u64,
}

/// A session that violated a policy.
#[derive(Clone, Copy, Debug)]
pub struct SuspiciousActivity {
    pub violation_count: u32,
    pub first_violation: Timestamp,
    pub last_violation: Timestamp,
}

/// What the checks read from a fragment: the fragmentation header at the
/// start of its payload, and the size of what follows.
#[derive(Clone, Copy, Debug, PartialEq, Eq, Structural)]
pub struct SecurityFragmentInfo {
    pub session_id: SessionId,
    pub fragment_id: FragmentId,
    pub fragment_index: u16,
    pub fragment_count: u16,
    pub fragment_size: FragmentSize,
    pub timestamp: Timestamp,
}

/// The verdict a check gives, without its reason.
#[derive(Clone, Copy, Debug, PartialEq, Eq, Structural)]
pub enum Verdict {
    Valid,
    Suspicious,
    Rejected,
}

/// The fragment information of `p` received at `now`, when `p` carries the
/// fragment flag and at least the eight bytes of a fragmentation header.
pub open spec fn fragment_info_of(p: Packet, now: Timestamp) -> Option<SecurityFragmentInfo> {
    let h = packet_header(p);
    let payload = match p {
        Packet::Data(d) => d.payload@,
        _ => Seq::<u8>::empty(),
    };
    if h.flags.0 & 0x40 == 0 || payload.len() < 8 {
        None
    } else {
        Some(SecurityFragmentInfo {
            session_id: h.session_id,
            fragment_id: FragmentId(be_decode(payload.subrange(0, 2)) as u16),
            fragment_index: be_decode(payload.subrange(2, 4)) as u16,
            fragment_count: be_decode(payload.subrange(4, 6)) as u16,
            fragment_size: FragmentSize((payload.len() - 8) as u16),
            timestamp: now,
        })
    }
}

/// The mean fragment size lies outside `[10, 1300]`, once more than ten sizes are known.
pub open spec fn size_anomaly(s: SessionFragmentState) -> bool {
    s.size_samples > 10 && (s.size_total < 10 * s.size_samples || s.size_total > 1300 * s.size_samples)
}

/// The verdict on fragment `i` for a session in state `st`: too large, or
/// smaller than eight bytes and not the first, rejects (when sizes are
/// checked); too many fragments or an index beyond the count rejects; a
/// fragment within a millisecond of the last or after the timeout is
/// suspicious (when timing is checked); a size anomaly or more than a hundred
/// recent fragments rejects (when attacks are detected).
pub open spec fn verdict(p: FragmentSecurityPolicies, st: Option<SessionFragmentState>, i: SecurityFragmentInfo) -> Verdict {
    if p.enable_size_validation && (i.fragment_size.0 > p.max_fragment_size.0 || (i.fragment_size.0 < 8 && i.fragment_index > 0)) {
        Verdict::Rejected
    } else if i.fragment_count > p.max_fragments_per_session || i.fragment_index >= i.fragment_count {
        Verdict::Rejected
    } else if p.enable_timing_validation && (st matches Some(s) && {
        let gap = if i.timestamp.0 >= s.last_fragment_time.0 { i.timestamp.0 - s.last_fragment_time.0 } else { 0 };
        gap < 1_000_000 || gap > p.fragment_timeout_sec * 1_000_000_000
    }) {
        Verdict::Suspicious
    } else if p.enable_attack_detection && (st matches Some(s) && (size_anomaly(s) || s.recent_fragments > 100)) {
        Verdict::Rejected
    } else {
        Verdict::Valid
    }
}

/// A session's state after accepting fragment `i`: one more fragment, one more
/// recent fragment, the fragment's time and size recorded.
pub open spec fn state_after(st: Option<SessionFragmentState>, i: SecurityFragmentInfo) -> SessionFragmentState {
    let s = match st {
        Some(s) => s,
        None => SessionFragmentState { fragment_count: 0, recent_fragments: 0, last_fragment_time: i.timestamp, size_samples: 0, size_total: 0 },
    };
    SessionFragmentState {
        fragment_count: ((s.fragment_count + 1) % 0x1_0000_0000) as u32,
        recent_fragments: ((s.recent_fragments + 1) % 0x1_0000_0000) as u32,
        last_fragment_time: i.timestamp,
        size_samples: ((s.size_samples + 1) % 0x1_0000_0000_0000_0000) as u64,
        size_total: ((s.size_total + i.fragment_size.0) % 0x1_0000_0000_0000_0000) as u64,
    }
}

/// What an attack pattern looks for in a session's state.
#[derive(Clone, Copy, Debug, PartialEq, Eq, Structural)]
pub enum AttackPatternKind {
    /// The mean fragment size is out of range.
    SizeAnomaly,
    /// Too many recent fragments.
    FragmentFlood,
}

/// The reason given with the verdict on fragment `i` for a session in state
/// `st`, when the fragment is not valid (see `verdict`).
pub open spec fn verdict_reason(p: FragmentSecurityPolicies, st: Option<SessionFragmentState>, i: SecurityFragmentInfo) -> Seq<char> {
    if p.enable_size_validation && i.fragment_size.0 > p.max_fragment_size.0 {
        "Fragment too large"@
    } else if p.enable_size_validation && i.fragment_size.0 < 8 && i.fragment_index > 0 {
        "Suspiciously small fragment detected"@
    } else if i.fragment_count > p.max_fragments_per_session {
        "Fragment count exceeded"@
    } else if i.fragment_index >= i.fragment_count {
        "Invalid fragment index"@
    } else if p.enable_timing_validation && timing_reason(p, st, i) is Some {
        timing_reason(p, st, i)->Some_0
    } else {
        attack_reason(st)->Some_0
    }
}

/// The text of an optional message.
pub open spec fn text_of(m: Option<String>) -> Option<Seq<char>> {
    match m {
        Some(t) => Some(t@),
        None => None,
    }
}

/// Why the timing of fragment `i` is suspicious for a session in state `st`,
/// if it is: within a millisecond of the last fragment, or after the timeout.
pub open spec fn timing_reason(
    p: FragmentSecurityPolicies,
    st: Option<SessionFragmentState>,
    i: SecurityFragmentInfo,
) -> Option<Seq<char>> {
    match st {
        None => None,
        Some(s) => {
            let gap = if i.timestamp.0 >= s.last_fragment_time.0 { i.timestamp.0 - s.last_fragment_time.0 } else { 0 };
            if gap < 1_000_000 {
                Some("Fragments arriving too rapidly"@)
            } else if gap > p.fragment_timeout_sec * 1_000_000_000 {
                Some("Fragment arrived after timeout"@)
            } else {
                None
            }
        },
    }
}

/// The attack a session in state `st` shows, if any: the name of the first
/// default pattern it matches, a size anomaly before a flood.
pub open spec fn attack_reason(st: Option<SessionFragmentState>) -> Option<Seq<char>> {
    match st {
        None => None,
        Some(s) => if size_anomaly(s) {
            Some("Attack pattern detected: "@ + "Fragment Size Anomaly"@)
        } else if s.recent_fragments > 100 {
            Some("Attack pattern detected: "@ + "Fragment Flood"@)
        } else {
            None
        },
    }
}

/// A pattern of attack: its name, threshold, time window (seconds) and what it looks for.
#[derive(Clone, Debug)]
pub struct AttackPattern {
    pub name: String,
    pub threshold: u32,
    pub time_window_sec: u64,
    pub kind: AttackPatternKind,
}

/// The pattern of kind `k` matches a session in state `s`.
pub open spec fn pattern_matches(k: AttackPatternKind, s: SessionFragmentState) -> bool {
    match k {
        AttackPatternKind::SizeAnomaly => size_anomaly(s),
        AttackPatternKind::FragmentFlood => s.recent_fragments > 100,
    }
}

impl AttackPattern {
    /// Whether the pattern matches a session in state `s`.
    pub fn matches(&self, s: &SessionFragmentState) -> (r: bool)
        ensures
            r == pattern_matches(self.kind, *s),
    {
        match self.kind {
            AttackPatternKind::SizeAnomaly => s.size_samples > 10 && ((s.size_total as u128) < 10 * (s.size_samples as u128)
                || (s.size_total as u128) > 1300 * (s.size_samples as u128)),
            AttackPatternKind::FragmentFlood => s.recent_fragments > 100,
        }
    }
}

/// The patterns every engine looks for: a fragment size anomaly (threshold
/// 10 over a minute) and a fragment flood (threshold 100 over ten seconds).
pub fn create_default_attack_patterns() -> (r: Vec<AttackPattern>)
    ensures
        r@.len() == 2,
        r@[0].kind == AttackPatternKind::SizeAnomaly,
        r@[0].name@ == "Fragment Size Anomaly"@,
        r@[0].threshold == 10 && r@[0].time_window_sec == 60,
        r@[1].kind == AttackPatternKind::FragmentFlood,
        r@[1].name@ == "Fragment Flood"@,
        r@[1].threshold == 100 && r@[1].time_window_sec == 10,
{
    proof {
        reveal_strlit("Fragment Size Anomaly");
        reveal_strlit("Fragment Flood");
    }
    let mut v: Vec<AttackPattern> = Vec::new();
    v.push(AttackPattern {
        name: "Fragment Size Anomaly".to_owned(),
        threshold: 10,
        time_window_sec: 60,
        kind: AttackPatternKind::SizeAnomaly,
    });
    v.push(AttackPattern {
        name: "Fragment Flood".to_owned(),
        threshold: 100,
        time_window_sec: 10,
        kind: AttackPatternKind::FragmentFlood,
    });
    v
}

/// Checks fragments for size, count, timing and attack patterns, remembering
/// what it accepted of each session.
pub struct FragmentSecurityEngine {
    policies: FragmentSecurityPolicies,
    attack_patterns: Vec<AttackPattern>,
    session_fragment_counts: HashMap<u64, SessionFragmentState>,
    suspicious_sessions: HashMap<u64, SuspiciousActivity>,
    stats: FragmentSecurityStats,
}

fn fragment_info_from(fragment: &Packet, now: Timestamp) -> (r: Option<SecurityFragmentInfo>)
    ensures
        r == fragment_info_of(*fragment, now),
{
    let flags = fragment.flags();
    let payload = fragment.payload();
    if !flags.is_frag() || payload.len() < 8 {
        return None;
    }
    proof {
        crate::codec::lemma_pow256_values();
        crate::codec::lemma_be_decode_bound(payload@.subrange(0, 2));
        crate::codec::lemma_be_decode_bound(payload@.subrange(2, 4));
        crate::codec::lemma_be_decode_bound(payload@.subrange(4, 6));
    }
    Some(SecurityFragmentInfo {
        session_id: fragment.session_id(),
        fragment_id: FragmentId::new(read_be(payload, 0, 2) as u16),
        fragment_index: read_be(payload, 2, 2) as u16,
        fragment_count: read_be(payload, 4, 2) as u16,
        fragment_size: FragmentSize::new((payload.len() - 8) as u16),
        timestamp: now,
    })
}

/// The engine `s1` and answer `r` after `s0` checked `fragment`, received at
/// `now`: refused when it carries no fragmentation header; otherwise the
/// verdict of `verdict`, and only a valid fragment is remembered for its session.
/// Fragment `i` is refused for its size (when sizes are checked) or its count.
pub open spec fn size_or_count_rejects(p: FragmentSecurityPolicies, i: SecurityFragmentInfo) -> bool {
    ||| p.enable_size_validation && (i.fragment_size.0 > p.max_fragment_size.0 || (i.fragment_size.0 < 8
        && i.fragment_index > 0))
    ||| i.fragment_count > p.max_fragments_per_session
    ||| i.fragment_index >= i.fragment_count
}

/// The counters after a check of a fragment whose information is `info`
/// (none when it carries no fragmentation header): one more check, and one
/// more valid, suspicious or rejected fragment as the verdict says, a
/// rejection for an attack counted as an attack attempt too.
pub open spec fn validated_stats(
    st: FragmentSecurityStats,
    p: FragmentSecurityPolicies,
    state: Option<SessionFragmentState>,
    info: Option<SecurityFragmentInfo>,
) -> FragmentSecurityStats {
    let t = FragmentSecurityStats { total_validated: vstd::wrapping::u64_specs::wrapping_add(st.total_validated, 1), ..st };
    match info {
        None => t,
        Some(i) => match verdict(p, state, i) {
            Verdict::Valid => FragmentSecurityStats {
                valid_fragments: vstd::wrapping::u64_specs::wrapping_add(st.valid_fragments, 1),
                ..t
            },
            Verdict::Suspicious => FragmentSecurityStats {
                suspicious_fragments: vstd::wrapping::u64_specs::wrapping_add(st.suspicious_fragments, 1),
                ..t
            },
            Verdict::Rejected => if size_or_count_rejects(p, i) {
                FragmentSecurityStats {
                    rejected_fragments: vstd::wrapping::u64_specs::wrapping_add(st.rejected_fragments, 1),
                    ..t
                }
            } else {
                FragmentSecurityStats {
                    rejected_fragments: vstd::wrapping::u64_specs::wrapping_add(st.rejected_fragments, 1),
                    attack_attempts: vstd::wrapping::u64_specs::wrapping_add(st.attack_attempts, 1),
                    ..t
                }
            },
        },
    }
}

pub open spec fn validation_outcome(
    s0: FragmentSecurityEngine,
    s1: FragmentSecurityEngine,
    fragment: Packet,
    now: Timestamp,
    r: Result<SecurityValidationResult, ProtocolError>,
) -> bool {
    &&& s1.wf()
    &&& s1.spec_policies() == s0.spec_policies()
    &&& s1.spec_stats() == validated_stats(
        s0.spec_stats(),
        s0.spec_policies(),
        match fragment_info_of(fragment, now) {
            Some(i) => if s0.sessions().contains_key(i.session_id.0) { Some(s0.sessions()[i.session_id.0]) } else { None },
            None => None,
        },
        fragment_info_of(fragment, now),
    )
    &&& fragment_info_of(fragment, now) is None ==> (r matches Err(ProtocolError::FragmentationError(_))
        && s1.sessions() =~= s0.sessions())
    &&& fragment_info_of(fragment, now) matches Some(i) ==> {
        let sid = i.session_id.0;
        let st = if s0.sessions().contains_key(sid) { Some(s0.sessions()[sid]) } else { None };
        let v = verdict(s0.spec_policies(), st, i);
        &&& v == Verdict::Valid ==> (r matches Ok(SecurityValidationResult::Valid)
            && s1.sessions() =~= s0.sessions().insert(sid, state_after(st, i)))
        &&& v == Verdict::Suspicious ==> (r matches Ok(SecurityValidationResult::Suspicious { reason })
            && reason@ == verdict_reason(s0.spec_policies(), st, i) && s1.sessions() =~= s0.sessions())
        &&& v == Verdict::Rejected ==> (r matches Ok(SecurityValidationResult::Rejected { reason })
            && reason@ == verdict_reason(s0.spec_policies(), st, i) && s1.sessions() =~= s0.sessions())
    }
}

/// The engine `s1` after `s0` forgot, at `now`, the sessions whose last
/// fragment is twice the fragment timeout old.
pub open spec fn states_cleanup_outcome(
    s0: FragmentSecurityEngine,
    s1: FragmentSecurityEngine,
    now: Timestamp,
) -> bool {
    &&& s1.wf()
    &&& s1.spec_policies() == s0.spec_policies()
    &&& s1.sessions() =~= Map::new(
        |k: u64| s0.sessions().contains_key(k) && state_live(s0.sessions()[k].last_fragment_time, now, s0.spec_policies().fragment_timeout_sec),
        |k: u64| s0.sessions()[k],
    )
}

impl FragmentSecurityEngine {
    pub closed spec fn sessions(&self) -> Map<u64, SessionFragmentState> {
        self.session_fragment_counts@
    }

    pub closed spec fn spec_policies(&self) -> FragmentSecurityPolicies {
        self.policies
    }

    pub closed spec fn spec_stats(&self) -> FragmentSecurityStats {
        self.stats
    }

    /// The engine looks for the default attack patterns.
    pub closed spec fn wf(&self) -> bool {
        &&& self.attack_patterns@.len() == 2
        &&& self.attack_patterns@[0].kind == AttackPatternKind::SizeAnomaly
        &&& self.attack_patterns@[0].name@ == "Fragment Size Anomaly"@
        &&& self.attack_patterns@[1].kind == AttackPatternKind::FragmentFlood
        &&& self.attack_patterns@[1].name@ == "Fragment Flood"@
    }

    pub closed spec fn num_suspicious(&self) -> nat {
        self.suspicious_sessions@.len()
    }

    pub fn new() -> (r: FragmentSecurityEngine)
        ensures
            r.wf(),
            r.sessions() == Map::<u64, SessionFragmentState>::empty(),
            r.spec_policies() == (FragmentSecurityPolicies {
                max_fragment_size: FragmentSize(1400),
                max_fragments_per_session: 256,
                fragment_timeout_sec: 30,
                enable_overlap_detection: true,
                enable_size_validation: true,
                enable_timing_validation: true,
                enable_attack_detection: true,
            }),
            r.spec_stats() == (FragmentSecurityStats {
                total_validated: 0,
                valid_fragments: 0,
                suspicious_fragments: 0,
                rejected_fragments: 0,
                attack_attempts: 0,
                suspicious_sessions: 0,
            }),
    {
        Self::with_policies(FragmentSecurityPolicies::default())
    }

    pub fn with_policies(policies: FragmentSecurityPolicies) -> (r: FragmentSecurityEngine)
        ensures
            r.wf(),
            r.sessions() == Map::<u64, SessionFragmentState>::empty(),
            r.spec_policies() == policies,
            r.spec_stats() == (FragmentSecurityStats {
                total_validated: 0,
                valid_fragments: 0,
                suspicious_fragments: 0,
                rejected_fragments: 0,
                attack_attempts: 0,
                suspicious_sessions: 0,
            }),
    {
        FragmentSecurityEngine {
            policies,
            attack_patterns: create_default_attack_patterns(),
            session_fragment_counts: HashMap::new(),
            suspicious_sessions: HashMap::new(),
            stats: FragmentSecurityStats {
                total_validated: 0,
                valid_fragments: 0,
                suspicious_fragments: 0,
                rejected_fragments: 0,
                attack_attempts: 0,
                suspicious_sessions: 0,
            },
        }
    }

    /// Checks a fragment at the current time.
    pub fn validate_fragment(&mut self, fragment: &Packet) -> (r: Result<SecurityValidationResult, ProtocolError>)
        requires
            old(self).wf(),
        ensures
            final(self).wf(),
            exists|now: Timestamp| validation_outcome(*old(self), *final(self), *fragment, now, r),
    {
        let now = Timestamp::now();
        self.validate_fragment_at(fragment, now)
    }

    /// Checks a fragment received at `now`: refused when it carries no
    /// fragmentation header; otherwise the verdict of `verdict`, and only a
    /// valid fragment is remembered for its session.
    pub fn validate_fragment_at(&mut self, fragment: &Packet, now: Timestamp) -> (r: Result<SecurityValidationResult, ProtocolError>)
        requires
            old(self).wf(),
        ensures
            validation_outcome(*old(self), *final(self), *fragment, now, r),
    {
        self.stats.total_validated = self.stats.total_validated.wrapping_add(1);
        let info = match self.extract_fragment_info(fragment, now) {
            Ok(i) => i,
            Err(e) => return Err(e),
        };
        if self.policies.enable_size_validation {
            if let Err(reason) = self.validate_fragment_size(&info) {
                self.stats.rejected_fragments = self.stats.rejected_fragments.wrapping_add(1);
                return Ok(SecurityValidationResult::Rejected { reason: reason.description() });
            }
        }
        if let Err(reason) = self.validate_fragment_count(&info) {
            self.stats.rejected_fragments = self.stats.rejected_fragments.wrapping_add(1);
            return Ok(SecurityValidationResult::Rejected { reason: reason.description() });
        }
        if self.policies.enable_timing_validation {
            if let Some(reason) = self.validate_fragment_timing(&info) {
                self.stats.suspicious_fragments = self.stats.suspicious_fragments.wrapping_add(1);
                return Ok(SecurityValidationResult::Suspicious { reason });
            }
        }
        if self.policies.enable_attack_detection {
            if let Some(reason) = self.detect_attacks(&info) {
                self.stats.attack_attempts = self.stats.attack_attempts.wrapping_add(1);
                self.stats.rejected_fragments = self.stats.rejected_fragments.wrapping_add(1);
                return Ok(SecurityValidationResult::Rejected { reason });
            }
        }
        self.update_fragment_state(&info);
        self.stats.valid_fragments = self.stats.valid_fragments.wrapping_add(1);
        Ok(SecurityValidationResult::Valid)
    }

    /// Reads the fragmentation header of a fragment received at `now`: the
    /// fragment flag and eight header bytes are needed.
    fn extract_fragment_info(&self, fragment: &Packet, now: Timestamp) -> (r: Result<SecurityFragmentInfo, ProtocolError>)
        ensures
            fragment_info_of(*fragment, now) matches Some(i) ==> r == Ok::<SecurityFragmentInfo, ProtocolError>(i),
            fragment_info_of(*fragment, now) is None ==> (r matches Err(ProtocolError::FragmentationError(_))),
    {
        if !fragment.flags().is_frag() {
            return Err(ProtocolError::FragmentationError("Packet is not fragmented".to_owned()));
        }
        if fragment.payload().len() < 8 {
            return Err(ProtocolError::FragmentationError("Fragment header too small".to_owned()));
        }
        match fragment_info_from(fragment, now) {
            Some(i) => Ok(i),
            None => Err(ProtocolError::FragmentationError("Packet is not fragmented".to_owned())),
        }
    }

    /// A fragment larger than allowed, or smaller than eight bytes and not the first, is refused.
    fn validate_fragment_size(&self, fragment_info: &SecurityFragmentInfo) -> (r: Result<(), FragmentationError>)
        ensures
            fragment_info.fragment_size.0 > self.policies.max_fragment_size.0 ==> r == Err::<(), FragmentationError>(
                FragmentationError::FragmentTooLarge {
                    size: fragment_info.fragment_size.0,
                    max_size: self.policies.max_fragment_size.0,
                },
            ),
            fragment_info.fragment_size.0 <= self.policies.max_fragment_size.0 && fragment_info.fragment_size.0 < 8
                && fragment_info.fragment_index > 0 ==> (r matches Err(FragmentationError::FragmentSecurityViolation { reason })
                && reason@ == "Suspiciously small fragment detected"@),
            r is Err <==> (fragment_info.fragment_size.0 > self.policies.max_fragment_size.0 || (fragment_info.fragment_size.0
                < 8 && fragment_info.fragment_index > 0)),
    {
        proof {
            reveal_strlit("Suspiciously small fragment detected");
        }
        if fragment_info.fragment_size.0 > self.policies.max_fragment_size.0 {
            return Err(FragmentationError::FragmentTooLarge {
                size: fragment_info.fragment_size.0,
                max_size: self.policies.max_fragment_size.0,
            });
        }
        if fragment_info.fragment_size.0 < 8 && fragment_info.fragment_index > 0 {
            return Err(FragmentationError::FragmentSecurityViolation {
                reason: "Suspiciously small fragment detected".to_owned(),
            });
        }
        Ok(())
    }

    /// More fragments than allowed per session, or an index not below the count, is refused.
    fn validate_fragment_count(&self, fragment_info: &SecurityFragmentInfo) -> (r: Result<(), FragmentationError>)
        ensures
            r == (if fragment_info.fragment_count > self.policies.max_fragments_per_session {
                Err::<(), FragmentationError>(FragmentationError::FragmentCountExceeded {
                    count: FragmentCount(fragment_info.fragment_count),
                    max_count: FragmentCount(self.policies.max_fragments_per_session),
                })
            } else if fragment_info.fragment_index >= fragment_info.fragment_count {
                Err::<(), FragmentationError>(FragmentationError::InvalidFragmentIndex {
                    index: FragmentIndex(fragment_info.fragment_index),
                    fragment_count: FragmentCount(fragment_info.fragment_count),
                })
            } else {
                Ok(())
            }),
    {
        if fragment_info.fragment_count > self.policies.max_fragments_per_session {
            return Err(FragmentationError::FragmentCountExceeded {
                count: FragmentCount::new(fragment_info.fragment_count),
                max_count: FragmentCount::new(self.policies.max_fragments_per_session),
            });
        }
        if fragment_info.fragment_index >= fragment_info.fragment_count {
            return Err(FragmentationError::InvalidFragmentIndex {
                index: FragmentIndex::new(fragment_info.fragment_index),
                fragment_count: FragmentCount::new(fragment_info.fragment_count),
            });
        }
        Ok(())
    }

    /// A fragment within a millisecond of its session's last one, or later
    /// than the fragment timeout after it, is suspicious.
    fn validate_fragment_timing(&self, fragment_info: &SecurityFragmentInfo) -> (r: Option<String>)
        ensures
            text_of(r) == timing_reason(
                self.policies,
                if self.sessions().contains_key(fragment_info.session_id.0) {
                    Some(self.sessions()[fragment_info.session_id.0])
                } else {
                    None
                },
                *fragment_info,
            ),
    {
        proof {
            reveal_strlit("Fragments arriving too rapidly");
            reveal_strlit("Fragment arrived after timeout");
        }
        match self.session_fragment_counts.get(&fragment_info.session_id.0) {
            Some(s) => {
                let now = fragment_info.timestamp;
                let gap: u64 = if now.0 >= s.last_fragment_time.0 { now.0 - s.last_fragment_time.0 } else { 0 };
                if gap < 1_000_000 {
                    return Some("Fragments arriving too rapidly".to_owned());
                }
                if (gap as u128) > (self.policies.fragment_timeout_sec as u128) * 1_000_000_000 {
                    return Some("Fragment arrived after timeout".to_owned());
                }
                None
            },
            None => None,
        }
    }

    /// An attack pattern matching the session names the attack; so does a flood.
    fn detect_attacks(&self, fragment_info: &SecurityFragmentInfo) -> (r: Option<String>)
        requires
            self.wf(),
        ensures
            text_of(r) == attack_reason(
                if self.sessions().contains_key(fragment_info.session_id.0) {
                    Some(self.sessions()[fragment_info.session_id.0])
                } else {
                    None
                },
            ),
    {
        proof {
            reveal_strlit("Attack pattern detected: ");
            reveal_strlit("Fragment flood detected");
        }
        match self.session_fragment_counts.get(&fragment_info.session_id.0) {
            Some(s) => {
                let s = *s;
                assert(self.sessions().contains_key(fragment_info.session_id.0) && self.sessions()[fragment_info.session_id.0] == s);
                let mut j: usize = 0;
                while j < self.attack_patterns.len()
                    invariant
                        self.wf(),
                        self.sessions().contains_key(fragment_info.session_id.0),
                        self.sessions()[fragment_info.session_id.0] == s,
                        j <= self.attack_patterns@.len(),
                        forall|k: int| 0 <= k < j ==> !pattern_matches(self.attack_patterns@[k].kind, s),
                    decreases self.attack_patterns@.len() - j,
                {
                    if self.attack_patterns[j].matches(&s) {
                        proof {
                            assert(pattern_matches(self.attack_patterns@[j as int].kind, s));
                            if j == 0 {
                                assert(size_anomaly(s));
                            } else {
                                assert(s.recent_fragments > 100);
                            }
                        }
                        return Some("Attack pattern detected: ".to_owned().concat(self.attack_patterns[j].name.as_str()));
                    }
                    j = j + 1;
                }
                proof {
                    assert(!pattern_matches(self.attack_patterns@[0].kind, s));
                    assert(!pattern_matches(self.attack_patterns@[1].kind, s));
                }
                if s.recent_fragments > 100 {
                    return Some("Fragment flood detected".to_owned());
                }
                None
            },
            None => None,
        }
    }

    /// Records an accepted fragment in its session's state (a new session
    /// starts empty): one more fragment and recent fragment, its time and size.
    fn update_fragment_state(&mut self, fragment_info: &SecurityFragmentInfo)
        ensures
            final(self).policies == old(self).policies,
            final(self).attack_patterns@ == old(self).attack_patterns@,
            final(self).stats == old(self).stats,
            final(self).sessions() == old(self).sessions().insert(
                fragment_info.session_id.0,
                state_after(
                    if old(self).sessions().contains_key(fragment_info.session_id.0) {
                        Some(old(self).sessions()[fragment_info.session_id.0])
                    } else {
                        None
                    },
                    *fragment_info,
                ),
            ),
    {
        let sid = fragment_info.session_id.0;
        let base = match self.session_fragment_counts.get(&sid) {
            Some(s) => *s,
            None => SessionFragmentState {
                fragment_count: 0,
                recent_fragments: 0,
                last_fragment_time: fragment_info.timestamp,
                size_samples: 0,
                size_total: 0,
            },
        };
        let updated = SessionFragmentState {
            fragment_count: base.fragment_count.wrapping_add(1),
            recent_fragments: base.recent_fragments.wrapping_add(1),
            last_fragment_time: fragment_info.timestamp,
            size_samples: base.size_samples.wrapping_add(1),
            size_total: base.size_total.wrapping_add(fragment_info.fragment_size.0 as u64),
        };
        self.session_fragment_counts.insert(sid, updated);
    }

    /// Forgets the sessions idle for twice the fragment timeout, at the current time.
    pub fn cleanup_expired_states(&mut self)
        requires
            old(self).wf(),
            old(self).spec_policies().fragment_timeout_sec <= u64::MAX / 2,
        ensures
            final(self).wf(),
            exists|now: Timestamp| states_cleanup_outcome(*old(self), *final(self), now),
    {
        let now = Timestamp::now();
        self.cleanup_expired_states_at(now);
    }

    /// Forgets, at `now`, the sessions whose last fragment is twice the fragment timeout old.
    pub fn cleanup_expired_states_at(&mut self, now: Timestamp)
        requires
            old(self).wf(),
            old(self).spec_policies().fragment_timeout_sec <= u64::MAX / 2,
        ensures
            states_cleanup_outcome(*old(self), *final(self), now),
    {
        let timeout = self.policies.fragment_timeout_sec * 2;
        let ghost m = self.session_fragment_counts@;
        let mut fresh: HashMap<u64, SessionFragmentState> = HashMap::new();
        for (k, v) in it: self.session_fragment_counts.iter()
            invariant
                m == self.session_fragment_counts@,
                timeout == self.policies.fragment_timeout_sec * 2,
                it.seq() == spec_hash_map_iter(&self.session_fragment_counts).remaining(),
                fresh@ == Map::new(
                    |key: u64| m.contains_key(key) && state_live(m[key].last_fragment_time, now, self.policies.fragment_timeout_sec)
                        && exists|j: int| 0 <= j < it.index() && *it.seq()[j].0 == key,
                    |key: u64| m[key],
                ),
        {
            let ghost idx = it.index();
            proof {
                let s = spec_hash_map_iter(&self.session_fragment_counts).remaining();
                assert(m.contains_key(*s[idx].0) && m[*s[idx].0] == *s[idx].1);
            }
            let elapsed: u64 = if now.0 >= v.last_fragment_time.0 { now.0 - v.last_fragment_time.0 } else { 0 };
            if (elapsed as u128) < (timeout as u128) * 1_000_000_000 {
                fresh.insert(*k, *v);
            }
            proof {
                assert(fresh@ =~= Map::new(
                    |key: u64| m.contains_key(key) && state_live(m[key].last_fragment_time, now, self.policies.fragment_timeout_sec)
                        && exists|j: int| 0 <= j < idx + 1 && *it.seq()[j].0 == key,
                    |key: u64| m[key],
                ));
            }
        }
        proof {
            let s = spec_hash_map_iter(&self.session_fragment_counts).remaining();
            assert forall|key: u64| #[trigger] m.contains_key(key) implies exists|j: int|
                0 <= j < s.len() && *s[j].0 == key by {
                assert(s.contains((&key, &m[key])));
            }
            assert(fresh@ =~= Map::new(|key: u64| m.contains_key(key) && state_live(m[key].last_fragment_time, now, self.policies.fragment_timeout_sec), |key: u64| m[key]));
        }
        self.session_fragment_counts = fresh;
        self.stats.suspicious_sessions = self.suspicious_sessions.len();
    }

    pub fn get_stats(&self) -> (r: FragmentSecurityStats)
        ensures
            r == self.spec_stats(),
    {
        self.stats
    }

    pub fn update_policies(&mut self, policies: FragmentSecurityPolicies)
        requires
            old(self).wf(),
        ensures
            final(self).wf(),
            final(self).spec_policies() == policies,
            final(self).sessions() == old(self).sessions(),
            final(self).spec_stats() == old(self).spec_stats(),
    {
        self.policies = policies;
    }
}

/// A session whose last fragment came at `last` is remembered at `now` while
/// less than twice the fragment timeout (seconds) has elapsed.
pub open spec fn state_live(last: Timestamp, now: Timestamp, timeout_sec: u64) -> bool {
    (if now.0 >= last.0 { now.0 - last.0 } else { 0 }) < 2 * timeout_sec * 1_000_000_000
}

} // verus!
