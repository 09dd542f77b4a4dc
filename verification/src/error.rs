//! Errors of the protocol layer that are not about a single packet field.
use vstd::prelude::*;
use crate::values::{FragmentCount, FragmentIndex, SessionId};

verus! {

/// Why a protocol operation failed.
#[derive(Clone, Debug, PartialEq, Eq)]
pub enum ProtocolError {
    /// Input that does not have the expected form.
    InvalidFormat(String),
    /// Fragmentation or reassembly refused the input.
    FragmentationError(String),
    /// The operation does not fit the current state.
    InvalidState(String),
}

/// The message a protocol error carries.
pub open spec fn protocol_text(e: ProtocolError) -> Seq<char> {
    match e {
        ProtocolError::InvalidFormat(m) => m@,
        ProtocolError::FragmentationError(m) => m@,
        ProtocolError::InvalidState(m) => m@,
    }
}

/// Why fragmentation or reassembly refused a fragment.
#[derive(Clone, Debug, PartialEq, Eq)]
pub enum FragmentationError {
    ReassemblyFailed { reason: String },
    FragmentTooLarge { size: u16, max_size: u16 },
    FragmentSecurityViolation { reason: String },
    FragmentCountExceeded { count: FragmentCount, max_count: FragmentCount },
    InvalidFragmentIndex { index: FragmentIndex, fragment_count: FragmentCount },
    ReassemblyMemoryExhausted { session_id: SessionId },
}


/// The reason a fragmentation error gives, or a short description of it.
pub open spec fn fragmentation_text(e: FragmentationError) -> Seq<char> {
    match e {
        FragmentationError::ReassemblyFailed { reason } => reason@,
        FragmentationError::FragmentSecurityViolation { reason } => reason@,
        FragmentationError::FragmentTooLarge { .. } => "Fragment too large"@,
        FragmentationError::FragmentCountExceeded { .. } => "Fragment count exceeded"@,
        FragmentationError::InvalidFragmentIndex { .. } => "Invalid fragment index"@,
        FragmentationError::ReassemblyMemoryExhausted { .. } => "Reassembly memory exhausted"@,
    }
}

impl FragmentationError {
    /// The reason the error gives, or a short description of it (see `fragmentation_text`).
    pub fn description(&self) -> (r: String)
        ensures
            r@ == fragmentation_text(*self),
    {
        proof {
            reveal_strlit("Fragment too large");
            reveal_strlit("Fragment count exceeded");
            reveal_strlit("Invalid fragment index");
            reveal_strlit("Reassembly memory exhausted");
        }
        match self {
            FragmentationError::ReassemblyFailed { reason } => reason.clone(),
            FragmentationError::FragmentSecurityViolation { reason } => reason.clone(),
            FragmentationError::FragmentTooLarge { .. } => "Fragment too large".to_owned(),
            FragmentationError::FragmentCountExceeded { .. } => "Fragment count exceeded".to_owned(),
            FragmentationError::InvalidFragmentIndex { .. } => "Invalid fragment index".to_owned(),
            FragmentationError::ReassemblyMemoryExhausted { .. } => "Reassembly memory exhausted".to_owned(),
        }
    }
}

} // verus!
