//! Fragmentation and reassembly, with overlap detection, rate limiting,
//! security checks and fragment memory management.
pub mod engine;
pub mod memory;
pub mod overlap;
pub mod rate_limit;
pub mod security;
