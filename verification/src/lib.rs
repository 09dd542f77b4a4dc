//! Protocol layer of a port-hopping network protocol: packet headers and
//! packet structures with their wire formats, packet builders and parsers,
//! fragmentation and reassembly with its security checks, connection state
//! tracking, and retransmission timeouts.

pub mod codec;
pub mod constants;
pub mod text;
pub mod types;
pub mod values;
pub mod packet;
pub mod error;
pub mod state;
pub mod timeout;
pub mod fragmentation;
pub mod edge_cases;
pub mod boundary_conditions;
pub mod enumeration_detection;
