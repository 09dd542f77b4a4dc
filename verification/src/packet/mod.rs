//! Packets: the common header, the packet structures, builders and the parser.
pub mod header;
pub mod structures;
pub mod roundtrip;
pub mod hmac;
pub mod replay;
pub mod builder;
pub mod parser;
