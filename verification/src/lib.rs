//! Authentication protocol engine for an SRUN-style campus network gateway.
//!
//! The crate holds the pure parts of the protocol: the keyed byte codec, the
//! request checksum, the builder of the token-dependent request parameters,
//! the classification of gateway responses and the decisions of the gateway
//! client. Network and terminal I/O are left to the caller.

pub mod checksum;
pub mod client;
pub mod codec;
pub mod error;
pub mod hex;
pub mod json;
pub mod params;
pub mod radix64;
pub mod response;
pub mod scramble;
pub mod sha1;
pub mod text;
pub mod user;
pub mod words;
