//! A verified codec for DNS messages as laid out by RFC 1035: the 12-byte
//! header with bit-packed flags, the question section, and the three
//! resource-record sections, including the length-prefixed, potentially
//! compressed domain-name encoding used throughout.
//!
//! Every decoder is total on untrusted input: a malformed buffer yields a
//! `DecodeError`, never a panic, and compression-pointer chasing is proved
//! to terminate.

pub mod error;
pub mod flags;
pub mod message;
pub mod name;
pub mod registry;
pub mod wire;
