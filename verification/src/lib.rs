//! Hop discovery over ICMP: wire-format construction and parsing of the
//! IPv4/ICMP probe packets, classification of inbound replies, and the
//! per-TTL state machine that decides when a traceroute run halts.

pub mod checksum;
pub mod engine;
pub mod packet;
pub mod reply;
