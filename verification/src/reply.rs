//! The reply interpreter: classifies one inbound ICMP packet (already
//! stripped of its encapsulating IPv4 header) and, for recognized types,
//! recovers the sequence number that ties it to an outbound probe.

use vstd::prelude::*;
use crate::packet::{be16, Ipv4Address};

verus! {

/// ICMP type of an Echo Reply message.
pub const ICMP_TYPE_ECHO_REPLY: u8 = 0;

/// ICMP type of an Echo Request message.
pub const ICMP_TYPE_ECHO_REQUEST: u8 = 8;

/// ICMP type of a Time Exceeded error message.
pub const ICMP_TYPE_TIME_EXCEEDED: u8 = 11;

/// How a recognized inbound ICMP packet was classified.
#[derive(Clone, Copy, PartialEq, Eq, Structural, Debug)]
pub enum ReplyKind {
    TimeExceeded,
    EchoReply,
}

/// One classified reply: who answered, how long after the batch began, what
/// kind of answer it was, and the sequence number of the probe it answers.
#[derive(Clone, Copy, PartialEq, Eq, Structural, Debug)]
pub struct HopReply {
    pub source: Ipv4Address,
    pub elapsed_micros: u64,
    pub kind: ReplyKind,
    pub sequence: u16,
}

/// A packet too short to contain the headers its type declares.
#[derive(Clone, Copy, PartialEq, Eq, Structural, Debug)]
pub enum ParseError {
    TooShort,
}

/// What interpreting an inbound ICMP packet yields, as a function of the
/// bytes and the receive metadata alone.
///
/// A Time Exceeded error embeds the original IPv4 header (20 bytes, options
/// assumed absent) and the first 8 bytes of the original Echo Request after
/// its own 8-byte header, so the embedded sequence number sits at bytes
/// 34 and 35. An Echo Reply carries its own sequence number at bytes 6 and 7.
/// Any other type is expected background traffic and yields nothing.
///
/// Open question: an original datagram sent with IP options would shift the
/// embedded Echo Request, so a hardier parse would read the embedded
/// header's length field instead of the fixed offset. The probes this
/// library composes carry no options, so the fixed offset is sound for its
/// own traffic.
pub open spec fn spec_interpret(p: Seq<u8>, source: Ipv4Address, elapsed_micros: u64) -> Result<
    Option<HopReply>,
    ParseError,
> {
    if p.len() < 8 {
        Err(ParseError::TooShort)
    } else if p[0] == ICMP_TYPE_TIME_EXCEEDED {
        if p.len() < 36 {
            Err(ParseError::TooShort)
        } else {
            Ok(
                Some(
                    HopReply {
                        source,
                        elapsed_micros,
                        kind: ReplyKind::TimeExceeded,
                        sequence: be16(p[34], p[35]),
                    },
                ),
            )
        }
    } else if p[0] == ICMP_TYPE_ECHO_REPLY {
        Ok(
            Some(
                HopReply {
                    source,
                    elapsed_micros,
                    kind: ReplyKind::EchoReply,
                    sequence: be16(p[6], p[7]),
                },
            ),
        )
    } else {
        Ok(None)
    }
}

/// Classifies one inbound ICMP packet. Yields a reply for the two recognized
/// types, nothing for other (expected, ignorable) types, and a parse error
/// for a packet too short to hold what its type declares.
pub fn interpret_reply(packet: &Vec<u8>, source: Ipv4Address, elapsed_micros: u64) -> (r: Result<
    Option<HopReply>,
    ParseError,
>)
    ensures
        r == spec_interpret(packet@, source, elapsed_micros),
{
    if packet.len() < 8 {
        return Err(ParseError::TooShort);
    }
    let ty = packet[0];
    if ty == ICMP_TYPE_TIME_EXCEEDED {
        if packet.len() < 36 {
            return Err(ParseError::TooShort);
        }
        let hi = packet[34];
        let lo = packet[35];
        Ok(
            Some(
                HopReply {
                    source,
                    elapsed_micros,
                    kind: ReplyKind::TimeExceeded,
                    sequence: (hi as u16) * 256 + (lo as u16),
                },
            ),
        )
    } else if ty == ICMP_TYPE_ECHO_REPLY {
        let hi = packet[6];
        let lo = packet[7];
        Ok(
            Some(
                HopReply {
                    source,
                    elapsed_micros,
                    kind: ReplyKind::EchoReply,
                    sequence: (hi as u16) * 256 + (lo as u16),
                },
            ),
        )
    } else {
        Ok(None)
    }
}

/// Length in bytes of the outer IPv4 header the transport leaves on an
/// inbound packet.
pub const OUTER_IPV4_HEADER_LEN: usize = 20;

/// Classifies one inbound packet as the transport hands it over: the first
/// 20 bytes are the transport's own IPv4 header and are stripped before the
/// ICMP message is interpreted.
pub fn interpret_raw_reply(raw: &Vec<u8>, source: Ipv4Address, elapsed_micros: u64) -> (r: Result<
    Option<HopReply>,
    ParseError,
>)
    ensures
        raw@.len() < 20 ==> r == Err::<Option<HopReply>, ParseError>(ParseError::TooShort),
        raw@.len() >= 20 ==> r == spec_interpret(raw@.skip(20), source, elapsed_micros),
{
    if raw.len() < 20 {
        return Err(ParseError::TooShort);
    }
    let mut inner: Vec<u8> = Vec::new();
    let mut i: usize = 20;
    while i < raw.len()
        invariant
            20 <= i <= raw@.len(),
            inner@ == raw@.subrange(20, i as int),
        decreases raw@.len() - i,
    {
        let b = raw[i];
        inner.push(b);
        proof {
            assert(inner@ =~= raw@.subrange(20, i + 1));
        }
        i = i + 1;
    }
    proof {
        assert(inner@ =~= raw@.skip(20));
    }
    interpret_reply(&inner, source, elapsed_micros)
}

/// Law: classification is a function of the captured bytes and receive
/// metadata alone, so re-interpreting the same capture always yields the
/// same classification and sequence number.
pub proof fn lemma_interpret_deterministic(
    p1: Seq<u8>,
    p2: Seq<u8>,
    source: Ipv4Address,
    elapsed_micros: u64,
)
    requires
        p1 == p2,
    ensures
        spec_interpret(p1, source, elapsed_micros) == spec_interpret(p2, source, elapsed_micros),
{
}

} // verus!
