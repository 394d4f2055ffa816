//! The probe composer: builds one outbound IPv4 datagram carrying an ICMP
//! Echo Request, given destination, TTL and sequence number. The wire layout
//! is stated byte by byte in `is_probe_packet`, including that the embedded
//! ICMP checksum re-validates to zero.

use vstd::prelude::*;
use vstd::arithmetic::div_mod::{lemma_fundamental_div_mod, lemma_mod_division_less_than_divisor};
use crate::checksum::{checksum16, internet_checksum, lemma_checksum_round_trip};

verus! {

/// An IPv4 address as its four dotted-decimal octets.
#[derive(Clone, Copy, PartialEq, Eq, Structural, Debug)]
pub struct Ipv4Address {
    pub o0: u8,
    pub o1: u8,
    pub o2: u8,
    pub o3: u8,
}

impl Ipv4Address {
    pub fn new(o0: u8, o1: u8, o2: u8, o3: u8) -> (a: Ipv4Address)
        ensures
            a == (Ipv4Address { o0, o1, o2, o3 }),
    {
        Ipv4Address { o0, o1, o2, o3 }
    }
}

/// The 16-bit value encoded big-endian by two bytes.
pub open spec fn be16(hi: u8, lo: u8) -> u16 {
    (hi * 256 + lo) as u16
}

/// Length in bytes of the IPv4 header the composer writes (no options).
pub const IPV4_HEADER_LEN: usize = 20;

/// Length in bytes of the ICMP echo header.
pub const ICMP_HEADER_LEN: usize = 8;

/// Length in bytes of the fixed echo payload padding.
pub const ICMP_PAYLOAD_LEN: usize = 32;

/// Total length in bytes of one composed probe datagram.
pub const PROBE_PACKET_LEN: usize = 60;

/// What a ready-to-transmit probe datagram looks like on the wire:
/// an IPv4 header (version 4, five 32-bit words, total length 60, the given
/// TTL, protocol ICMP, the given destination; source and identification left
/// zero for the transport to fill in) followed by an ICMP Echo Request
/// (type 8, code 0, constant zero identifier, the given sequence number,
/// 32 bytes of zero padding) whose checksum field re-validates to zero.
pub open spec fn is_probe_packet(p: Seq<u8>, dest: Ipv4Address, ttl: u8, seq: u16) -> bool {
    &&& p.len() == 60
    &&& p[0] == 0x45u8
    &&& p[1] == 0u8
    &&& be16(p[2], p[3]) == 60
    &&& p[4] == 0u8  // identification left zero for the transport to fill in
    &&& p[5] == 0u8
    &&& p[6] == 0u8  // no flags, no fragment offset
    &&& p[7] == 0u8
    &&& p[8] == ttl
    &&& p[9] == 1u8
    &&& p[10] == 0u8  // IP header checksum left zero for the transport
    &&& p[11] == 0u8
    &&& p[12] == 0u8  // source address left zero for the transport
    &&& p[13] == 0u8
    &&& p[14] == 0u8
    &&& p[15] == 0u8
    &&& p[16] == dest.o0
    &&& p[17] == dest.o1
    &&& p[18] == dest.o2
    &&& p[19] == dest.o3
    &&& p[20] == 8u8
    &&& p[21] == 0u8
    &&& p[24] == 0u8
    &&& p[25] == 0u8
    &&& be16(p[26], p[27]) == seq
    &&& (forall|i: int| 28 <= i < 60 ==> p[i] == 0u8)  // consistent padding
    &&& internet_checksum(p.subrange(20, 60)) == 0
}

/// Builds one probe datagram for the given destination, TTL and sequence
/// number.
pub fn compose_probe(dest: Ipv4Address, ttl: u8, seq: u16) -> (pkt: Vec<u8>)
    requires
        ttl >= 1,
    ensures
        is_probe_packet(pkt@, dest, ttl, seq),
{
    let seq_hi = (seq / 256) as u8;
    let seq_lo = (seq % 256) as u8;
    proof {
        lemma_fundamental_div_mod(seq as int, 256);
        lemma_mod_division_less_than_divisor(seq as int, 256);
        assert(seq_hi * 256 + seq_lo == seq);
    }
    let mut icmp: Vec<u8> = vec![0u8; 40];
    icmp.set(0, 8u8);
    icmp.set(6, seq_hi);
    icmp.set(7, seq_lo);
    let c = checksum16(&icmp);
    let c_hi = (c / 256) as u8;
    let c_lo = (c % 256) as u8;
    proof {
        lemma_checksum_round_trip(icmp@, 1);
    }
    icmp.set(2, c_hi);
    icmp.set(3, c_lo);
    assert(internet_checksum(icmp@) == 0);

    let mut pkt: Vec<u8> = vec![0u8; 20];
    pkt.set(0, 0x45u8);
    pkt.set(3, 60u8);
    pkt.set(8, ttl);
    pkt.set(9, 1u8);
    pkt.set(16, dest.o0);
    pkt.set(17, dest.o1);
    pkt.set(18, dest.o2);
    pkt.set(19, dest.o3);
    let ghost icmp_done = icmp@;
    pkt.append(&mut icmp);
    proof {
        assert(pkt@.subrange(20, 60) =~= icmp_done);
    }
    pkt
}

/// A construction failure: the caller-owned buffer cannot hold a probe.
#[derive(Clone, Copy, PartialEq, Eq, Structural, Debug)]
pub enum ComposeError {
    BufferTooSmall,
}

/// Writes one probe datagram into the front of a caller-owned buffer,
/// leaving the rest of the buffer untouched. Fails, changing nothing, when
/// the buffer is smaller than one probe datagram.
pub fn compose_probe_into(buf: &mut Vec<u8>, dest: Ipv4Address, ttl: u8, seq: u16) -> (r: Result<
    (),
    ComposeError,
>)
    requires
        ttl >= 1,
    ensures
        old(buf)@.len() < 60 ==> r == Err::<(), ComposeError>(ComposeError::BufferTooSmall)
            && final(buf)@ == old(buf)@,
        old(buf)@.len() >= 60 ==> {
            &&& r == Ok::<(), ComposeError>(())
            &&& final(buf)@.len() == old(buf)@.len()
            &&& is_probe_packet(final(buf)@.subrange(0, 60), dest, ttl, seq)
            &&& final(buf)@.subrange(60, old(buf)@.len() as int) == old(buf)@.subrange(
                60,
                old(buf)@.len() as int,
            )
        },
{
    if buf.len() < 60 {
        return Err(ComposeError::BufferTooSmall);
    }
    let pkt = compose_probe(dest, ttl, seq);
    let mut i: usize = 0;
    while i < 60
        invariant
            0 <= i <= 60,
            is_probe_packet(pkt@, dest, ttl, seq),
            buf@.len() == old(buf)@.len(),
            buf@.len() >= 60,
            forall|j: int| 0 <= j < i ==> buf@[j] == pkt@[j],
            forall|j: int| i <= j < buf@.len() ==> buf@[j] == old(buf)@[j],
        decreases 60 - i,
    {
        let b = pkt[i];
        buf.set(i, b);
        i = i + 1;
    }
    proof {
        assert(buf@.subrange(0, 60) =~= pkt@);
        assert(buf@.subrange(60, buf@.len() as int) =~= old(buf)@.subrange(
            60,
            old(buf)@.len() as int,
        ));
    }
    Ok(())
}

} // verus!
