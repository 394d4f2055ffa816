use traceroute::checksum::checksum16;
use traceroute::engine::{
    batch_has_echo_reply, collection_open, filter_current_window, probe_sequence,
    remaining_budget, summarize_batch, HaltReason, HopReport, RunState,
};
use traceroute::packet::{compose_probe, compose_probe_into, ComposeError, Ipv4Address};
use traceroute::reply::{interpret_raw_reply, interpret_reply, HopReply, ParseError, ReplyKind};

fn addr(o0: u8, o1: u8, o2: u8, o3: u8) -> Ipv4Address {
    Ipv4Address::new(o0, o1, o2, o3)
}

fn reply(kind: ReplyKind, sequence: u16, elapsed_micros: u64, source: Ipv4Address) -> HopReply {
    HopReply { source, elapsed_micros, kind, sequence }
}

// An independent rendition of the standard one's-complement sum, to hold
// checksum16 to the algorithm rather than to itself.
fn independent_checksum(data: &[u8]) -> u16 {
    let mut sum: u32 = 0;
    let mut i = 0;
    while i < data.len() {
        let hi = data[i] as u32;
        let lo = if i + 1 < data.len() { data[i + 1] as u32 } else { 0 };
        sum += hi * 256 + lo;
        i += 2;
    }
    while sum > 0xFFFF {
        sum = (sum & 0xFFFF) + (sum >> 16);
    }
    !(sum as u16)
}

#[test]
fn checksum_known_vector() {
    // The classic worked example: words 0x0001 0xf203 0xf4f5 0xf6f7 sum to
    // 0x2ddf0, fold to 0xddf2, and complement to 0x220d.
    let data = vec![0x00u8, 0x01, 0xf2, 0x03, 0xf4, 0xf5, 0xf6, 0xf7];
    assert_eq!(checksum16(&data), 0x220d);
    assert_eq!(checksum16(&data), independent_checksum(&data));
}

#[test]
fn checksum_odd_length_pads_with_zero() {
    let data = vec![0xffu8, 0x00, 0xab];
    assert_eq!(checksum16(&data), independent_checksum(&data));
}

#[test]
fn checksum_empty_is_all_ones() {
    let data: Vec<u8> = Vec::new();
    assert_eq!(checksum16(&data), 0xffff);
}

#[test]
fn checksum_round_trip_over_composed_packet() {
    // Computing the checksum over the composed ICMP message and re-validating
    // it against the standard algorithm yields zero residual.
    let pkt = compose_probe(addr(8, 8, 8, 8), 3, 17);
    let icmp = pkt[20..60].to_vec();
    assert_eq!(checksum16(&icmp), 0);
    assert_eq!(independent_checksum(&icmp), 0);
}

#[test]
fn composed_packet_wire_layout() {
    let pkt = compose_probe(addr(192, 168, 1, 77), 5, 0x0102);
    assert_eq!(pkt.len(), 60);
    assert_eq!(pkt[0], 0x45); // version 4, five 32-bit words
    assert_eq!((pkt[2], pkt[3]), (0, 60)); // total length
    assert_eq!(pkt[8], 5); // TTL as given
    assert_eq!(pkt[9], 1); // protocol: ICMP
    assert_eq!(&pkt[12..16], &[0, 0, 0, 0]); // source left to the OS
    assert_eq!(&pkt[16..20], &[192, 168, 1, 77]); // destination
    assert_eq!(pkt[20], 8); // echo request
    assert_eq!(pkt[21], 0); // code
    assert_eq!((pkt[24], pkt[25]), (0, 0)); // constant identifier
    assert_eq!((pkt[26], pkt[27]), (0x01, 0x02)); // sequence, big-endian
    assert_eq!(&pkt[28..60], &[0u8; 32]); // consistent padding
}

#[test]
fn composed_packet_exact_checksum() {
    // With sequence 7 the ICMP words are 0x0800 and 0x0007, so the checksum
    // is the complement of 0x0807.
    let pkt = compose_probe(addr(10, 0, 0, 1), 1, 7);
    assert_eq!((pkt[22], pkt[23]), (0xf7, 0xf8));
}

#[test]
fn compose_into_rejects_small_buffer() {
    let mut buf = vec![0u8; 59];
    let r = compose_probe_into(&mut buf, addr(10, 0, 0, 1), 1, 0);
    assert_eq!(r, Err(ComposeError::BufferTooSmall));
    assert_eq!(buf, vec![0u8; 59]);
}

#[test]
fn compose_into_writes_front_and_keeps_tail() {
    let mut buf = vec![0xeeu8; 64];
    let r = compose_probe_into(&mut buf, addr(10, 0, 0, 1), 2, 6);
    assert_eq!(r, Ok(()));
    assert_eq!(&buf[0..60], &compose_probe(addr(10, 0, 0, 1), 2, 6)[..]);
    assert_eq!(&buf[60..64], &[0xee; 4]);
}

fn echo_reply_packet(sequence: u16) -> Vec<u8> {
    let mut p = vec![0u8; 8];
    p[0] = 0; // echo reply
    p[6] = (sequence / 256) as u8;
    p[7] = (sequence % 256) as u8;
    p
}

fn time_exceeded_packet(embedded_sequence: u16) -> Vec<u8> {
    // 8-byte ICMP error header, 20-byte embedded IPv4 header, then the first
    // 8 bytes of the original echo request.
    let mut p = vec![0u8; 36];
    p[0] = 11; // time exceeded
    p[28] = 8; // embedded echo request type
    p[34] = (embedded_sequence / 256) as u8;
    p[35] = (embedded_sequence % 256) as u8;
    p
}

#[test]
fn interpret_echo_reply() {
    let p = echo_reply_packet(0x1234);
    let r = interpret_reply(&p, addr(1, 2, 3, 4), 500);
    assert_eq!(
        r,
        Ok(Some(reply(ReplyKind::EchoReply, 0x1234, 500, addr(1, 2, 3, 4))))
    );
}

#[test]
fn interpret_time_exceeded_recovers_embedded_sequence() {
    let p = time_exceeded_packet(9);
    let r = interpret_reply(&p, addr(9, 9, 9, 9), 1200);
    assert_eq!(
        r,
        Ok(Some(reply(ReplyKind::TimeExceeded, 9, 1200, addr(9, 9, 9, 9))))
    );
}

#[test]
fn interpret_other_types_silently_ignored() {
    let mut p = vec![0u8; 8];
    p[0] = 3; // destination unreachable: expected background traffic
    assert_eq!(interpret_reply(&p, addr(1, 1, 1, 1), 10), Ok(None));
}

#[test]
fn interpret_too_short_is_parse_error() {
    let p = vec![0u8; 7];
    assert_eq!(interpret_reply(&p, addr(1, 1, 1, 1), 10), Err(ParseError::TooShort));
    // A time-exceeded header whose embedded echo request is cut off.
    let mut q = vec![0u8; 35];
    q[0] = 11;
    assert_eq!(interpret_reply(&q, addr(1, 1, 1, 1), 10), Err(ParseError::TooShort));
}

#[test]
fn interpret_raw_strips_outer_header() {
    let mut raw = vec![0u8; 20];
    raw.extend_from_slice(&echo_reply_packet(77));
    let r = interpret_raw_reply(&raw, addr(4, 4, 4, 4), 333);
    assert_eq!(
        r,
        Ok(Some(reply(ReplyKind::EchoReply, 77, 333, addr(4, 4, 4, 4))))
    );
    let short = vec![0u8; 19];
    assert_eq!(interpret_raw_reply(&short, addr(4, 4, 4, 4), 1), Err(ParseError::TooShort));
}

#[test]
fn interpretation_is_deterministic() {
    // Re-parsing the same captured bytes yields the same classification and
    // sequence number.
    let p = time_exceeded_packet(31);
    let first = interpret_reply(&p, addr(5, 5, 5, 5), 42);
    let second = interpret_reply(&p, addr(5, 5, 5, 5), 42);
    assert_eq!(first, second);
}

#[test]
fn sequence_formula_and_recovery() {
    // sequence = (ttl - 1) * requests_per_hop + index, and
    // ttl == sequence / requests_per_hop + 1.
    assert_eq!(probe_sequence(1, 5, 0), 0);
    assert_eq!(probe_sequence(1, 5, 4), 4);
    assert_eq!(probe_sequence(2, 5, 0), 5);
    assert_eq!(probe_sequence(3, 5, 2), 12);
    assert_eq!(probe_sequence(64, 1024, 1023), 65535);
    for ttl in 1..=8u8 {
        for i in 0..5u16 {
            let s = probe_sequence(ttl, 5, i);
            assert_eq!(s / 5 + 1, ttl as u16);
        }
    }
}

#[test]
fn sequence_numbers_unique_across_run() {
    let mut seen = Vec::new();
    for ttl in 1..=64u8 {
        for i in 0..5u16 {
            let s = probe_sequence(ttl, 5, i);
            assert!(!seen.contains(&s));
            seen.push(s);
        }
    }
}

#[test]
fn hop_sequences_in_increasing_order() {
    let state = RunState::new(5, 1_000_000);
    let seqs = state.hop_sequences();
    assert_eq!(seqs, vec![0, 1, 2, 3, 4]);
}

#[test]
fn staleness_filter_drops_out_of_window_replies() {
    // For TTL 2 with 5 probes per hop the window is [5, 10): replies to
    // earlier or later hops collected in the window must not survive.
    let a = addr(10, 1, 1, 1);
    let collected = vec![
        reply(ReplyKind::TimeExceeded, 4, 100, a),  // previous hop, stale
        reply(ReplyKind::TimeExceeded, 5, 200, a),  // window start, kept
        reply(ReplyKind::TimeExceeded, 9, 300, a),  // window end, kept
        reply(ReplyKind::TimeExceeded, 10, 400, a), // next hop, stale
        reply(ReplyKind::EchoReply, 65535, 500, a), // far future, stale
    ];
    let kept = filter_current_window(&collected, 2, 5);
    assert_eq!(kept.len(), 2);
    assert_eq!(kept[0].sequence, 5);
    assert_eq!(kept[1].sequence, 9);
    // The stale EchoReply must not count as reaching the destination either.
    assert!(!batch_has_echo_reply(&kept));
}

#[test]
fn report_policy_mean_is_exact() {
    let a = addr(10, 0, 0, 9);
    let batch = vec![
        reply(ReplyKind::TimeExceeded, 0, 1000, a),
        reply(ReplyKind::TimeExceeded, 1, 2000, a),
        reply(ReplyKind::TimeExceeded, 2, 3000, a),
        reply(ReplyKind::TimeExceeded, 3, 4000, a),
        reply(ReplyKind::TimeExceeded, 4, 5500, a),
    ];
    // (1000 + 2000 + 3000 + 4000 + 5500) / 5 == 3100
    assert_eq!(
        summarize_batch(&batch, 5),
        HopReport::Complete { source: a, mean_micros: 3100 }
    );
}

#[test]
fn budget_clamps_to_zero_and_closes_window() {
    assert_eq!(remaining_budget(1_000_000, 400_000), 600_000);
    assert_eq!(remaining_budget(1_000_000, 1_000_000), 0);
    assert_eq!(remaining_budget(1_000_000, 2_000_000), 0);
    assert!(collection_open(1));
    assert!(!collection_open(0));
}

#[test]
fn destination_at_ttl_three_halts_with_destination_reached() {
    // Routers at TTL 1 and 2 answer all probes with TimeExceeded; the
    // destination at TTL 3 answers all probes with EchoReply.
    let router1 = addr(10, 0, 0, 1);
    let router2 = addr(10, 0, 0, 2);
    let dest = addr(93, 184, 216, 34);
    let mut state = RunState::new(5, 1_000_000);

    let batch1: Vec<HopReply> =
        (0..5).map(|i| reply(ReplyKind::TimeExceeded, i, 1000 * (i as u64 + 1), router1)).collect();
    let r1 = state.finish_hop(batch1);
    assert_eq!(r1, HopReport::Complete { source: router1, mean_micros: 3000 });
    assert!(!state.finished());

    let batch2: Vec<HopReply> =
        (5..10).map(|i| reply(ReplyKind::TimeExceeded, i, 2000, router2)).collect();
    let r2 = state.finish_hop(batch2);
    assert_eq!(r2, HopReport::Complete { source: router2, mean_micros: 2000 });
    assert!(!state.finished());

    let batch3: Vec<HopReply> =
        (10..15).map(|i| reply(ReplyKind::EchoReply, i, 3000, dest)).collect();
    let r3 = state.finish_hop(batch3);
    assert_eq!(r3, HopReport::Complete { source: dest, mean_micros: 3000 });
    assert!(state.finished());
    assert_eq!(state.halt_reason(), Some(HaltReason::DestinationReached));
}

#[test]
fn silent_hop_reported_lost_and_run_proceeds() {
    // A router at TTL 2 drops all probes: the hop is reported lost and the
    // engine proceeds to TTL 3 regardless.
    let router1 = addr(10, 0, 0, 1);
    let mut state = RunState::new(5, 1_000_000);
    let batch1: Vec<HopReply> =
        (0..5).map(|i| reply(ReplyKind::TimeExceeded, i, 900, router1)).collect();
    state.finish_hop(batch1);

    let r2 = state.finish_hop(Vec::new());
    assert_eq!(r2, HopReport::Lost);
    assert!(!state.finished());
    assert_eq!(state.ttl, 3);
    assert_eq!(state.halt_reason(), None);
}

#[test]
fn ttl_ceiling_halts_with_ttl_exceeded() {
    // No EchoReply is ever observed: after the TTL ceiling (64) the run
    // halts with TtlExceeded.
    let mut state = RunState::new(5, 1_000_000);
    let mut hops = 0;
    while !state.finished() {
        let r = state.finish_hop(Vec::new());
        assert_eq!(r, HopReport::Lost);
        hops += 1;
    }
    assert_eq!(hops, 64);
    assert_eq!(state.halt_reason(), Some(HaltReason::TtlExceeded));
}

#[test]
fn partial_batch_reports_first_source_without_timing() {
    // 2 of 5 probes receive TimeExceeded replies, the rest are lost: the hop
    // is reported with the first reply's address and timing unavailable.
    let router = addr(172, 16, 0, 1);
    let other = addr(172, 16, 0, 2);
    let mut state = RunState::new(5, 1_000_000);
    let batch = vec![
        reply(ReplyKind::TimeExceeded, 1, 700, router),
        reply(ReplyKind::TimeExceeded, 3, 800, other),
    ];
    let r = state.finish_hop(batch);
    assert_eq!(r, HopReport::Partial { source: router });
    assert!(!state.finished());
    assert_eq!(state.ttl, 2);
}

#[test]
fn echo_reply_classification_drives_destination_check() {
    let a = addr(8, 8, 4, 4);
    let none = vec![reply(ReplyKind::TimeExceeded, 0, 1, a)];
    assert!(!batch_has_echo_reply(&none));
    let one = vec![
        reply(ReplyKind::TimeExceeded, 0, 1, a),
        reply(ReplyKind::EchoReply, 1, 2, a),
    ];
    assert!(batch_has_echo_reply(&one));
}
