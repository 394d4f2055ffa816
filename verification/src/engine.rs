//! The hop discovery engine: probe identity, the staleness filter, the
//! per-hop report policy, the destination check, and the state machine that
//! decides when a run halts. The engine never touches the transport: it hands
//! out the sequence numbers to probe with and consumes the replies the caller
//! collected within the hop's time window.

use vstd::prelude::*;
use vstd::arithmetic::div_mod::{
    lemma_div_by_multiple, lemma_div_is_ordered, lemma_fundamental_div_mod_converse,
};
use vstd::arithmetic::mul::lemma_mul_inequality;
use crate::packet::Ipv4Address;
use crate::reply::{HopReply, ReplyKind};

verus! {

/// The hop ceiling: a run never probes past this TTL.
pub const MAX_TTL: u8 = 64;

/// Largest supported probe count per hop; keeps every sequence number of a
/// run inside the 16-bit sequence field.
pub const MAX_REQUESTS_PER_HOP: u16 = 1024;

/// Probe identity: the sequence number that names probe `index` of hop `ttl`.
pub open spec fn spec_sequence(ttl: int, rph: int, index: int) -> int {
    (ttl - 1) * rph + index
}

/// Derives the sequence number for one probe of one hop.
pub fn probe_sequence(ttl: u8, requests_per_hop: u16, index: u16) -> (s: u16)
    requires
        1 <= ttl <= MAX_TTL,
        1 <= requests_per_hop <= MAX_REQUESTS_PER_HOP,
        index < requests_per_hop,
    ensures
        s as int == spec_sequence(ttl as int, requests_per_hop as int, index as int),
{
    proof {
        lemma_mul_inequality(ttl - 1, 63, requests_per_hop as int);
    }
    let t = ttl as u32;
    let r = requests_per_hop as u32;
    let s = (t - 1) * r + index as u32;
    s as u16
}

/// Law: the TTL a sequence number was issued for is recoverable from the
/// number alone: `ttl == sequence / requests_per_hop + 1`.
pub proof fn lemma_sequence_recovers_ttl(ttl: int, rph: int, index: int)
    requires
        1 <= ttl,
        1 <= rph,
        0 <= index < rph,
    ensures
        spec_sequence(ttl, rph, index) / rph + 1 == ttl,
        spec_sequence(ttl, rph, index) % rph == index,
{
    lemma_fundamental_div_mod_converse(spec_sequence(ttl, rph, index), rph, ttl - 1, index);
}

/// Law: probe identity — distinct (TTL, index) pairs are given distinct
/// sequence numbers, so sequence numbers are unique across a run.
pub proof fn lemma_sequence_unique(t1: int, i1: int, t2: int, i2: int, rph: int)
    requires
        1 <= rph,
        1 <= t1,
        1 <= t2,
        0 <= i1 < rph,
        0 <= i2 < rph,
        spec_sequence(t1, rph, i1) == spec_sequence(t2, rph, i2),
    ensures
        t1 == t2,
        i1 == i2,
{
    lemma_sequence_recovers_ttl(t1, rph, i1);
    lemma_sequence_recovers_ttl(t2, rph, i2);
}

/// Whether a sequence number belongs to hop `ttl`'s probe batch: the
/// half-open window `[(ttl-1)*rph, ttl*rph)`.
pub open spec fn in_window(seq_no: u16, ttl: int, rph: int) -> bool {
    (ttl - 1) * rph <= seq_no < ttl * rph
}

/// The staleness filter over a collected batch: only the replies whose
/// sequence numbers fall in hop `ttl`'s window survive, in arrival order.
pub open spec fn spec_filter_window(s: Seq<HopReply>, ttl: int, rph: int) -> Seq<HopReply>
    decreases s.len(),
{
    if s.len() == 0 {
        Seq::empty()
    } else {
        let rest = spec_filter_window(s.drop_last(), ttl, rph);
        if in_window(s.last().sequence, ttl, rph) {
            rest.push(s.last())
        } else {
            rest
        }
    }
}

/// Applies the staleness filter: drops every collected reply that answers a
/// probe of an earlier or later hop.
pub fn filter_current_window(replies: &Vec<HopReply>, ttl: u8, requests_per_hop: u16) -> (kept: Vec<
    HopReply,
>)
    requires
        ttl >= 1,
    ensures
        kept@ == spec_filter_window(replies@, ttl as int, requests_per_hop as int),
{
    let ghost ghost_ttl = ttl as int;
    let ghost ghost_rph = requests_per_hop as int;
    proof {
        assert((ttl as int) * (requests_per_hop as int) <= 255 * 65535) by (nonlinear_arith)
            requires
                ttl <= 255,
                requests_per_hop <= 65535,
        ;
        assert((ttl as int - 1) * (requests_per_hop as int) >= 0) by (nonlinear_arith)
            requires
                ttl >= 1,
                requests_per_hop >= 0,
        ;
        assert((ttl as int - 1) * (requests_per_hop as int) <= (ttl as int) * (
        requests_per_hop as int)) by (nonlinear_arith)
            requires
                requests_per_hop >= 0,
        ;
    }
    let lo = (ttl as u32 - 1) * (requests_per_hop as u32);
    let hi = (ttl as u32) * (requests_per_hop as u32);
    let mut kept: Vec<HopReply> = Vec::new();
    let mut i: usize = 0;
    while i < replies.len()
        invariant
            0 <= i <= replies@.len(),
            lo == (ttl - 1) * requests_per_hop,
            hi == ttl * requests_per_hop,
            kept@ == spec_filter_window(replies@.take(i as int), ghost_ttl, ghost_rph),
            ghost_ttl == ttl as int,
            ghost_rph == requests_per_hop as int,
        decreases replies@.len() - i,
    {
        let r = replies[i];
        let s = r.sequence as u32;
        if lo <= s && s < hi {
            kept.push(r);
        }
        proof {
            assert(replies@.take(i + 1).drop_last() =~= replies@.take(i as int));
            assert(replies@.take(i + 1).last() == replies@[i as int]);
            assert(kept@ == spec_filter_window(replies@.take(i + 1), ghost_ttl, ghost_rph));
        }
        i = i + 1;
    }
    proof {
        assert(replies@.take(replies@.len() as int) =~= replies@);
    }
    kept
}

/// Law: the staleness filter — a reply whose sequence number falls outside
/// hop `ttl`'s window never appears in that hop's reported batch, however it
/// was collected.
pub proof fn lemma_filter_excludes_stale(s: Seq<HopReply>, ttl: int, rph: int, j: int)
    requires
        0 <= j < spec_filter_window(s, ttl, rph).len(),
    ensures
        in_window(spec_filter_window(s, ttl, rph)[j].sequence, ttl, rph),
    decreases s.len(),
{
    if s.len() > 0 {
        let rest = spec_filter_window(s.drop_last(), ttl, rph);
        if j < rest.len() {
            lemma_filter_excludes_stale(s.drop_last(), ttl, rph, j);
        }
    }
}

/// The summed round-trip times of a batch, in microseconds.
pub open spec fn sum_micros(s: Seq<HopReply>) -> int
    decreases s.len(),
{
    if s.len() == 0 {
        0
    } else {
        sum_micros(s.drop_last()) + s.last().elapsed_micros
    }
}

/// The arithmetic mean of a batch's round-trip times, in microseconds.
pub open spec fn mean_micros(s: Seq<HopReply>) -> int
    recommends
        s.len() > 0,
{
    sum_micros(s) / s.len() as int
}

/// One hop's reported outcome: every probe lost, a partial batch (address
/// known, timing unavailable), or a full batch with the mean round trip.
#[derive(Clone, Copy, PartialEq, Eq, Structural, Debug)]
pub enum HopReport {
    Lost,
    Partial { source: Ipv4Address },
    Complete { source: Ipv4Address, mean_micros: u64 },
}

/// The report policy over a hop's surviving batch: no reply is a lost hop;
/// fewer replies than probes name the first reply's source with timing
/// unavailable; a full batch names the first reply's source and the mean
/// round-trip time.
pub open spec fn spec_report(s: Seq<HopReply>, rph: int) -> HopReport {
    if s.len() == 0 {
        HopReport::Lost
    } else if s.len() < rph {
        HopReport::Partial { source: s[0].source }
    } else {
        HopReport::Complete { source: s[0].source, mean_micros: mean_micros(s) as u64 }
    }
}

/// Summarizes one hop's surviving batch into its report line.
pub fn summarize_batch(replies: &Vec<HopReply>, requests_per_hop: u16) -> (r: HopReport)
    ensures
        r == spec_report(replies@, requests_per_hop as int),
{
    if replies.len() == 0 {
        return HopReport::Lost;
    }
    let source = replies[0].source;
    if replies.len() < requests_per_hop as usize {
        return HopReport::Partial { source };
    }
    let mut sum: u128 = 0;
    let mut i: usize = 0;
    while i < replies.len()
        invariant
            0 <= i <= replies@.len(),
            replies@.len() < 0x1_0000_0000_0000_0000,
            sum as int == sum_micros(replies@.take(i as int)),
            sum as int <= i * 0xFFFF_FFFF_FFFF_FFFF,
        decreases replies@.len() - i,
    {
        proof {
            assert(replies@.take(i + 1).drop_last() =~= replies@.take(i as int));
            assert(replies@.take(i + 1).last() == replies@[i as int]);
        }
        sum = sum + replies[i].elapsed_micros as u128;
        i = i + 1;
    }
    proof {
        assert(replies@.take(replies@.len() as int) =~= replies@);
    }
    let n = replies.len() as u128;
    let mean = sum / n;
    proof {
        let len = replies@.len() as int;
        lemma_div_is_ordered(sum as int, len * 0xFFFF_FFFF_FFFF_FFFF, len);
        lemma_div_by_multiple(0xFFFF_FFFF_FFFF_FFFF, len);
        assert((0xFFFF_FFFF_FFFF_FFFF * len) / len == 0xFFFF_FFFF_FFFF_FFFF);
        assert(mean as int <= 0xFFFF_FFFF_FFFF_FFFF);
    }
    HopReport::Complete { source, mean_micros: mean as u64 }
}

/// Whether any reply of a batch is an Echo Reply, which marks the
/// destination itself answering.
pub open spec fn spec_any_echo(s: Seq<HopReply>) -> bool {
    exists|i: int| 0 <= i < s.len() && s[i].kind == ReplyKind::EchoReply
}

/// The destination check: does any surviving reply come from the destination
/// (classification Echo Reply)?
pub fn batch_has_echo_reply(replies: &Vec<HopReply>) -> (b: bool)
    ensures
        b == spec_any_echo(replies@),
{
    let mut i: usize = 0;
    while i < replies.len()
        invariant
            0 <= i <= replies@.len(),
            forall|j: int| 0 <= j < i ==> replies@[j].kind != ReplyKind::EchoReply,
        decreases replies@.len() - i,
    {
        if replies[i].kind == ReplyKind::EchoReply {
            proof {
                assert(spec_any_echo(replies@));
            }
            return true;
        }
        i = i + 1;
    }
    false
}

/// Why a run halted: the destination answered, or the hop ceiling was
/// reached without it ever answering.
#[derive(Clone, Copy, PartialEq, Eq, Structural, Debug)]
pub enum HaltReason {
    DestinationReached,
    TtlExceeded,
}

/// The run's whole mutable state: the hop being probed, the per-hop probe
/// count, the per-hop wait budget, and whether the destination has answered.
#[derive(Clone, Copy, PartialEq, Eq, Structural, Debug)]
pub struct RunState {
    pub ttl: u8,
    pub requests_per_hop: u16,
    pub wait_budget_micros: u64,
    pub destination_reached: bool,
}

impl RunState {
    /// The state's invariant: the TTL stays within one step past the ceiling
    /// and the probe count keeps every sequence number inside 16 bits.
    pub open spec fn wf(self) -> bool {
        &&& 1 <= self.ttl <= MAX_TTL + 1
        &&& 1 <= self.requests_per_hop <= MAX_REQUESTS_PER_HOP
    }

    /// Whether the run is in a terminal state.
    pub open spec fn spec_finished(self) -> bool {
        self.destination_reached || self.ttl > MAX_TTL
    }

    /// Why the run halted, if it has.
    pub open spec fn spec_halt_reason(self) -> Option<HaltReason> {
        if self.destination_reached {
            Some(HaltReason::DestinationReached)
        } else if self.ttl > MAX_TTL {
            Some(HaltReason::TtlExceeded)
        } else {
            None
        }
    }

    /// A fresh run: first hop, destination not yet reached.
    pub fn new(requests_per_hop: u16, wait_budget_micros: u64) -> (s: RunState)
        requires
            1 <= requests_per_hop <= MAX_REQUESTS_PER_HOP,
        ensures
            s == (RunState {
                ttl: 1u8,
                requests_per_hop,
                wait_budget_micros,
                destination_reached: false,
            }),
            s.wf(),
            !s.spec_finished(),
    {
        RunState { ttl: 1, requests_per_hop, wait_budget_micros, destination_reached: false }
    }

    pub fn finished(&self) -> (b: bool)
        ensures
            b == self.spec_finished(),
    {
        self.destination_reached || self.ttl > MAX_TTL
    }

    pub fn halt_reason(&self) -> (r: Option<HaltReason>)
        ensures
            r == self.spec_halt_reason(),
    {
        if self.destination_reached {
            Some(HaltReason::DestinationReached)
        } else if self.ttl > MAX_TTL {
            Some(HaltReason::TtlExceeded)
        } else {
            None
        }
    }

    /// The sequence numbers of the current hop's probe batch, in the
    /// (increasing) order the probes are to be transmitted.
    pub fn hop_sequences(&self) -> (seqs: Vec<u16>)
        requires
            self.wf(),
            !self.spec_finished(),
        ensures
            seqs@.len() == self.requests_per_hop as int,
            forall|i: int|
                0 <= i < seqs@.len() ==> seqs@[i] as int == spec_sequence(
                    self.ttl as int,
                    self.requests_per_hop as int,
                    i,
                ),
    {
        let mut seqs: Vec<u16> = Vec::new();
        let mut i: u16 = 0;
        while i < self.requests_per_hop
            invariant
                self.wf(),
                !self.spec_finished(),
                0 <= i <= self.requests_per_hop,
                seqs@.len() == i as int,
                forall|j: int|
                    0 <= j < seqs@.len() ==> seqs@[j] as int == spec_sequence(
                        self.ttl as int,
                        self.requests_per_hop as int,
                        j,
                    ),
            decreases self.requests_per_hop - i,
        {
            let s = probe_sequence(self.ttl, self.requests_per_hop, i);
            seqs.push(s);
            i = i + 1;
        }
        seqs
    }

    /// Closes the current hop: filters the collected batch for staleness,
    /// summarizes the survivors into the hop's report, records whether the
    /// destination answered, and advances to the next hop.
    pub fn finish_hop(&mut self, collected: Vec<HopReply>) -> (report: HopReport)
        requires
            old(self).wf(),
            !old(self).spec_finished(),
        ensures
            ({
                let kept = spec_filter_window(
                    collected@,
                    old(self).ttl as int,
                    old(self).requests_per_hop as int,
                );
                &&& report == spec_report(kept, old(self).requests_per_hop as int)
                &&& final(self).destination_reached == spec_any_echo(kept)
                &&& final(self).ttl == old(self).ttl + 1
                &&& final(self).requests_per_hop == old(self).requests_per_hop
                &&& final(self).wait_budget_micros == old(self).wait_budget_micros
                &&& final(self).wf()
            }),
    {
        let kept = filter_current_window(&collected, self.ttl, self.requests_per_hop);
        let report = summarize_batch(&kept, self.requests_per_hop);
        let reached = batch_has_echo_reply(&kept);
        self.destination_reached = reached;
        self.ttl = self.ttl + 1;
        report
    }
}

/// The time still left in a hop's wait budget, clamped to zero so that an
/// overrun never turns into a negative (or wrapped) wait.
pub fn remaining_budget(budget_micros: u64, elapsed_micros: u64) -> (r: u64)
    ensures
        r as int == if elapsed_micros >= budget_micros {
            0int
        } else {
            budget_micros - elapsed_micros
        },
{
    if elapsed_micros >= budget_micros {
        0
    } else {
        budget_micros - elapsed_micros
    }
}

/// Whether the collection window is still open: a remaining budget of zero
/// means "stop collecting now", never "wait forever".
pub fn collection_open(remaining_micros: u64) -> (b: bool)
    ensures
        b == (remaining_micros > 0),
{
    remaining_micros > 0
}

} // verus!
