//! The Internet checksum: the one's-complement 16-bit sum used by the ICMP
//! header. The checksum of a message is the complement of its folded word
//! sum; writing that checksum into the message's zeroed checksum field makes
//! the whole message re-validate to zero.

use vstd::prelude::*;
use vstd::arithmetic::div_mod::{
    lemma_fundamental_div_mod, lemma_mod_division_less_than_divisor, lemma_mod_multiples_vanish,
    lemma_sub_mod_noop, lemma_div_pos_is_pos,
};

verus! {

/// The big-endian 16-bit word starting at byte `2 * i`; an odd trailing byte
/// is padded with a zero low byte.
pub open spec fn word_at(data: Seq<u8>, i: int) -> u16
    recommends
        0 <= i,
        2 * i < data.len(),
{
    if 2 * i + 1 < data.len() {
        (data[2 * i] * 256 + data[2 * i + 1]) as u16
    } else {
        (data[2 * i] * 256) as u16
    }
}

/// The sequence of 16-bit words covered by the checksum.
pub open spec fn words_of(data: Seq<u8>) -> Seq<u16> {
    Seq::new(((data.len() + 1) / 2) as nat, |i: int| word_at(data, i))
}

/// The plain integer sum of a word sequence.
pub open spec fn sum_words(ws: Seq<u16>) -> int
    decreases ws.len(),
{
    if ws.len() == 0 {
        0
    } else {
        sum_words(ws.drop_last()) + ws.last()
    }
}

/// Folds the carry bits of a word sum back into the low 16 bits until the
/// value fits, as one's-complement addition requires.
pub open spec fn fold_carry(n: int) -> int
    recommends
        n >= 0,
    decreases n,
        via fold_carry_decreases
{
    if n <= 0xFFFF {
        n
    } else {
        fold_carry(n % 0x10000 + n / 0x10000)
    }
}

#[via_fn]
proof fn fold_carry_decreases(n: int) {
    if n > 0xFFFF {
        lemma_fundamental_div_mod(n, 0x10000);
        lemma_div_pos_is_pos(n, 0x10000);
        lemma_mod_division_less_than_divisor(n, 0x10000);
    }
}

/// The checksum of a word sequence: the one's-complement (16-bit negation)
/// of the folded sum.
pub open spec fn checksum_of_words(ws: Seq<u16>) -> u16 {
    (0xFFFF - fold_carry(sum_words(ws))) as u16
}

/// The Internet checksum of a byte message.
pub open spec fn internet_checksum(data: Seq<u8>) -> u16 {
    checksum_of_words(words_of(data))
}

pub proof fn lemma_sum_words_nonneg(ws: Seq<u16>)
    ensures
        sum_words(ws) >= 0,
    decreases ws.len(),
{
    if ws.len() > 0 {
        lemma_sum_words_nonneg(ws.drop_last());
    }
}

/// The folded sum stays congruent to the original sum modulo 0xFFFF, lands
/// in `[0, 0xFFFF]`, and is zero exactly for a zero sum.
pub proof fn lemma_fold_carry_props(n: int)
    requires
        n >= 0,
    ensures
        0 <= fold_carry(n) <= 0xFFFF,
        fold_carry(n) % 0xFFFF == n % 0xFFFF,
        (fold_carry(n) == 0) <==> (n == 0),
    decreases n,
{
    if n <= 0xFFFF {
    } else {
        let q = n / 0x10000;
        let r = n % 0x10000;
        lemma_fundamental_div_mod(n, 0x10000);
        lemma_div_pos_is_pos(n, 0x10000);
        lemma_mod_division_less_than_divisor(n, 0x10000);
        let m = r + q;
        assert(n == 0x10000 * q + r);
        assert(n - m == 0xFFFF * q);
        assert(m < n);
        lemma_fold_carry_props(m);
        lemma_mod_multiples_vanish(q, m, 0xFFFF);
        assert((0xFFFF * q + m) % 0xFFFF == m % 0xFFFF);
        assert(n % 0xFFFF == m % 0xFFFF);
    }
}

proof fn lemma_sum_words_update(ws: Seq<u16>, k: int, v: u16)
    requires
        0 <= k < ws.len(),
    ensures
        sum_words(ws.update(k, v)) == sum_words(ws) - ws[k] + v,
    decreases ws.len(),
{
    let ws2 = ws.update(k, v);
    if k == ws.len() - 1 {
        assert(ws2.drop_last() =~= ws.drop_last());
        assert(ws2.last() == v);
    } else {
        assert(ws2.drop_last() =~= ws.drop_last().update(k, v));
        lemma_sum_words_update(ws.drop_last(), k, v);
        assert(ws2.last() == ws.last());
    }
}

/// Law: writing the checksum computed over a word sequence whose checksum
/// slot holds zero back into that slot makes the sequence re-validate: its
/// checksum becomes zero.
pub proof fn lemma_checksum_words_round_trip(ws: Seq<u16>, k: int)
    requires
        0 <= k < ws.len(),
        ws[k] == 0,
    ensures
        checksum_of_words(ws.update(k, checksum_of_words(ws))) == 0,
{
    let s = sum_words(ws);
    lemma_sum_words_nonneg(ws);
    lemma_fold_carry_props(s);
    let f = fold_carry(s);
    let c = checksum_of_words(ws);
    assert(c == 0xFFFF - f);
    lemma_sum_words_update(ws, k, c);
    let s2 = sum_words(ws.update(k, c));
    assert(s2 == s + 0xFFFF - f);
    // s >= f in both branches of the fold, so the patched sum is positive.
    assert(s >= f);
    assert(s2 >= 0xFFFF);
    // The patched sum is a positive multiple of 0xFFFF.
    assert(s2 % 0xFFFF == 0) by {
        lemma_sub_mod_noop(s, f, 0xFFFF);
        assert((s - f) % 0xFFFF == ((s % 0xFFFF) - (f % 0xFFFF)) % 0xFFFF);
        assert((s - f) % 0xFFFF == 0);
        lemma_mod_multiples_vanish(1, s - f, 0xFFFF);
        assert((0xFFFF * 1 + (s - f)) % 0xFFFF == (s - f) % 0xFFFF);
    }
    lemma_fold_carry_props(s2);
    let f2 = fold_carry(s2);
    assert(f2 % 0xFFFF == 0);
    assert(0 < f2 <= 0xFFFF);
    assert(f2 == 0xFFFF) by {
        lemma_fundamental_div_mod(f2, 0xFFFF);
        lemma_div_pos_is_pos(f2, 0xFFFF);
    }
}

proof fn lemma_words_of_update_pair(data: Seq<u8>, k: int, hi: u8, lo: u8)
    requires
        0 <= k,
        2 * k + 1 < data.len(),
    ensures
        words_of(data.update(2 * k, hi).update(2 * k + 1, lo)) == words_of(data).update(
            k,
            (hi * 256 + lo) as u16,
        ),
{
    let d2 = data.update(2 * k, hi).update(2 * k + 1, lo);
    assert(words_of(d2) =~= words_of(data).update(k, (hi * 256 + lo) as u16)) by {
        assert forall|i: int| 0 <= i < words_of(d2).len() implies words_of(d2)[i] == words_of(
            data,
        ).update(k, (hi * 256 + lo) as u16)[i] by {
            if i != k {
                assert(d2[2 * i] == data[2 * i]);
                if 2 * i + 1 < data.len() {
                    assert(d2[2 * i + 1] == data[2 * i + 1]);
                }
            }
        }
    }
}

/// Law: checksum round trip over the bytes of a message. If the two checksum
/// bytes (a 16-bit-aligned big-endian pair) hold zero, computing the checksum
/// and writing it into those bytes yields a message whose checksum is zero.
pub proof fn lemma_checksum_round_trip(data: Seq<u8>, k: int)
    requires
        0 <= k,
        2 * k + 1 < data.len(),
        data[2 * k] == 0,
        data[2 * k + 1] == 0,
    ensures
        ({
            let c = internet_checksum(data);
            internet_checksum(
                data.update(2 * k, (c / 256) as u8).update(2 * k + 1, (c % 256) as u8),
            ) == 0
        }),
{
    let c = internet_checksum(data);
    let hi = (c / 256) as u8;
    let lo = (c % 256) as u8;
    lemma_fundamental_div_mod(c as int, 256);
    lemma_mod_division_less_than_divisor(c as int, 256);
    assert(hi * 256 + lo == c);
    assert(words_of(data)[k] == 0);
    lemma_words_of_update_pair(data, k, hi, lo);
    lemma_checksum_words_round_trip(words_of(data), k);
}

/// Computes the Internet checksum of a message. The length bound reflects
/// the 16-bit total-length field of an IPv4 datagram.
pub fn checksum16(data: &Vec<u8>) -> (c: u16)
    requires
        data@.len() <= 0xFFFF,
    ensures
        c == internet_checksum(data@),
{
    let ghost ws = words_of(data@);
    let n = data.len();
    let nw = (n + 1) / 2;
    let mut sum: u32 = 0;
    let mut i: usize = 0;
    while i < nw
        invariant
            data@.len() <= 0xFFFF,
            ws == words_of(data@),
            n == data@.len(),
            nw == (n + 1) / 2,
            0 <= i <= nw,
            sum as int == sum_words(ws.take(i as int)),
            sum <= i * 0xFFFF,
        decreases nw - i,
    {
        let hi = data[2 * i] as u32;
        let w: u32 = if 2 * i + 1 < n {
            hi * 256 + data[2 * i + 1] as u32
        } else {
            hi * 256
        };
        proof {
            assert(w == ws[i as int]);
            assert(ws.take(i + 1).drop_last() =~= ws.take(i as int));
            assert(ws.take(i + 1).last() == ws[i as int]);
        }
        sum = sum + w;
        i = i + 1;
    }
    proof {
        assert(ws.take(nw as int) =~= ws);
        lemma_sum_words_nonneg(ws);
    }
    while sum > 0xFFFF
        invariant
            fold_carry(sum as int) == fold_carry(sum_words(ws)),
        decreases sum,
    {
        sum = sum % 0x10000 + sum / 0x10000;
    }
    let c: u32 = 0xFFFF - sum;
    c as u16
}

} // verus!
