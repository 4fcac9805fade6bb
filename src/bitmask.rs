//! The fill bitmask: one bit per slot, and the running count of filled slots.
use vstd::prelude::*;

use crate::layout::{bit_byte, bit_pos, required_size, COUNT_START, LINES_START, LINE_WIDTH};

verus! {

/// Whether bit `pos` (counted from the least significant bit) of `b` is set.
pub open spec fn bit_of(b: u8, pos: nat) -> bool {
    (b >> (pos as u8)) & 1u8 == 1u8
}

/// Whether slot `i` of a table of `n` slots is marked filled in `s`.
pub open spec fn slot_bit(s: Seq<u8>, n: nat, i: nat) -> bool {
    bit_of(s[bit_byte(n, i) as int], bit_pos(i))
}

/// Number of slots below `k` marked filled.
pub open spec fn filled_below(s: Seq<u8>, n: nat, k: nat) -> nat
    decreases k,
{
    if k == 0 {
        0
    } else {
        filled_below(s, n, (k - 1) as nat) + if slot_bit(s, n, (k - 1) as nat) {
            1nat
        } else {
            0nat
        }
    }
}

/// Number of slots of a table of `n` slots marked filled.
pub open spec fn filled_count(s: Seq<u8>, n: nat) -> nat {
    filled_below(s, n, n)
}

/// The little-endian value of the four bytes at `at`.
pub open spec fn le_u32_at(s: Seq<u8>, at: int) -> u32 {
    le_u32(s[at], s[at + 1], s[at + 2], s[at + 3])
}

/// The little-endian value of four bytes.
pub open spec fn le_u32(b0: u8, b1: u8, b2: u8, b3: u8) -> u32 {
    (b0 as u32) | ((b1 as u32) << 8u32) | ((b2 as u32) << 16u32) | ((b3 as u32) << 24u32)
}

/// The four little-endian bytes of `v`.
pub open spec fn le_bytes(v: u32) -> Seq<u8> {
    seq![(v & 0xff) as u8, ((v >> 8u32) & 0xff) as u8, ((v >> 16u32) & 0xff) as u8, ((v >> 24u32) & 0xff) as u8]
}

/// The count of filled slots stored in the account.
pub open spec fn stored_count(s: Seq<u8>) -> u32 {
    le_u32_at(s, COUNT_START as int)
}

/// A well-formed table of `n` slots: the account is large enough and its
/// stored count equals the number of slots marked filled.
pub open spec fn table_wf(s: Seq<u8>, n: nat) -> bool {
    &&& required_size(n, true) <= s.len()
    &&& stored_count(s) as nat == filled_count(s, n)
}

/// Setting bit `p` of `b` sets that bit, keeps every other bit, and changes
/// the byte exactly when the bit was clear.
pub proof fn lemma_set_bit(b: u8, p: u8, q: u8)
    requires
        p < 8,
        q < 8,
    ensures
        ((b | (1u8 << p)) >> q) & 1u8 == if q == p { 1u8 } else { (b >> q) & 1u8 },
        (b | (1u8 << p)) != b <==> (b >> p) & 1u8 != 1u8,
{
    assert(((b | (1u8 << p)) >> q) & 1u8 == if q == p { 1u8 } else { (b >> q) & 1u8 }) by (bit_vector)
        requires
            p < 8,
            q < 8,
    ;
    assert((b | (1u8 << p)) != b <==> (b >> p) & 1u8 != 1u8) by (bit_vector)
        requires
            p < 8,
    ;
}

/// A byte is determined by its eight bits.
pub proof fn lemma_bits_determine_byte(a: u8, b: u8)
    requires
        forall|q: u8| q < 8 ==> #[trigger] ((a >> q) & 1u8) == (b >> q) & 1u8,
    ensures
        a == b,
{
    assert((a >> 0u8) & 1u8 == (b >> 0u8) & 1u8);
    assert((a >> 1u8) & 1u8 == (b >> 1u8) & 1u8);
    assert((a >> 2u8) & 1u8 == (b >> 2u8) & 1u8);
    assert((a >> 3u8) & 1u8 == (b >> 3u8) & 1u8);
    assert((a >> 4u8) & 1u8 == (b >> 4u8) & 1u8);
    assert((a >> 5u8) & 1u8 == (b >> 5u8) & 1u8);
    assert((a >> 6u8) & 1u8 == (b >> 6u8) & 1u8);
    assert((a >> 7u8) & 1u8 == (b >> 7u8) & 1u8);
    assert(a == b) by (bit_vector)
        requires
            (a >> 0u8) & 1u8 == (b >> 0u8) & 1u8,
            (a >> 1u8) & 1u8 == (b >> 1u8) & 1u8,
            (a >> 2u8) & 1u8 == (b >> 2u8) & 1u8,
            (a >> 3u8) & 1u8 == (b >> 3u8) & 1u8,
            (a >> 4u8) & 1u8 == (b >> 4u8) & 1u8,
            (a >> 5u8) & 1u8 == (b >> 5u8) & 1u8,
            (a >> 6u8) & 1u8 == (b >> 6u8) & 1u8,
            (a >> 7u8) & 1u8 == (b >> 7u8) & 1u8,
    ;
}

/// Two tables that agree on the bits of the first `k` slots count alike below `k`.
pub proof fn lemma_filled_below_same(s: Seq<u8>, t: Seq<u8>, n: nat, k: nat)
    requires
        forall|j: nat| j < k ==> slot_bit(s, n, j) == slot_bit(t, n, j),
    ensures
        filled_below(s, n, k) == filled_below(t, n, k),
    decreases k,
{
    if k > 0 {
        lemma_filled_below_same(s, t, n, (k - 1) as nat);
    }
}

/// Marking one more slot filled raises the count below `k` by one if it lies below `k`.
pub proof fn lemma_filled_below_mark(s: Seq<u8>, t: Seq<u8>, n: nat, i: nat, k: nat)
    requires
        forall|j: nat| j < k && j != i ==> slot_bit(s, n, j) == slot_bit(t, n, j),
        !slot_bit(s, n, i),
        slot_bit(t, n, i),
    ensures
        filled_below(t, n, k) == filled_below(s, n, k) + if i < k { 1nat } else { 0nat },
    decreases k,
{
    if k > 0 {
        lemma_filled_below_mark(s, t, n, i, (k - 1) as nat);
    }
}

/// A count of filled slots never exceeds the number of slots considered.
pub proof fn lemma_filled_below_le(s: Seq<u8>, n: nat, k: nat)
    ensures
        filled_below(s, n, k) <= k,
    decreases k,
{
    if k > 0 {
        lemma_filled_below_le(s, n, (k - 1) as nat);
    }
}

/// Sets the bit of slot `i`; returns whether the bitmask byte changed, that
/// is whether the slot was not yet marked filled.
pub fn set_slot_bit(buf: &mut Vec<u8>, n: u32, i: u32) -> (changed: bool)
    requires
        i < n,
        required_size(n as nat, true) <= old(buf)@.len(),
    ensures
        final(buf)@.len() == old(buf)@.len(),
        changed == !slot_bit(old(buf)@, n as nat, i as nat),
        forall|p: int| 0 <= p < old(buf)@.len() && p != bit_byte(n as nat, i as nat) ==> final(buf)@[p] == old(buf)@[p],
        forall|j: nat| bit_byte(n as nat, j) < old(buf)@.len() ==> #[trigger] slot_bit(final(buf)@, n as nat, j) == (slot_bit(old(buf)@, n as nat, j) || j == i),
{
    let len = buf.len();
    proof {
        crate::layout::lemma_bit_byte_in_bounds(n as nat, i as nat);
    }
    let nn = n as usize;
    let k = LINES_START + nn * LINE_WIDTH + (i as usize) / 8;
    let p: u8 = 7 - (i % 8) as u8;
    let mask: u8 = 1u8 << p;
    let old_byte = buf[k];
    let new_byte = old_byte | mask;
    buf.set(k, new_byte);
    proof {
        lemma_set_bit(old_byte, p, p);
        assert forall|j: nat| bit_byte(n as nat, j) < old(buf)@.len() implies #[trigger] slot_bit(buf@, n as nat, j) == (slot_bit(old(buf)@, n as nat, j) || j == i) by {
            if bit_byte(n as nat, j) == bit_byte(n as nat, i as nat) {
                lemma_set_bit(old_byte, p, bit_pos(j) as u8);
            }
        }
    }
    old_byte != new_byte
}

} // verus!
