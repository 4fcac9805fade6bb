//! Writing config lines into their slots, marking them filled, and keeping the
//! stored count of filled slots in step with the bitmask.
use vstd::prelude::*;

use crate::bitmask::{
    lemma_bits_determine_byte, le_u32_at,
    filled_count, le_bytes, le_u32, lemma_filled_below_le, lemma_filled_below_mark,
    lemma_filled_below_same, set_slot_bit, slot_bit, stored_count, table_wf,
};
use crate::layout::{
    bit_byte, bitmask_start, line_offset, required_size, COUNT_START, LINES_START, LINE_WIDTH,
    NAME_WIDTH, URI_WIDTH,
};
use crate::state::{CandyError, ConfigLine};

verus! {

/// `s` followed by zero bytes up to width `w`.
pub open spec fn pad(s: Seq<u8>, w: nat) -> Seq<u8> {
    s + Seq::new((w - s.len()) as nat, |_k: int| 0u8)
}

/// `s` without its trailing zero bytes.
pub open spec fn trim_zeros(s: Seq<u8>) -> Seq<u8>
    decreases s.len(),
{
    if s.len() > 0 && s.last() == 0u8 {
        trim_zeros(s.drop_last())
    } else {
        s
    }
}

/// The stored bytes of a config line: the padded name, then the padded uri.
pub open spec fn line_bytes(name: Seq<u8>, uri: Seq<u8>) -> Seq<u8> {
    pad(name, NAME_WIDTH as nat) + pad(uri, URI_WIDTH as nat)
}

/// The (name, uri) bytes of each line.
pub open spec fn line_views(recs: Seq<ConfigLine>) -> Seq<(Seq<u8>, Seq<u8>)> {
    recs.map_values(|l: ConfigLine| (l.name@, l.uri@))
}

/// Whether every line fits its fixed-width fields.
pub open spec fn lines_fit(recs: Seq<(Seq<u8>, Seq<u8>)>) -> bool {
    forall|k: int| 0 <= k < recs.len() ==> #[trigger] recs[k].0.len() <= NAME_WIDTH && recs[k].1.len() <= URI_WIDTH
}

/// Whether slot `i` is one of those that lines written from slot `start` on cover.
pub open spec fn in_run(i: nat, start: nat, len: nat) -> bool {
    start <= i < start + len
}

/// `new` is `old` after writing `recs` into the slots from `start` on, in a
/// table of `n` slots: the header is kept; each written slot holds its padded
/// line and is marked filled; every other line and bit is kept; and the stored
/// count is the number of slots now marked filled.
pub open spec fn slots_written(old: Seq<u8>, new: Seq<u8>, n: nat, start: nat, recs: Seq<(Seq<u8>, Seq<u8>)>) -> bool {
    &&& new.len() == old.len()
    &&& forall|p: int| 0 <= p < COUNT_START ==> new[p] == old[p]
    &&& new.subrange(COUNT_START as int, COUNT_START + 4) == le_bytes(filled_count(new, n) as u32)
    &&& forall|i: nat, j: nat|
        #![trigger new[(line_offset(i) + j) as int]]
        i < n && j < LINE_WIDTH ==> new[(line_offset(i) + j) as int] == if in_run(i, start, recs.len()) {
            line_bytes(recs[i - start].0, recs[i - start].1)[j as int]
        } else {
            old[(line_offset(i) + j) as int]
        }
    &&& forall|i: nat| bit_byte(n, i) < old.len() ==> #[trigger] slot_bit(new, n, i) == (slot_bit(old, n, i) || in_run(i, start, recs.len()))
}

/// Reads the stored count of filled slots.
pub fn get_config_count(buf: &Vec<u8>) -> (r: u32)
    requires
        COUNT_START + 4 <= buf@.len(),
    ensures
        r == stored_count(buf@),
{
    let b0 = buf[COUNT_START];
    let b1 = buf[COUNT_START + 1];
    let b2 = buf[COUNT_START + 2];
    let b3 = buf[COUNT_START + 3];
    (b0 as u32) | ((b1 as u32) << 8u32) | ((b2 as u32) << 16u32) | ((b3 as u32) << 24u32)
}

/// Stores `v` as the count of filled slots, little-endian.
fn put_config_count(buf: &mut Vec<u8>, v: u32)
    requires
        COUNT_START + 4 <= old(buf)@.len(),
    ensures
        final(buf)@.len() == old(buf)@.len(),
        final(buf)@.subrange(COUNT_START as int, COUNT_START + 4) == le_bytes(v),
        forall|p: int| 0 <= p < old(buf)@.len() && !(COUNT_START <= p < COUNT_START + 4) ==> final(buf)@[p] == old(buf)@[p],
        stored_count(final(buf)@) == v,
{
    buf.set(COUNT_START, (v & 0xff) as u8);
    buf.set(COUNT_START + 1, ((v >> 8u32) & 0xff) as u8);
    buf.set(COUNT_START + 2, ((v >> 16u32) & 0xff) as u8);
    buf.set(COUNT_START + 3, ((v >> 24u32) & 0xff) as u8);
    assert(buf@.subrange(COUNT_START as int, COUNT_START + 4) =~= le_bytes(v));
    assert(le_u32((v & 0xff) as u8, ((v >> 8u32) & 0xff) as u8, ((v >> 16u32) & 0xff) as u8, ((v >> 24u32) & 0xff) as u8) == v) by (bit_vector);
}

/// Overwrites the `LINE_WIDTH` bytes at `off` with the padded `name` and `uri`.
fn put_line(buf: &mut Vec<u8>, off: usize, name: &Vec<u8>, uri: &Vec<u8>)
    requires
        off + LINE_WIDTH <= old(buf)@.len(),
        name@.len() <= NAME_WIDTH,
        uri@.len() <= URI_WIDTH,
    ensures
        final(buf)@.len() == old(buf)@.len(),
        forall|p: int| 0 <= p < old(buf)@.len() && !(off <= p < off + LINE_WIDTH) ==> final(buf)@[p] == old(buf)@[p],
        forall|j: int| 0 <= j < LINE_WIDTH ==> final(buf)@[off + j] == #[trigger] line_bytes(name@, uri@)[j],
{
    let ghost bytes = line_bytes(name@, uri@);
    let len = buf.len();
    let mut j: usize = 0;
    while j < LINE_WIDTH
        invariant
            j <= LINE_WIDTH,
            off + LINE_WIDTH <= old(buf)@.len(),
            old(buf)@.len() == len,
            name@.len() <= NAME_WIDTH,
            uri@.len() <= URI_WIDTH,
            bytes == line_bytes(name@, uri@),
            buf@.len() == old(buf)@.len(),
            forall|p: int| 0 <= p < old(buf)@.len() && !(off <= p < off + j) ==> buf@[p] == old(buf)@[p],
            forall|q: int| 0 <= q < j ==> buf@[off + q] == bytes[q],
        decreases LINE_WIDTH - j,
    {
        let b: u8 = if j < NAME_WIDTH {
            if j < name.len() { name[j] } else { 0u8 }
        } else {
            let u = j - NAME_WIDTH;
            if u < uri.len() { uri[u] } else { 0u8 }
        };
        assert(b == bytes[j as int]);
        buf.set(off + j, b);
        j = j + 1;
    }
}

/// Whether every line of `records` fits its fixed-width fields.
fn check_lines_fit(records: &Vec<ConfigLine>) -> (r: bool)
    ensures
        r == lines_fit(line_views(records@)),
{
    let mut k: usize = 0;
    while k < records.len()
        invariant
            k <= records@.len(),
            forall|q: int| #![trigger records@[q]] 0 <= q < k ==> records@[q].name@.len() <= NAME_WIDTH && records@[q].uri@.len() <= URI_WIDTH,
        decreases records@.len() - k,
    {
        if records[k].name.len() > NAME_WIDTH || records[k].uri.len() > URI_WIDTH {
            assert(line_views(records@)[k as int] == (records@[k as int].name@, records@[k as int].uri@));
            assert(line_views(records@).len() == records@.len());
            assert(!(line_views(records@)[k as int].0.len() <= NAME_WIDTH && line_views(records@)[k as int].1.len() <= URI_WIDTH));
            assert(!lines_fit(line_views(records@)));
            return false;
        }
        k = k + 1;
    }
    assert forall|q: int| 0 <= q < records@.len() implies #[trigger] line_views(records@)[q].0.len() <= NAME_WIDTH && line_views(records@)[q].1.len() <= URI_WIDTH by {
        assert(line_views(records@)[q] == (records@[q].name@, records@[q].uri@));
        assert(records@[q].name@.len() <= NAME_WIDTH && records@[q].uri@.len() <= URI_WIDTH);
    }
    true
}

/// Writes `records` into the slots from `start_index` on of a table of
/// `total_slot_count` slots, marks those slots filled, and stores the new
/// count of filled slots. Nothing is written unless every slot lies in the
/// table and every line fits its fields.
pub fn write_slots(buf: &mut Vec<u8>, total_slot_count: u32, start_index: u32, records: &Vec<ConfigLine>) -> (r: Result<(), CandyError>)
    requires
        table_wf(old(buf)@, total_slot_count as nat),
    ensures
        r == if start_index + records@.len() > total_slot_count {
            Err::<(), CandyError>(CandyError::SlotOutOfRange)
        } else if !lines_fit(line_views(records@)) {
            Err::<(), CandyError>(CandyError::FieldTooLong)
        } else {
            Ok::<(), CandyError>(())
        },
        r is Ok ==> slots_written(old(buf)@, final(buf)@, total_slot_count as nat, start_index as nat, line_views(records@)),
        r is Err ==> final(buf)@ == old(buf)@,
        table_wf(final(buf)@, total_slot_count as nat),
{
    let ghost n = total_slot_count as nat;
    let ghost start = start_index as nat;
    let ghost recs = line_views(records@);
    let ghost old_buf = buf@;
    if start_index > total_slot_count || records.len() > (total_slot_count - start_index) as usize {
        return Err(CandyError::SlotOutOfRange);
    }
    if !check_lines_fit(records) {
        return Err(CandyError::FieldTooLong);
    }
    let len = buf.len();
    let mut count = get_config_count(buf);
    let mut k: usize = 0;
    while k < records.len()
        invariant
            k <= recs.len(),
            recs == line_views(records@),
            recs.len() == records@.len(),
            start + recs.len() <= n,
            lines_fit(recs),
            n == total_slot_count,
            start == start_index,
            old_buf == old(buf)@,
            len == old_buf.len(),
            required_size(n, true) <= len,
            buf@.len() == len,
            forall|p: int| 0 <= p < COUNT_START + 4 ==> buf@[p] == old_buf[p],
            forall|i: nat, j: nat|
                #![trigger buf@[(line_offset(i) + j) as int]]
                i < n && j < LINE_WIDTH ==> buf@[(line_offset(i) + j) as int] == if in_run(i, start, k as nat) {
                    line_bytes(recs[i - start].0, recs[i - start].1)[j as int]
                } else {
                    old_buf[(line_offset(i) + j) as int]
                },
            forall|i: nat| bit_byte(n, i) < len ==> #[trigger] slot_bit(buf@, n, i) == (slot_bit(old_buf, n, i) || in_run(i, start, k as nat)),
            count as nat == filled_count(buf@, n),
        decreases recs.len() - k,
    {
        let slot: u32 = start_index + k as u32;
        proof {
            crate::layout::lemma_line_in_table(n, slot as nat, 0);
        }
        let off: usize = LINES_START + (slot as usize) * LINE_WIDTH;
        let ghost before = buf@;
        proof {
            crate::layout::lemma_line_in_table(n, slot as nat, 0);
        }
        assert(recs[k as int] == (records@[k as int].name@, records@[k as int].uri@));
        assert(recs[k as int].0.len() <= NAME_WIDTH && recs[k as int].1.len() <= URI_WIDTH);
        put_line(buf, off, &records[k].name, &records[k].uri);
        let ghost mid = buf@;
        proof {
        assert forall|i: nat| bit_byte(n, i) < len implies #[trigger] slot_bit(mid, n, i) == slot_bit(before, n, i) by {
            assert(mid[bit_byte(n, i) as int] == before[bit_byte(n, i) as int]);
        }
        assert forall|j: nat| j < n implies slot_bit(mid, n, j) == slot_bit(before, n, j) by {
            crate::layout::lemma_bit_byte_in_bounds(n, j);
        }
        lemma_filled_below_same(before, mid, n, n);
        assert forall|i: nat, j: nat| i < n && j < LINE_WIDTH implies #[trigger] mid[(line_offset(i) + j) as int] == if in_run(i, start, (k + 1) as nat) {
            line_bytes(recs[i - start].0, recs[i - start].1)[j as int]
        } else {
            old_buf[(line_offset(i) + j) as int]
        } by {
            crate::layout::lemma_line_in_table(n, i, j);
            crate::layout::lemma_line_in_table(n, slot as nat, 0);
            if i == slot {
                assert(mid[off + j] == line_bytes(recs[k as int].0, recs[k as int].1)[j as int]);
            } else {
                assert(before[(line_offset(i) + j) as int] == if in_run(i, start, k as nat) {
                    line_bytes(recs[i - start].0, recs[i - start].1)[j as int]
                } else {
                    old_buf[(line_offset(i) + j) as int]
                });
            }
        }
        }
        let changed = set_slot_bit(buf, total_slot_count, slot);
        proof {
            let after = buf@;
            assert forall|j: nat| j < n && j != slot implies slot_bit(mid, n, j) == slot_bit(after, n, j) by {
                crate::layout::lemma_bit_byte_in_bounds(n, j);
            }
            crate::layout::lemma_bit_byte_in_bounds(n, slot as nat);
            if changed {
                lemma_filled_below_mark(mid, after, n, slot as nat, n);
            } else {
                assert forall|j: nat| j < n implies slot_bit(mid, n, j) == slot_bit(after, n, j) by {
                    crate::layout::lemma_bit_byte_in_bounds(n, j);
                }
                lemma_filled_below_same(mid, after, n, n);
            }
            lemma_filled_below_le(after, n, n);
            assert forall|i: nat, j: nat| i < n && j < LINE_WIDTH implies #[trigger] after[(line_offset(i) + j) as int] == mid[(line_offset(i) + j) as int] by {
                crate::layout::lemma_line_in_table(n, i, j);
            }
        }
        if changed {
            count = count + 1;
        }
        k = k + 1;
    }
    let ghost before = buf@;
    put_config_count(buf, count);
    proof {
        let fin = buf@;
        assert forall|i: nat| bit_byte(n, i) < len implies #[trigger] slot_bit(fin, n, i) == slot_bit(before, n, i) by {
            assert(fin[bit_byte(n, i) as int] == before[bit_byte(n, i) as int]);
        }
        assert forall|j: nat| j < n implies slot_bit(fin, n, j) == slot_bit(before, n, j) by {
            crate::layout::lemma_bit_byte_in_bounds(n, j);
        }
        lemma_filled_below_same(before, fin, n, n);
        assert forall|i: nat, j: nat| i < n && j < LINE_WIDTH implies #[trigger] fin[(line_offset(i) + j) as int] == before[(line_offset(i) + j) as int] by {
            crate::layout::lemma_line_in_table(n, i, j);
        }
    }
    Ok(())
}

/// Padding a field keeps its bytes, fills the rest of the width with zero
/// bytes, and, when the field does not itself end in a zero byte, trimming
/// the trailing zero bytes gives the field back exactly.
pub proof fn lemma_pad_round_trip(s: Seq<u8>, w: nat)
    requires
        s.len() <= w,
    ensures
        pad(s, w).len() == w,
        pad(s, w).subrange(0, s.len() as int) == s,
        forall|k: int| s.len() <= k < w ==> pad(s, w)[k] == 0u8,
        s.len() == 0 || s.last() != 0u8 ==> trim_zeros(pad(s, w)) == s,
    decreases w - s.len(),
{
    assert(pad(s, w).subrange(0, s.len() as int) =~= s);
    if s.len() == 0 || s.last() != 0u8 {
        if w > s.len() {
            let shorter = pad(s, (w - 1) as nat);
            assert(pad(s, w).drop_last() =~= shorter);
            lemma_pad_round_trip(s, (w - 1) as nat);
        } else {
            assert(pad(s, w) =~= s);
        }
    }
}

/// The four bytes of a stored count read back as that count.
pub proof fn lemma_le_round_trip(s: Seq<u8>, at: int, v: u32)
    requires
        0 <= at,
        at + 4 <= s.len(),
        s.subrange(at, at + 4) == le_bytes(v),
    ensures
        le_u32_at(s, at) == v,
{
    assert(s[at] == s.subrange(at, at + 4)[0]);
    assert(s[at + 1] == s.subrange(at, at + 4)[1]);
    assert(s[at + 2] == s.subrange(at, at + 4)[2]);
    assert(s[at + 3] == s.subrange(at, at + 4)[3]);
    assert(le_u32((v & 0xff) as u8, ((v >> 8u32) & 0xff) as u8, ((v >> 16u32) & 0xff) as u8, ((v >> 24u32) & 0xff) as u8) == v) by (bit_vector);
}

/// After any write of config lines into a well-formed table, the stored count
/// equals the number of slots marked filled in the bitmask.
pub proof fn lemma_count_matches_bitmask(old: Seq<u8>, new: Seq<u8>, n: u32, start: nat, recs: Seq<(Seq<u8>, Seq<u8>)>)
    requires
        table_wf(old, n as nat),
        slots_written(old, new, n as nat, start, recs),
    ensures
        table_wf(new, n as nat),
        stored_count(new) as nat == filled_count(new, n as nat),
{
    lemma_filled_below_le(new, n as nat, n as nat);
    lemma_le_round_trip(new, COUNT_START as int, filled_count(new, n as nat) as u32);
}

/// Writing the same config lines into the same slots a second time leaves
/// the account, and so its count, exactly as the first write left it.
pub proof fn lemma_write_slots_idempotent(
    b0: Seq<u8>,
    b1: Seq<u8>,
    b2: Seq<u8>,
    n: nat,
    start: nat,
    recs: Seq<(Seq<u8>, Seq<u8>)>,
)
    requires
        required_size(n, true) <= b0.len(),
        slots_written(b0, b1, n, start, recs),
        slots_written(b1, b2, n, start, recs),
    ensures
        b2 == b1,
        stored_count(b2) == stored_count(b1),
{
    let len = b1.len();
    let bm = bitmask_start(n);
    assert forall|i: nat| i < n implies slot_bit(b2, n, i) == slot_bit(b1, n, i) by {
        crate::layout::lemma_bit_byte_in_bounds(n, i);
    }
    lemma_filled_below_same(b2, b1, n, n);
    assert forall|p: int| 0 <= p < len implies b2[p] == b1[p] by {
        if p < COUNT_START {
        } else if p < LINES_START {
            assert(b2[p] == b2.subrange(COUNT_START as int, COUNT_START + 4)[p - COUNT_START]);
            assert(b1[p] == b1.subrange(COUNT_START as int, COUNT_START + 4)[p - COUNT_START]);
        } else if p < bm {
            let x = p - LINES_START;
            let i = (x / (LINE_WIDTH as int)) as nat;
            let j = (x % (LINE_WIDTH as int)) as nat;
            assert(i * LINE_WIDTH + j == x && i < n && j < LINE_WIDTH) by (nonlinear_arith)
                requires
                    0 <= x < n * LINE_WIDTH,
                    i == x / (LINE_WIDTH as int),
                    j == x % (LINE_WIDTH as int),
            ;
            assert(line_offset(i) + j == p);
            assert(b2[(line_offset(i) + j) as int] == b1[(line_offset(i) + j) as int]);
        } else {
            let k = (p - bm) as nat;
            let b = b1[p];
            let c = b2[p];
            assert forall|q: u8| q < 8 implies #[trigger] ((c >> q) & 1u8) == (b >> q) & 1u8 by {
                let i = (8 * k + 7 - q) as nat;
                assert(i / 8 == k && i % 8 == 7 - q) by (nonlinear_arith)
                    requires
                        i == 8 * k + 7 - q,
                        q < 8,
                ;
                assert(bit_byte(n, i) == p);
                assert(crate::layout::bit_pos(i) == q);
                assert(slot_bit(b2, n, i) == (slot_bit(b1, n, i) || in_run(i, start, recs.len())));
                assert(slot_bit(b1, n, i) == (slot_bit(b0, n, i) || in_run(i, start, recs.len())));
                assert((c >> q) & 1u8 == 1u8 || (c >> q) & 1u8 == 0u8) by (bit_vector);
                assert((b >> q) & 1u8 == 1u8 || (b >> q) & 1u8 == 0u8) by (bit_vector);
            }
            lemma_bits_determine_byte(c, b);
        }
    }
    assert(b2 =~= b1);
}

} // verus!
