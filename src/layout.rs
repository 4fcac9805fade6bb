//! Byte layout of a candy machine account: a fixed-size header, a four-byte
//! little-endian count of filled slots, the config lines, and a fill bitmask
//! with one bit per slot (most significant bit first within each byte).
use vstd::prelude::*;

use crate::state::CandyError;

verus! {

/// Width in bytes of the stored name field of a config line.
pub const NAME_WIDTH: usize = 32;

/// Width in bytes of the stored uri field of a config line.
pub const URI_WIDTH: usize = 200;

/// Width in bytes of the stored symbol of a candy machine.
pub const SYMBOL_WIDTH: usize = 10;

/// Largest number of creators of an item, the candy machine itself included.
pub const MAX_CREATORS: usize = 5;

/// Width in bytes of one config line: the padded name then the padded uri.
pub const LINE_WIDTH: usize = NAME_WIDTH + URI_WIDTH;

/// Size in bytes of the serialized header that opens the account.
pub const HEADER_SIZE: usize = 8     // account discriminator
    + 32 + 32 + 33                      // authority, wallet, optional token mint
    + 4 + 6                             // uuid
    + 8 + 8                             // price, items available
    + 9 + 10                            // go-live date, end settings
    + 4 + SYMBOL_WIDTH                  // symbol
    + 2                                 // seller fee basis points
    + 4 + MAX_CREATORS * 34             // creators
    + 8 + 1 + 1                         // max supply, is mutable, retain authority
    + 1 + 4 + NAME_WIDTH + 4 + URI_WIDTH + 32 // optional hidden settings
    + 4 + 8                             // line capacity, items redeemed
    + 1 + 1 + 1 + 9 + 32                // whitelist settings
    + 1 + 32 + 1                        // gatekeeper
    + 1 + 4 + NAME_WIDTH + 4 + URI_WIDTH + 1; // optional templated generation settings

/// Offset of the four-byte count of filled slots.
pub const COUNT_START: usize = HEADER_SIZE;

/// Offset of the first config line.
pub const LINES_START: usize = HEADER_SIZE + 4;

/// Bytes reserved after the config lines, beyond the bitmask's own bytes.
pub open spec fn reserve_after_lines(n: nat) -> nat {
    8 + 2 * (n / 8 + 1)
}

/// Offset of the config line of slot `i`.
pub open spec fn line_offset(i: nat) -> nat {
    LINES_START as nat + i * LINE_WIDTH as nat
}

/// Offset of the bitmask of a table of `n` slots: right after its lines.
pub open spec fn bitmask_start(n: nat) -> nat {
    line_offset(n)
}

/// Offset of the bitmask byte that holds the bit of slot `i`.
pub open spec fn bit_byte(n: nat, i: nat) -> nat {
    bitmask_start(n) + i / 8
}

/// Position, counted from the least significant bit, of slot `i`'s bit in its byte.
pub open spec fn bit_pos(i: nat) -> nat {
    (7 - (i % 8) as int) as nat
}

/// Length of an account of `n` slots, with or without a table of config lines.
pub open spec fn required_size(n: nat, table_present: bool) -> nat {
    if table_present {
        bitmask_start(n) + reserve_after_lines(n)
    } else {
        HEADER_SIZE as nat
    }
}

/// The bitmask byte of every slot lies inside an account of the required size.
pub proof fn lemma_bit_byte_in_bounds(n: nat, i: nat)
    requires
        i < n,
    ensures
        bit_byte(n, i) < required_size(n, true),
        bitmask_start(n) <= bit_byte(n, i),
{
}

/// Every byte of the line of a slot lies between the count and the bitmask.
pub proof fn lemma_line_in_table(n: nat, i: nat, j: nat)
    requires
        i < n,
        j < LINE_WIDTH,
    ensures
        LINES_START <= line_offset(i) + j < bitmask_start(n),
        line_offset(i) + LINE_WIDTH <= bitmask_start(n),
{
    assert(i * LINE_WIDTH + LINE_WIDTH <= n * LINE_WIDTH) by (nonlinear_arith)
        requires
            i < n,
    ;
}

/// An account of the size that `compute_required_size` gives holds, for each
/// slot of its table, the whole config line and the bitmask byte of that slot,
/// after the header and the count; without a table it holds the header.
pub proof fn lemma_required_size_holds_table(n: nat, i: nat)
    requires
        i < n,
    ensures
        COUNT_START + 4 == LINES_START,
        LINES_START <= line_offset(i),
        line_offset(i) + LINE_WIDTH <= bitmask_start(n),
        bitmask_start(n) <= bit_byte(n, i) < required_size(n, true),
        required_size(n, false) == HEADER_SIZE,
{
    lemma_line_in_table(n, i, 0);
    lemma_bit_byte_in_bounds(n, i);
}

/// Number of bytes an account needs for `total_slot_count` slots; a table of
/// config lines is present unless `table_present` is false.
pub fn compute_required_size(total_slot_count: u32, table_present: bool) -> (r: Result<usize, CandyError>)
    ensures
        required_size(total_slot_count as nat, table_present) <= usize::MAX ==> r == Ok::<usize, CandyError>(
            required_size(total_slot_count as nat, table_present) as usize,
        ),
        required_size(total_slot_count as nat, table_present) > usize::MAX ==> r == Err::<usize, CandyError>(
            CandyError::NumericalOverflowError,
        ),
{
    if !table_present {
        return Ok(HEADER_SIZE);
    }
    let n = total_slot_count as u64;
    let eighths = n / 8;
    assert(n * 232 <= 0xffff_ffff * 232) by (nonlinear_arith)
        requires
            n <= 0xffff_ffff,
    ;
    let total: u64 = LINES_START as u64 + n * (LINE_WIDTH as u64) + 8 + 2 * (eighths + 1);
    if total > usize::MAX as u64 {
        Err(CandyError::NumericalOverflowError)
    } else {
        Ok(total as usize)
    }
}

} // verus!
