//! The mathematical model of the automaton: what a cell of a packed row is,
//! what the rule table says, and what one synchronous step produces at every
//! cell. The engine's contracts are stated over these functions.

use vstd::prelude::*;

verus! {

/// Bit `pos` of the packed row `x`, counting from the least significant end;
/// always 0 or 1.
pub open spec fn bit_of(x: u128, pos: int) -> u128
    recommends
        0 <= pos < 128,
{
    (x >> (pos as u128)) & 1
}

/// Value of cell `i` of the packed row `state`. Cell 0 is the leftmost cell
/// and sits in the most significant bit, so cell `i` is bit `127 - i`.
pub open spec fn cell(state: u128, i: int) -> u128
    recommends
        0 <= i < 128,
{
    bit_of(state, 127 - i)
}

/// Left neighbor of cell `i`. At the left edge it is 0 under the fixed
/// boundary and the rightmost cell under the periodic one.
pub open spec fn left_of(state: u128, periodic: bool, i: int) -> u128
    recommends
        0 <= i < 128,
{
    if i == 0 {
        if periodic {
            cell(state, 127)
        } else {
            0
        }
    } else {
        cell(state, i - 1)
    }
}

/// Right neighbor of cell `i`. At the right edge it is 0 under the fixed
/// boundary and the leftmost cell under the periodic one.
pub open spec fn right_of(state: u128, periodic: bool, i: int) -> u128
    recommends
        0 <= i < 128,
{
    if i == 127 {
        if periodic {
            cell(state, 0)
        } else {
            0
        }
    } else {
        cell(state, i + 1)
    }
}

/// The 3-bit neighborhood index of cell `i`: left, self, right read as a
/// binary number `left*4 + self*2 + right`, in the range 0..8.
pub open spec fn neighborhood(state: u128, periodic: bool, i: int) -> int
    recommends
        0 <= i < 128,
{
    left_of(state, periodic, i) * 4 + cell(state, i) * 2 + right_of(state, periodic, i)
}

/// Entry `idx` of the rule's 8-entry lookup table: bit `idx` of the rule
/// number.
pub open spec fn rule_bit(rule: u8, idx: int) -> u128
    recommends
        0 <= idx < 8,
{
    ((rule as u128) >> (idx as u128)) & 1
}

/// Next value of cell `i`: the rule table consulted at the cell's
/// neighborhood index, all three neighbors read from the old row.
pub open spec fn next_cell(rule: u8, state: u128, periodic: bool, i: int) -> u128
    recommends
        0 <= i < 128,
{
    rule_bit(rule, neighborhood(state, periodic, i))
}

/// The packed row unpacked into its 128 cell values, leftmost cell first.
pub open spec fn cells_of(state: u128) -> Seq<u8> {
    Seq::new(128, |i: int| cell(state, i) as u8)
}

/// Every bit of the zero row is 0.
pub proof fn lemma_bit_of_zero(k: u128)
    ensures
        (0u128 >> k) & 1 == 0,
{
    assert((0u128 >> k) & 1 == 0) by (bit_vector);
}

/// A single extracted bit is at most 1.
pub proof fn lemma_bit_le_one(x: u128, k: u128)
    ensures
        (x >> k) & 1 <= 1,
{
    assert((x >> k) & 1 <= 1) by (bit_vector);
}

/// Oring the one-bit value `b` into the clear bit `p` of `x` sets bit `p`
/// to `b` and leaves every other bit as it was.
pub proof fn lemma_or_bit(x: u128, b: u128, p: u128, k: u128)
    requires
        b <= 1,
        p < 128,
        k < 128,
        (x >> p) & 1 == 0,
    ensures
        ((x | (b << p)) >> k) & 1 == (if k == p {
            b
        } else {
            (x >> k) & 1
        }),
{
    assert(b <= 1 && p < 128 && k < 128 && (x >> p) & 1 == 0 ==> ((x | (b << p)) >> k) & 1 == (
    if k == p {
        b
    } else {
        (x >> k) & 1
    })) by (bit_vector);
}

/// Law: under rule 0 — an all-zero lookup table — every cell of the next
/// generation is 0, whatever the row and the boundary mode.
pub proof fn lemma_rule_zero_clears_row(state: u128, periodic: bool)
    ensures
        forall|i: int| 0 <= i < 128 ==> next_cell(0, state, periodic, i) == 0,
{
    assert forall|i: int| 0 <= i < 128 implies next_cell(0, state, periodic, i) == 0 by {
        let idx = neighborhood(state, periodic, i);
        lemma_neighborhood_in_range(state, periodic, i);
        lemma_bit_of_zero(idx as u128);
    }
}

/// Law: under rule 255 — an all-one lookup table — every cell of the next
/// generation is 1, whatever the row and the boundary mode.
pub proof fn lemma_rule_all_ones_fills_row(state: u128, periodic: bool)
    ensures
        forall|i: int| 0 <= i < 128 ==> next_cell(255, state, periodic, i) == 1,
{
    assert forall|i: int| 0 <= i < 128 implies next_cell(255, state, periodic, i) == 1 by {
        let idx = neighborhood(state, periodic, i);
        lemma_neighborhood_in_range(state, periodic, i);
        let k = idx as u128;
        assert(k < 8 ==> (255u128 >> k) & 1 == 1) by (bit_vector);
    }
}

/// The neighborhood index of any cell lies in the rule table's range 0..8.
pub proof fn lemma_neighborhood_in_range(state: u128, periodic: bool, i: int)
    requires
        0 <= i < 128,
    ensures
        0 <= neighborhood(state, periodic, i) < 8,
{
    lemma_bit_le_one(state, (127 - i) as u128);
    lemma_bit_le_one(state, (127 - (i - 1)) as u128);
    lemma_bit_le_one(state, (127 - (i + 1)) as u128);
    lemma_bit_le_one(state, 127u128);
    lemma_bit_le_one(state, 0u128);
}

/// Law: the boundary mode only matters at the two edge cells; an interior
/// cell's next value is the same under the fixed and the periodic boundary.
pub proof fn lemma_interior_mode_independent(rule: u8, state: u128, i: int)
    requires
        1 <= i < 127,
    ensures
        next_cell(rule, state, true, i) == next_cell(rule, state, false, i),
{
}

/// Law: packing a row of 0/1 values and unpacking it again returns the row
/// unchanged — `state` here is any packed row whose cells agree with `bits`,
/// which is what construction from `bits` establishes, and `cells_of` is
/// what reading the state back returns.
pub proof fn lemma_pack_round_trip(bits: Seq<u8>, state: u128)
    requires
        bits.len() == 128,
        forall|i: int| 0 <= i < 128 ==> bits[i] <= 1,
        forall|i: int| 0 <= i < 128 ==> cell(state, i) == bits[i] as u128,
    ensures
        cells_of(state) == bits,
{
    assert forall|i: int| 0 <= i < 128 implies cell(state, i) as u8 == bits[i] by {
        assert(cell(state, i) == bits[i] as u128);
    }
    assert(cells_of(state) =~= bits);
}

} // verus!
