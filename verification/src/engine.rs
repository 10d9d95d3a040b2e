//! The automaton engine: a packed 128-cell row, the rule number, the
//! boundary mode, and the snapshot that `reset` restores.

use vstd::prelude::*;

verus! {

use crate::model::{
    bit_of, cell, cells_of, left_of, lemma_bit_le_one, lemma_bit_of_zero, lemma_or_bit, next_cell,
    right_of, rule_bit,
};

/// A one-dimensional elementary cellular automaton with a fixed row width of
/// 128 cells. The row is packed into `state`, one bit per cell, the leftmost
/// cell in the most significant bit.
pub struct CellularAutomaton {
    /// The rule number; bit `k` gives the next value of a cell whose
    /// neighborhood reads `k` as a 3-bit number.
    pub rule: u8,
    /// The current row, packed.
    pub state: u128,
    /// True treats the row as a ring; false pads both edges with zero cells.
    pub periodic_boundary: bool,
    /// The restore point for `reset`: the row captured at construction or at
    /// the last explicit state assignment.
    pub initial_state: u128,
}

/// Packs a row of 0/1 values into an integer, the first element becoming the
/// most significant bit. A row of any other length, or with entries other
/// than 0 and 1, is a contract violation of the caller: the row is neither
/// truncated nor padded.
pub fn vec_to_number(vec: Vec<u8>) -> (r: u128)
    requires
        vec@.len() == 128,
        forall|i: int| 0 <= i < 128 ==> vec@[i] <= 1,
    ensures
        forall|i: int| 0 <= i < 128 ==> cell(r, i) == vec@[i] as u128,
{
    let mut acc: u128 = 0;
    let mut i: usize = 0;
    proof {
        assert forall|j: int| 0 <= j < 128 implies cell(0u128, j) == 0 by {
            lemma_bit_of_zero((127 - j) as u128);
        }
    }
    while i < 128
        invariant
            i <= 128,
            vec@.len() == 128,
            forall|j: int| 0 <= j < 128 ==> vec@[j] <= 1,
            forall|j: int| 0 <= j < i ==> cell(acc, j) == vec@[j] as u128,
            forall|j: int| i <= j < 128 ==> cell(acc, j) == 0,
        decreases 128 - i,
    {
        let b: u128 = vec[i] as u128;
        let sh: u128 = (127 - i) as u128;
        let updated: u128 = acc | (b << sh);
        proof {
            assert(cell(acc, i as int) == 0);
            assert(bit_of(acc, 127 - i as int) == (acc >> sh) & 1);
            assert forall|j: int| 0 <= j < 128 implies cell(updated, j) == (if j == i as int {
                b
            } else {
                cell(acc, j)
            }) by {
                lemma_or_bit(acc, b, sh, (127 - j) as u128);
            }
        }
        acc = updated;
        i = i + 1;
    }
    acc
}

/// Reads one cell of a packed row.
fn get_cell(state: u128, i: usize) -> (r: u128)
    requires
        i < 128,
    ensures
        r == cell(state, i as int),
        r <= 1,
{
    let sh: u128 = (127 - i) as u128;
    let r: u128 = (state >> sh) & 1;
    proof {
        lemma_bit_le_one(state, sh);
    }
    r
}

impl CellularAutomaton {
    /// Builds an engine from a rule number, a row of 0/1 values (leftmost
    /// cell first), and a boundary mode; the packed row also becomes the
    /// restore point for `reset`.
    pub fn new(rule: u8, initial_state: Vec<u8>, periodic_boundary: bool) -> (r:
        CellularAutomaton)
        requires
            initial_state@.len() == 128,
            forall|i: int| 0 <= i < 128 ==> initial_state@[i] <= 1,
        ensures
            r.rule == rule,
            r.periodic_boundary == periodic_boundary,
            forall|i: int| 0 <= i < 128 ==> cell(r.state, i) == initial_state@[i] as u128,
            r.initial_state == r.state,
    {
        let packed: u128 = vec_to_number(initial_state);
        CellularAutomaton { rule, state: packed, periodic_boundary, initial_state: packed }
    }

    /// Unpacks the current row into its 128 cell values, leftmost cell
    /// first.
    pub fn get_state(&self) -> (r: Vec<u8>)
        ensures
            r@ == cells_of(self.state),
    {
        let mut r: Vec<u8> = Vec::new();
        let mut i: usize = 0;
        while i < 128
            invariant
                i <= 128,
                r@.len() == i,
                forall|j: int| 0 <= j < i ==> r@[j] == cell(self.state, j) as u8,
            decreases 128 - i,
        {
            let b: u128 = get_cell(self.state, i);
            r.push(b as u8);
            i = i + 1;
        }
        proof {
            assert(r@ =~= cells_of(self.state));
        }
        r
    }

    /// Advances time by one generation: every cell's new value is the rule
    /// table consulted at its old 3-cell neighborhood, the whole row updated
    /// synchronously from the old row. The restore point is untouched.
    pub fn step(&mut self)
        ensures
            forall|i: int|
                0 <= i < 128 ==> cell(final(self).state, i) == next_cell(
                    old(self).rule,
                    old(self).state,
                    old(self).periodic_boundary,
                    i,
                ),
            final(self).rule == old(self).rule,
            final(self).periodic_boundary == old(self).periodic_boundary,
            final(self).initial_state == old(self).initial_state,
    {
        let s: u128 = self.state;
        let rule: u8 = self.rule;
        let periodic: bool = self.periodic_boundary;
        let mut next: u128 = 0;
        let mut i: usize = 0;
        proof {
            assert forall|j: int| 0 <= j < 128 implies cell(0u128, j) == 0 by {
                lemma_bit_of_zero((127 - j) as u128);
            }
        }
        while i < 128
            invariant
                i <= 128,
                forall|j: int| 0 <= j < i ==> cell(next, j) == next_cell(rule, s, periodic, j),
                forall|j: int| i <= j < 128 ==> cell(next, j) == 0,
            decreases 128 - i,
        {
            let l: u128 = if i == 0 {
                if periodic {
                    get_cell(s, 127)
                } else {
                    0
                }
            } else {
                get_cell(s, i - 1)
            };
            let c: u128 = get_cell(s, i);
            let r: u128 = if i == 127 {
                if periodic {
                    get_cell(s, 0)
                } else {
                    0
                }
            } else {
                get_cell(s, i + 1)
            };
            let idx: u128 = l * 4 + c * 2 + r;
            let b: u128 = ((rule as u128) >> idx) & 1;
            let sh: u128 = (127 - i) as u128;
            proof {
                assert(l == left_of(s, periodic, i as int));
                assert(r == right_of(s, periodic, i as int));
                assert(b == rule_bit(rule, idx as int));
                lemma_bit_le_one(rule as u128, idx);
                assert(cell(next, i as int) == 0);
                assert(bit_of(next, 127 - i as int) == (next >> sh) & 1);
            }
            let updated: u128 = next | (b << sh);
            proof {
                assert forall|j: int| 0 <= j < 128 implies cell(updated, j) == (if j == i as int {
                    b
                } else {
                    cell(next, j)
                }) by {
                    lemma_or_bit(next, b, sh, (127 - j) as u128);
                }
            }
            next = updated;
            i = i + 1;
        }
        self.state = next;
    }

    /// Replaces the rule; the current row, the boundary mode and the restore
    /// point stay as they were, so the new rule takes effect only on future
    /// steps.
    pub fn set_rule(&mut self, rule: u8)
        ensures
            final(self).rule == rule,
            final(self).state == old(self).state,
            final(self).periodic_boundary == old(self).periodic_boundary,
            final(self).initial_state == old(self).initial_state,
    {
        self.rule = rule;
    }

    /// Packs a row of 0/1 values into the current row and moves the restore
    /// point to it; the rule and the boundary mode stay as they were.
    pub fn set_initial_state(&mut self, initial_state: Vec<u8>)
        requires
            initial_state@.len() == 128,
            forall|i: int| 0 <= i < 128 ==> initial_state@[i] <= 1,
        ensures
            forall|i: int|
                0 <= i < 128 ==> cell(final(self).state, i) == initial_state@[i] as u128,
            final(self).initial_state == final(self).state,
            final(self).rule == old(self).rule,
            final(self).periodic_boundary == old(self).periodic_boundary,
    {
        let packed: u128 = vec_to_number(initial_state);
        self.initial_state = packed;
        self.state = packed;
    }

    /// Replaces the boundary mode (true = periodic); everything else stays
    /// as it was, so the new mode takes effect only on future steps.
    pub fn set_periodic_boundary(&mut self, periodic_boundary: bool)
        ensures
            final(self).periodic_boundary == periodic_boundary,
            final(self).rule == old(self).rule,
            final(self).state == old(self).state,
            final(self).initial_state == old(self).initial_state,
    {
        self.periodic_boundary = periodic_boundary;
    }

    /// Restores the row captured at construction or at the last
    /// `set_initial_state`; idempotent, since the restore point itself is
    /// untouched.
    pub fn reset(&mut self)
        ensures
            final(self).state == old(self).initial_state,
            final(self).rule == old(self).rule,
            final(self).periodic_boundary == old(self).periodic_boundary,
            final(self).initial_state == old(self).initial_state,
    {
        self.state = self.initial_state;
    }
}

} // verus!
