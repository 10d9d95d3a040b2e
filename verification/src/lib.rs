//! A one-dimensional elementary cellular automaton over a fixed row of 128
//! cells, packed into a `u128` (one bit per cell, most significant bit =
//! leftmost cell), with a rule-table lookup per 3-cell neighborhood and a
//! choice of fixed-zero or periodic boundary handling.

pub mod engine;
pub mod model;
