//! Conway's Game of Life on a bounded rectangular grid.
//!
//! The crate provides the automaton engine: a [`cell::Cell`] value type and a
//! [`grid::Grid`] that can resize itself, mutate single cells, clear, and
//! compute the next generation under the standard Life rule over the
//! 8-connected Moore neighborhood with hard (non-wrapping) edges.

pub mod cell;
pub mod grid;
pub mod rules;
