//! A generic, exhaustively verified game-tree solver.
//!
//! The `solver` module holds the memoized search engine together with the
//! contracts that game adapters implement: a position enumerates its legal
//! moves, applies one, and classifies itself as terminal or not, while a
//! recursive value type explains how children's verdicts fold into the
//! parent's verdict.  The `games` module holds the shipped adapters:
//! take-away games, tic-tac-toe (square and non-square) and an
//! Order-and-Chaos variant, together with symmetry wrappers that collapse
//! whole orbits of boards into one memoization key.

pub mod games;
pub mod solver;
