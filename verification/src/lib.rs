//! A sequential one-dimensional ring cellular automaton for the density
//! classification task, together with a brute-force verifier of its rule:
//! given a circular sequence of 0/1 cells, the rule is meant to converge to
//! all-0 when 0s start in the majority and to all-1 when 1s do.

pub mod bits;
pub mod cell;
pub mod config;
pub mod laws;
pub mod render;
pub mod search;
