//! A miniature hash-linked block-header chain with proof-of-work throttling
//! and two rival parity rules layered on top of it, together with a small
//! chess state machine kept as an unrelated exercise in modelling state
//! transitions.

pub mod chain;
pub mod chess;
pub mod header;
