//! Three linked data structures: a mutable stack, a persistent list with
//! shared tails, and a perfect binary tree.

pub mod binary;
pub mod persistently_linked;
pub mod stack;
