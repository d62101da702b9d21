//! Correspondence chess between two participants: short algebraic move
//! strings are parsed, resolved against the rules engine of the `chess`
//! crate, and applied to per-pair game sessions kept in a registry.

pub mod notation;
pub mod pieces;
pub mod position;
pub mod registry;
pub mod resolver;
pub mod session;
