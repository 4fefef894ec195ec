//! Randomized draft-pack assembly for a two-sided collectible card game.
//!
//! A catalog of classified cards is sampled slot by slot: each slot asks for
//! a side, a rarity and possibly a faction, and a guarded sampler picks a
//! card uniformly from the matching pool while widening an exclusion set
//! whenever the pack's type-overage budget is spent.

pub mod cards;
pub mod classify;
pub mod catalog;
pub mod pack;
pub mod slots;
pub mod sampler;
pub mod assembler;
pub mod output;
pub mod laws;
pub mod rng;
pub mod text;
