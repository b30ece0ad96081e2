//! A rules engine for Rummikub tile sequences.
//!
//! Given an ordered sequence of tiles, the library decides whether it forms a
//! legal *run* (consecutive values in one color) or *group* (one value across
//! distinct colors), honoring four joker variants: a single-slot wildcard, a
//! double-slot wildcard, a mirror joker that demands the sequence be
//! palindromic around it, and a color-change joker that switches the color a
//! run is locked to.

pub mod colors;
pub mod laws;
pub mod parser;
pub mod solve;
pub mod tiles;
