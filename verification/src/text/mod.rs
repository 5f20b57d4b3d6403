//! Text primitives on which every other module rests.
//!
//! A text is modelled by the sequence of its characters: `s@`.
pub mod basic;
pub mod charwise;
pub mod numeral;
pub mod order;
pub mod search;
pub mod split;
