//! Phrase occurrence counting over parses, the frequency histogram built from
//! it, and the integer side of the falling-factorial ratios used to estimate
//! vocabulary growth under resampling.

pub mod hist;
pub mod estimate;
pub mod falling;
pub mod model;
pub mod table;
