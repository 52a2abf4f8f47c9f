//! A batched local-alignment scorer for fuzzy text matching.
//!
//! Given one needle (the typed pattern) and a fixed-size batch of haystacks
//! (candidate strings), the scorer produces one relevance score per haystack:
//! a Smith-Waterman style local alignment with affine gap penalties, extended
//! with search-oriented bonuses for prefix matches, word-boundary delimiters,
//! capitalized haystack characters, the first needle character, and exact
//! matches.
//!
//! The mathematical model of the recurrence lives in [`model`], the scoring
//! constants in [`params`], the executable scorer in [`scorer`], and the
//! proved general properties of the scoring function in [`laws`].
#![verifier::loop_isolation(false)]

pub mod laws;
pub mod model;
pub mod params;
pub mod scorer;

pub use scorer::interleave_strings;
pub use scorer::score_lane;
pub use scorer::score_single;
pub use scorer::smith_waterman_inter_simd;
