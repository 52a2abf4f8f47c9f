//! Scoring constants: penalty and bonus magnitudes, the lane count of a
//! batch, and the largest supported haystack length.
//!
//! The bounds are chosen together with the score width: with these magnitudes
//! a cell score can grow by at most [`MAX_CELL_GAIN`] per haystack position,
//! so no score of a haystack within [`MAX_HAYSTACK_LEN`] can overflow a
//! `u16`, exact-match bonus included.
use vstd::prelude::*;

verus! {

/// Number of haystacks scored together in one batch.
pub const LANES: usize = 8;

/// Largest haystack length a scoring call accepts; keeps every `u16`
/// score below `MAX_CELL_GAIN * MAX_HAYSTACK_LEN + EXACT_MATCH_BONUS`.
pub const MAX_HAYSTACK_LEN: usize = 512;

/// Score added for a matching character pair.
pub const MATCH_SCORE: u16 = 16;

/// Score removed when the diagonal step pairs two differing characters.
pub const MISMATCH_PENALTY: u16 = 4;

/// Cost of the first step of a gap in either direction.
pub const GAP_OPEN_PENALTY: u16 = 3;

/// Cost of continuing a gap already open in the same direction.
pub const GAP_EXTEND_PENALTY: u16 = 1;

/// Added to the match score when the match lands on the haystack's first
/// character.
pub const PREFIX_BONUS: u16 = 8;

/// Multiplier on the match value of the first needle character.
pub const FIRST_CHAR_MULTIPLIER: u16 = 2;

/// Added when the matched needle character is a word-boundary delimiter.
pub const DELIMITER_BONUS: u16 = 4;

/// Added when the matched haystack character is an uppercase letter at a
/// non-prefix position.
pub const CAPITALIZATION_BONUS: u16 = 4;

/// Added once to a lane whose haystack equals the needle byte for byte.
pub const EXACT_MATCH_BONUS: u16 = 4;

/// The largest amount a single matching step can add to a cell score:
/// first-character and prefix treatment on the base match value, plus the
/// delimiter and capitalization bonuses.
pub const MAX_CELL_GAIN: u16 = (MATCH_SCORE + PREFIX_BONUS) * FIRST_CHAR_MULTIPLIER
    + DELIMITER_BONUS + CAPITALIZATION_BONUS;

} // verus!
