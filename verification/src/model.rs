//! The mathematical model of the scorer: a Smith-Waterman local-alignment
//! recurrence with affine gaps, defined cell by cell over byte sequences.
//!
//! A cell at needle position `i` and haystack position `j` (both 1-based,
//! with a zero boundary at position 0) carries the best score of a local
//! alignment ending there, together with one gap-state flag per direction:
//! whether the next gap step in that direction opens a new gap (full
//! penalty) or extends one already in progress (reduced penalty).
use crate::params::{
    CAPITALIZATION_BONUS, DELIMITER_BONUS, EXACT_MATCH_BONUS, FIRST_CHAR_MULTIPLIER,
    GAP_EXTEND_PENALTY, GAP_OPEN_PENALTY, MATCH_SCORE, MISMATCH_PENALTY, PREFIX_BONUS,
};
use vstd::prelude::*;

verus! {

/// The larger of two integers.
pub open spec fn max2(a: int, b: int) -> int {
    if a >= b {
        a
    } else {
        b
    }
}

/// `a` floored at zero: local alignment abandons negative-trending paths.
pub open spec fn max0(a: int) -> int {
    max2(a, 0)
}

/// Whether `b` is an ASCII uppercase letter.
pub open spec fn is_upper(b: u8) -> bool {
    65 <= b && b <= 90
}

/// Lowercase folding as applied to haystack bytes before comparison:
/// ASCII uppercase letters map to their lowercase counterparts, every
/// other byte is unchanged.
pub open spec fn fold_byte(b: u8) -> u8 {
    if is_upper(b) {
        (b + 32) as u8
    } else {
        b
    }
}

/// The word-boundary bytes that earn the delimiter bonus:
/// space, slash, dot, comma, underscore, dash.
pub open spec fn is_delimiter(b: u8) -> bool {
    b == 32 || b == 47 || b == 46 || b == 44 || b == 95 || b == 45
}

/// The haystack byte read at 1-based position `j`: the string's own byte
/// while `j` is within it, and the score-neutral byte 0 beyond it (absent
/// positions of a padded batch lane).
pub open spec fn hay_byte(h: Seq<u8>, j: int) -> u8 {
    if 1 <= j && j <= h.len() {
        h[j - 1]
    } else {
        0
    }
}

/// Base value of a match at needle position `i` and haystack position `j`:
/// the prefix bonus is added at haystack position 1, and the first needle
/// position multiplies the result.
pub open spec fn base_match_gain(i: int, j: int) -> int {
    if i == 1 && j == 1 {
        (MATCH_SCORE + PREFIX_BONUS) * FIRST_CHAR_MULTIPLIER as int
    } else if i == 1 {
        MATCH_SCORE * FIRST_CHAR_MULTIPLIER as int
    } else if j == 1 {
        MATCH_SCORE + PREFIX_BONUS as int
    } else {
        MATCH_SCORE as int
    }
}

/// Everything a matching diagonal step adds to the cell score: the base
/// match value, the delimiter bonus when the needle character is a
/// word-boundary byte, and the capitalization bonus when the haystack
/// character is an uppercase letter at a non-prefix position.
pub open spec fn match_gain(n: Seq<u8>, h: Seq<u8>, i: int, j: int) -> int {
    base_match_gain(i, j) + (if is_delimiter(n[i - 1]) {
        DELIMITER_BONUS as int
    } else {
        0
    }) + (if j != 1 && is_upper(hay_byte(h, j)) {
        CAPITALIZATION_BONUS as int
    } else {
        0
    })
}

/// One cell of the alignment grid: its score and the gap state it leaves
/// behind in each direction.
///
/// `row_open` governs the step to haystack position `j + 1` at the same
/// needle position (a gap in the needle); `col_open` governs the step to
/// needle position `i + 1` at the same haystack position (a gap in the
/// haystack). A direction is open whenever the cell's winning move was not
/// that direction's own gap continuation, or was the diagonal.
pub struct ScoreCell {
    pub score: int,
    pub row_open: bool,
    pub col_open: bool,
}

/// The local-alignment recurrence. Boundary cells (`i <= 0` or `j <= 0`)
/// score zero with both gap directions open; an inner cell takes the best
/// of the diagonal step (match or mismatch), the needle-gap step along the
/// row, and the haystack-gap step along the column, floored at zero.
pub open spec fn cell(n: Seq<u8>, h: Seq<u8>, i: int, j: int) -> ScoreCell
    decreases i, j,
{
    if i <= 0 || j <= 0 {
        ScoreCell { score: 0, row_open: true, col_open: true }
    } else {
        let diag = cell(n, h, i - 1, j - 1).score;
        let row_prev = cell(n, h, i, j - 1);
        let col_prev = cell(n, h, i - 1, j);
        let diag_score = if n[i - 1] == fold_byte(hay_byte(h, j)) {
            diag + match_gain(n, h, i, j)
        } else {
            max0(diag - MISMATCH_PENALTY)
        };
        let row_gap = max0(
            row_prev.score - (if row_prev.row_open {
                GAP_OPEN_PENALTY as int
            } else {
                GAP_EXTEND_PENALTY as int
            }),
        );
        let col_gap = max0(
            col_prev.score - (if col_prev.col_open {
                GAP_OPEN_PENALTY as int
            } else {
                GAP_EXTEND_PENALTY as int
            }),
        );
        let s = max2(diag_score, max2(row_gap, col_gap));
        ScoreCell {
            score: s,
            row_open: s != row_gap || s == diag_score,
            col_open: s != col_gap || s == diag_score,
        }
    }
}

/// The best cell score at needle position `i` over haystack positions
/// `1..=j`.
pub open spec fn best_in_row(n: Seq<u8>, h: Seq<u8>, i: int, j: int) -> int
    decreases j,
{
    if j <= 0 {
        0
    } else {
        max2(best_in_row(n, h, i, j - 1), cell(n, h, i, j).score)
    }
}

/// The best cell score over needle positions `1..=i` and haystack
/// positions `1..=hlen`.
pub open spec fn best_grid(n: Seq<u8>, h: Seq<u8>, i: int, hlen: int) -> int
    decreases i,
{
    if i <= 0 {
        0
    } else {
        max2(best_grid(n, h, i - 1, hlen), best_in_row(n, h, i, hlen))
    }
}

/// The alignment score of one haystack against the needle, scanned over
/// `hlen` haystack positions: the maximum cell score anywhere in the grid.
pub open spec fn sw_score(n: Seq<u8>, h: Seq<u8>, hlen: int) -> int {
    best_grid(n, h, n.len() as int, hlen)
}

/// The score a lane reports: the alignment score, plus the exact-match
/// bonus when the haystack equals the needle byte for byte.
pub open spec fn full_score(n: Seq<u8>, h: Seq<u8>, hlen: int) -> int {
    sw_score(n, h, hlen) + (if n == h {
        EXACT_MATCH_BONUS as int
    } else {
        0
    })
}

/// The needle and the scanned haystack window share no character: no
/// needle byte equals any lowercase-folded byte the window reads,
/// padding positions included.
pub open spec fn no_common_char(n: Seq<u8>, h: Seq<u8>, hlen: int) -> bool {
    forall|i: int, j: int|
        #![trigger n[i], hay_byte(h, j)]
        0 <= i < n.len() && 1 <= j <= hlen ==> n[i] != fold_byte(hay_byte(h, j))
}

/// No needle byte is 0, the byte that absent (padded) haystack positions
/// read as; such a needle can never match padding.
pub open spec fn no_zero_byte(n: Seq<u8>) -> bool {
    forall|i: int| 0 <= i < n.len() ==> n[i] != 0
}

/// The byte string lane `k` of a batch holds: the supplied haystack where
/// one was supplied, and the empty string for unfilled lanes.
pub open spec fn lane_bytes(hs: Seq<Vec<u8>>, k: int) -> Seq<u8> {
    if 0 <= k < hs.len() {
        hs[k]@
    } else {
        Seq::empty()
    }
}

/// The largest length among the first `k` haystacks of a batch.
pub open spec fn max_len_upto(hs: Seq<Vec<u8>>, k: int) -> int
    decreases k,
{
    if k <= 0 {
        0
    } else {
        max2(max_len_upto(hs, k - 1), hs[k - 1]@.len() as int)
    }
}

/// The number of haystack positions a batch scans: the length of its
/// longest haystack.
pub open spec fn batch_bound(hs: Seq<Vec<u8>>) -> int {
    max_len_upto(hs, hs.len() as int)
}

} // verus!
