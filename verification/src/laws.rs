//! Proved general properties of the scoring recurrence: score bounds
//! (non-negativity and the per-position growth cap that keeps `u16`
//! arithmetic exact), the zero score of haystacks sharing no character
//! with the needle, and the independence of a lane's score from the
//! batch it was scored in.
use crate::model::{
    batch_bound, best_grid, best_in_row, cell, fold_byte, full_score, hay_byte, match_gain,
    max0, max_len_upto, no_common_char, no_zero_byte, sw_score,
};
use crate::params::{EXACT_MATCH_BONUS, MAX_CELL_GAIN, MAX_HAYSTACK_LEN};
use vstd::arithmetic::mul::lemma_mul_basics;
use vstd::arithmetic::mul::lemma_mul_inequality;
use vstd::arithmetic::mul::lemma_mul_is_commutative;
use vstd::arithmetic::mul::lemma_mul_is_distributive_add;
use vstd::prelude::*;

verus! {

/// One step of the growth cap: the cap at haystack position `j` exceeds the
/// cap at `j - 1` by exactly one maximal matching step.
pub(crate) proof fn lemma_gain_cap_step(j: int)
    requires
        j >= 1,
    ensures
        MAX_CELL_GAIN * max0(j) == MAX_CELL_GAIN * max0(j - 1) + MAX_CELL_GAIN,
{
    lemma_mul_is_distributive_add(MAX_CELL_GAIN as int, j - 1, 1);
    lemma_mul_basics(MAX_CELL_GAIN as int);
}

/// Every cell score is non-negative, and a cell at haystack position `j`
/// scores at most `MAX_CELL_GAIN * j`: each haystack position consumed can
/// contribute at most one matching step.
pub proof fn lemma_cell_bound(n: Seq<u8>, h: Seq<u8>, i: int, j: int)
    ensures
        0 <= cell(n, h, i, j).score,
        cell(n, h, i, j).score <= MAX_CELL_GAIN * max0(j),
    decreases i, j,
{
    if i <= 0 || j <= 0 {
    } else {
        lemma_cell_bound(n, h, i - 1, j - 1);
        lemma_cell_bound(n, h, i, j - 1);
        lemma_cell_bound(n, h, i - 1, j);
        assert(match_gain(n, h, i, j) <= MAX_CELL_GAIN);
        lemma_gain_cap_step(j);
    }
}

/// Non-negativity of every intermediate cell score.
pub proof fn lemma_score_nonneg(n: Seq<u8>, h: Seq<u8>, i: int, j: int)
    ensures
        cell(n, h, i, j).score >= 0,
{
    lemma_cell_bound(n, h, i, j);
}

/// The row maximum is non-negative and bounded like the cells it covers.
pub proof fn lemma_best_in_row_bound(n: Seq<u8>, h: Seq<u8>, i: int, j: int)
    ensures
        0 <= best_in_row(n, h, i, j),
        best_in_row(n, h, i, j) <= MAX_CELL_GAIN * max0(j),
    decreases j,
{
    if j <= 0 {
    } else {
        lemma_best_in_row_bound(n, h, i, j - 1);
        lemma_cell_bound(n, h, i, j);
        lemma_gain_cap_step(j);
    }
}

/// The grid maximum is non-negative and bounded by the growth cap times
/// the number of haystack positions scanned.
pub proof fn lemma_best_grid_bound(n: Seq<u8>, h: Seq<u8>, i: int, hlen: int)
    ensures
        0 <= best_grid(n, h, i, hlen),
        best_grid(n, h, i, hlen) <= MAX_CELL_GAIN * max0(hlen),
    decreases i,
{
    if i <= 0 {
    } else {
        lemma_best_grid_bound(n, h, i - 1, hlen);
        lemma_best_in_row_bound(n, h, i, hlen);
    }
}

/// The growth cap over at most [`MAX_HAYSTACK_LEN`] haystack positions,
/// plus the exact-match bonus, stays within `u16`: the width the scorer
/// computes in is wide enough for every accepted haystack length.
pub proof fn lemma_cap_fits_u16(j: int)
    requires
        j <= MAX_HAYSTACK_LEN,
    ensures
        MAX_CELL_GAIN * max0(j) + EXACT_MATCH_BONUS <= u16::MAX,
{
    lemma_mul_inequality(max0(j), MAX_HAYSTACK_LEN as int, MAX_CELL_GAIN as int);
    lemma_mul_is_commutative(MAX_CELL_GAIN as int, max0(j));
    lemma_mul_is_commutative(MAX_CELL_GAIN as int, MAX_HAYSTACK_LEN as int);
    assert(MAX_CELL_GAIN * (MAX_HAYSTACK_LEN as int) == 28672);
}

/// Non-negativity of the final alignment score: the boundary cells score
/// zero and the maximum never falls below them.
pub proof fn lemma_sw_score_nonneg(n: Seq<u8>, h: Seq<u8>, hlen: int)
    ensures
        sw_score(n, h, hlen) >= 0,
{
    lemma_best_grid_bound(n, h, n.len() as int, hlen);
}

/// Without a shared character there is no matching step, and every other
/// move only lowers a score already at the floor: each cell stays at zero.
proof fn lemma_cell_zero_without_common(n: Seq<u8>, h: Seq<u8>, hlen: int, i: int, j: int)
    requires
        no_common_char(n, h, hlen),
        i <= n.len(),
        j <= hlen,
    ensures
        cell(n, h, i, j).score == 0,
    decreases i, j,
{
    if i <= 0 || j <= 0 {
    } else {
        lemma_cell_zero_without_common(n, h, hlen, i - 1, j - 1);
        lemma_cell_zero_without_common(n, h, hlen, i, j - 1);
        lemma_cell_zero_without_common(n, h, hlen, i - 1, j);
        assert(n[i - 1] != fold_byte(hay_byte(h, j)));
    }
}

/// Row maxima of an all-zero grid are zero.
proof fn lemma_best_in_row_zero(n: Seq<u8>, h: Seq<u8>, hlen: int, i: int, j: int)
    requires
        no_common_char(n, h, hlen),
        i <= n.len(),
        j <= hlen,
    ensures
        best_in_row(n, h, i, j) == 0,
    decreases j,
{
    if j <= 0 {
    } else {
        lemma_best_in_row_zero(n, h, hlen, i, j - 1);
        lemma_cell_zero_without_common(n, h, hlen, i, j);
    }
}

/// Floor-at-zero locality: a haystack sharing no character with the needle
/// scores zero, and its reported score is exactly the exact-match bonus when
/// haystack and needle are byte-identical and zero otherwise.
pub proof fn lemma_no_common_char_scores_zero(n: Seq<u8>, h: Seq<u8>, hlen: int)
    requires
        no_common_char(n, h, hlen),
    ensures
        sw_score(n, h, hlen) == 0,
        full_score(n, h, hlen) == (if n == h {
            EXACT_MATCH_BONUS as int
        } else {
            0
        }),
{
    lemma_best_grid_zero_without_common(n, h, hlen, n.len() as int);
}

/// Grid maxima of an all-zero grid are zero.
proof fn lemma_best_grid_zero_without_common(n: Seq<u8>, h: Seq<u8>, hlen: int, i: int)
    requires
        no_common_char(n, h, hlen),
        i <= n.len(),
    ensures
        best_grid(n, h, i, hlen) == 0,
    decreases i,
{
    if i <= 0 {
    } else {
        lemma_best_grid_zero_without_common(n, h, hlen, i - 1);
        lemma_best_in_row_zero(n, h, hlen, i, hlen);
    }
}

/// A cell's score never exceeds the maximum of the row prefix reaching it.
proof fn lemma_bir_ge_cell(n: Seq<u8>, h: Seq<u8>, i: int, j: int, jmax: int)
    requires
        1 <= j <= jmax,
    ensures
        cell(n, h, i, j).score <= best_in_row(n, h, i, jmax),
    decreases jmax,
{
    if j < jmax {
        lemma_bir_ge_cell(n, h, i, j, jmax - 1);
    }
}

/// A row's maximum never exceeds the maximum of a grid containing the row.
proof fn lemma_bg_ge_bir(n: Seq<u8>, h: Seq<u8>, i: int, imax: int, hlen: int)
    requires
        1 <= i <= imax,
    ensures
        best_in_row(n, h, i, hlen) <= best_grid(n, h, imax, hlen),
    decreases imax,
{
    if i < imax {
        lemma_bg_ge_bir(n, h, i, imax - 1, hlen);
    }
}

/// Every cell of a grid is bounded by the grid's maximum.
proof fn lemma_cell_le_grid(n: Seq<u8>, h: Seq<u8>, i: int, j: int, imax: int, hlen: int)
    requires
        1 <= i <= imax,
        1 <= j <= hlen,
    ensures
        cell(n, h, i, j).score <= best_grid(n, h, imax, hlen),
{
    lemma_bir_ge_cell(n, h, i, j, hlen);
    lemma_bg_ge_bir(n, h, i, imax, hlen);
}

/// A cell in the padding column just past a scan covering the whole
/// haystack cannot beat the grid before it: the padding byte never matches
/// a needle without byte 0, and gap moves only lower their sources.
proof fn lemma_pad_cell(n: Seq<u8>, h: Seq<u8>, hlen: int, i: int)
    requires
        h.len() <= hlen,
        no_zero_byte(n),
        i <= n.len(),
    ensures
        cell(n, h, i, hlen + 1).score <= best_grid(n, h, i, hlen),
    decreases i,
{
    if i <= 0 {
    } else {
        lemma_pad_cell(n, h, hlen, i - 1);
        lemma_cell_bound(n, h, i - 1, hlen);
        lemma_cell_bound(n, h, i, hlen);
        lemma_cell_bound(n, h, i - 1, hlen + 1);
        lemma_best_grid_bound(n, h, i, hlen);
        assert(hay_byte(h, hlen + 1) == 0);
        assert(n[i - 1] != 0);
        if i - 1 >= 1 && hlen >= 1 {
            lemma_cell_le_grid(n, h, i - 1, hlen, i - 1, hlen);
        }
        if hlen >= 1 {
            lemma_cell_le_grid(n, h, i, hlen, i, hlen);
        }
    }
}

/// Widening the scan by one padding column leaves the grid maximum as it
/// was.
proof fn lemma_bg_extend(n: Seq<u8>, h: Seq<u8>, hlen: int, imax: int)
    requires
        h.len() <= hlen,
        no_zero_byte(n),
        imax <= n.len(),
    ensures
        best_grid(n, h, imax, hlen + 1) == best_grid(n, h, imax, hlen),
    decreases imax,
{
    if imax <= 0 {
    } else {
        lemma_bg_extend(n, h, hlen, imax - 1);
        lemma_pad_cell(n, h, hlen, imax);
    }
}

/// The score is stable between any two scan lengths covering the whole
/// haystack.
proof fn lemma_sw_stable_above(n: Seq<u8>, h: Seq<u8>, lo: int, hi: int)
    requires
        h.len() <= lo <= hi,
        no_zero_byte(n),
    ensures
        sw_score(n, h, hi) == sw_score(n, h, lo),
    decreases hi - lo,
{
    if lo < hi {
        lemma_bg_extend(n, h, hi - 1, n.len() as int);
        lemma_sw_stable_above(n, h, lo, hi - 1);
    }
}

/// Batch independence: as long as the scan covers the whole haystack, a
/// lane's score does not depend on how far the scan runs — scoring a
/// haystack alone (scanned to its own length) equals scoring it as one lane
/// of any batch (scanned to the batch's longest haystack) — provided the
/// needle contains no byte 0, the byte absent positions read as.
pub proof fn lemma_batch_independence(n: Seq<u8>, h: Seq<u8>, hlen1: int, hlen2: int)
    requires
        h.len() <= hlen1,
        h.len() <= hlen2,
        no_zero_byte(n),
    ensures
        sw_score(n, h, hlen1) == sw_score(n, h, hlen2),
        full_score(n, h, hlen1) == full_score(n, h, hlen2),
{
    if hlen1 <= hlen2 {
        lemma_sw_stable_above(n, h, hlen1, hlen2);
    } else {
        lemma_sw_stable_above(n, h, hlen2, hlen1);
    }
}

/// The longest length over a batch prefix covers every haystack in it.
proof fn lemma_max_len_upto_ge(hs: Seq<Vec<u8>>, k: int, t: int)
    requires
        0 <= k < t,
    ensures
        hs[k]@.len() <= max_len_upto(hs, t),
    decreases t,
{
    if k < t - 1 {
        lemma_max_len_upto_ge(hs, k, t - 1);
    }
}

/// A batch's scan length covers each of its haystacks.
pub proof fn lemma_batch_bound_covers(hs: Seq<Vec<u8>>, k: int)
    requires
        0 <= k < hs.len(),
    ensures
        hs[k]@.len() <= batch_bound(hs),
{
    lemma_max_len_upto_ge(hs, k, hs.len() as int);
}

/// Lane isolation at the batch interface: the score a haystack receives as
/// one lane of a batch (scanned to the batch's longest haystack) equals the
/// score it receives scored alone (scanned to its own length), whatever
/// else shares the batch — provided the needle contains no byte 0.
pub proof fn lemma_lane_score_is_individual(n: Seq<u8>, hs: Seq<Vec<u8>>, k: int)
    requires
        0 <= k < hs.len(),
        no_zero_byte(n),
    ensures
        full_score(n, hs[k]@, batch_bound(hs)) == full_score(n, hs[k]@, hs[k]@.len() as int),
{
    lemma_batch_bound_covers(hs, k);
    lemma_batch_independence(n, hs[k]@, batch_bound(hs), hs[k]@.len() as int);
}

} // verus!
