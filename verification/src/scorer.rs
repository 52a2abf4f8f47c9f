//! The executable scorer: a single dynamically-bounded code path over the
//! recurrence of [`crate::model`], applied lane by lane to a batch.
use crate::laws::{lemma_best_grid_bound, lemma_cap_fits_u16, lemma_cell_bound, lemma_gain_cap_step};
use crate::model::{
    batch_bound, best_grid, best_in_row, cell, fold_byte, full_score, hay_byte, is_delimiter,
    lane_bytes, match_gain, max2, max_len_upto, sw_score,
};
use crate::params::{
    CAPITALIZATION_BONUS, DELIMITER_BONUS, EXACT_MATCH_BONUS, FIRST_CHAR_MULTIPLIER,
    GAP_EXTEND_PENALTY, GAP_OPEN_PENALTY, LANES, MATCH_SCORE, MAX_CELL_GAIN, MAX_HAYSTACK_LEN,
    MISMATCH_PENALTY, PREFIX_BONUS,
};
use vstd::prelude::*;

verus! {

/// Executable lowercase folding, matching [`fold_byte`].
fn fold_byte_exec(b: u8) -> (r: u8)
    ensures
        r == fold_byte(b),
{
    if 65 <= b && b <= 90 {
        b + 32
    } else {
        b
    }
}

/// Executable delimiter test, matching [`is_delimiter`].
fn is_delimiter_exec(b: u8) -> (r: bool)
    ensures
        r == is_delimiter(b),
{
    b == 32 || b == 47 || b == 46 || b == 44 || b == 95 || b == 45
}

/// Byte-for-byte equality of two byte strings, as the exact-match bonus
/// demands it.
fn eq_bytes(a: &Vec<u8>, b: &Vec<u8>) -> (r: bool)
    ensures
        r == (a@ == b@),
{
    if a.len() != b.len() {
        return false;
    }
    let mut t: usize = 0;
    while t < a.len()
        invariant
            t <= a@.len(),
            forall|u: int| 0 <= u < t ==> a@[u] == b@[u],
        decreases a@.len() - t,
    {
        if a[t] != b[t] {
            return false;
        }
        t += 1;
    }
    proof {
        assert(a@ =~= b@);
    }
    true
}

/// Lays a batch out position-major: entry `p` of the result holds, for each
/// lane, that lane's byte at haystack position `p + 1`, with absent
/// positions (past a haystack's end, or of an unfilled lane) reading as
/// byte 0.
pub fn interleave_strings(strings: &Vec<Vec<u8>>, bound: usize) -> (layout: Vec<Vec<u8>>)
    requires
        strings@.len() <= LANES,
    ensures
        layout@.len() == bound,
        forall|p: int| 0 <= p < bound ==> (#[trigger] layout@[p])@.len() == LANES,
        forall|p: int, k: int|
            0 <= p < bound && 0 <= k < LANES ==> #[trigger] layout@[p]@[k] == hay_byte(
                lane_bytes(strings@, k),
                p + 1,
            ),
{
    let mut layout: Vec<Vec<u8>> = Vec::new();
    let mut p: usize = 0;
    while p < bound
        invariant
            p <= bound,
            layout@.len() == p,
            forall|q: int| 0 <= q < p ==> (#[trigger] layout@[q])@.len() == LANES,
            forall|q: int, k: int|
                0 <= q < p && 0 <= k < LANES ==> #[trigger] layout@[q]@[k] == hay_byte(
                    lane_bytes(strings@, k),
                    q + 1,
                ),
        decreases bound - p,
    {
        let mut row: Vec<u8> = Vec::new();
        let mut k: usize = 0;
        while k < LANES
            invariant
                k <= LANES,
                row@.len() == k,
                forall|t: int|
                    0 <= t < k ==> #[trigger] row@[t] == hay_byte(lane_bytes(strings@, t), p + 1),
            decreases LANES - k,
        {
            let b: u8 = if k < strings.len() && p < strings[k].len() {
                strings[k][p]
            } else {
                0
            };
            row.push(b);
            k += 1;
        }
        layout.push(row);
        p += 1;
    }
    layout
}

/// Scores one haystack against the needle over `hlen` haystack positions
/// (positions past the haystack's end read as absent), returning the best
/// local-alignment cell score anywhere in the grid.
#[verifier::rlimit(100)]
pub fn score_lane(needle: &Vec<u8>, haystack: &Vec<u8>, hlen: usize) -> (score: u16)
    requires
        hlen <= MAX_HAYSTACK_LEN,
    ensures
        score as int == sw_score(needle@, haystack@, hlen as int),
{
    let ghost n = needle@;
    let ghost h = haystack@;
    let nlen = needle.len();

    // Boundary row: cell (0, j) scores zero with both gap directions open.
    let mut prev: Vec<u16> = Vec::new();
    let mut col_open: Vec<bool> = Vec::new();
    let mut j0: usize = 0;
    while j0 < hlen + 1
        invariant
            j0 <= hlen + 1,
            prev@.len() == j0,
            forall|t: int| 0 <= t < j0 ==> (#[trigger] prev@[t]) as int == cell(n, h, 0, t).score,
        decreases hlen + 1 - j0,
    {
        prev.push(0);
        j0 += 1;
    }
    let mut j1: usize = 0;
    while j1 < hlen
        invariant
            j1 <= hlen,
            col_open@.len() == j1,
            forall|t: int| 1 <= t <= j1 ==> #[trigger] col_open@[t - 1] == cell(n, h, 0, t).col_open,
        decreases hlen - j1,
    {
        col_open.push(true);
        j1 += 1;
    }

    let mut best: u16 = 0;
    let mut rows: usize = 0;
    while rows < nlen
        invariant
            rows <= nlen,
            prev@.len() == hlen + 1,
            col_open@.len() == hlen,
            forall|t: int|
                0 <= t <= hlen ==> (#[trigger] prev@[t]) as int == cell(n, h, rows as int, t).score,
            forall|t: int|
                1 <= t <= hlen ==> #[trigger] col_open@[t - 1] == cell(
                    n,
                    h,
                    rows as int,
                    t,
                ).col_open,
            best as int == best_grid(n, h, rows as int, hlen as int),
        decreases nlen - rows,
    {
        let i = rows + 1;
        let nb = needle[rows];
        let delim: u16 = if is_delimiter_exec(nb) {
            DELIMITER_BONUS
        } else {
            0
        };
        let mut curr: Vec<u16> = Vec::new();
        curr.push(0);
        let mut row_score: u16 = 0;
        let mut row_open: bool = true;
        proof {
            lemma_best_grid_bound(n, h, rows as int, hlen as int);
        }
        let mut cols: usize = 0;
        while cols < hlen
            invariant
                cols <= hlen,
                i == rows + 1,
                rows < nlen,
                curr@.len() == cols + 1,
                col_open@.len() == hlen,
                forall|t: int|
                    0 <= t <= cols ==> (#[trigger] curr@[t]) as int == cell(n, h, i as int, t).score,
                forall|t: int|
                    1 <= t <= cols ==> #[trigger] col_open@[t - 1] == cell(
                        n,
                        h,
                        i as int,
                        t,
                    ).col_open,
                forall|t: int|
                    cols < t <= hlen ==> #[trigger] col_open@[t - 1] == cell(
                        n,
                        h,
                        rows as int,
                        t,
                    ).col_open,
                row_score as int == cell(n, h, i as int, cols as int).score,
                row_open == cell(n, h, i as int, cols as int).row_open,
                best as int == max2(
                    best_grid(n, h, rows as int, hlen as int),
                    best_in_row(n, h, i as int, cols as int),
                ),
            decreases hlen - cols,
        {
            let j = cols + 1;
            let raw: u8 = if cols < haystack.len() {
                haystack[cols]
            } else {
                0
            };
            let hb = fold_byte_exec(raw);
            let base: u16 = if i == 1 && j == 1 {
                (MATCH_SCORE + PREFIX_BONUS) * FIRST_CHAR_MULTIPLIER
            } else if i == 1 {
                MATCH_SCORE * FIRST_CHAR_MULTIPLIER
            } else if j == 1 {
                MATCH_SCORE + PREFIX_BONUS
            } else {
                MATCH_SCORE
            };
            let cap: u16 = if j != 1 && 65 <= raw && raw <= 90 {
                CAPITALIZATION_BONUS
            } else {
                0
            };
            let diag = prev[cols];
            proof {
                lemma_cell_bound(n, h, rows as int, cols as int);
                lemma_cell_bound(n, h, rows as int, j as int);
                lemma_gain_cap_step(j as int);
                lemma_cap_fits_u16(j as int);
                assert(raw == hay_byte(h, j as int));
                assert(base + delim + cap == match_gain(n, h, i as int, j as int));
                assert(match_gain(n, h, i as int, j as int) <= MAX_CELL_GAIN);
            }
            let diag_score: u16 = if nb == hb {
                diag + base + delim + cap
            } else {
                if diag >= MISMATCH_PENALTY {
                    diag - MISMATCH_PENALTY
                } else {
                    0
                }
            };
            let row_pen: u16 = if row_open {
                GAP_OPEN_PENALTY
            } else {
                GAP_EXTEND_PENALTY
            };
            let row_gap: u16 = if row_score >= row_pen {
                row_score - row_pen
            } else {
                0
            };
            let col_prev = prev[j];
            let col_pen: u16 = if col_open[cols] {
                GAP_OPEN_PENALTY
            } else {
                GAP_EXTEND_PENALTY
            };
            let col_gap: u16 = if col_prev >= col_pen {
                col_prev - col_pen
            } else {
                0
            };
            let mut s = diag_score;
            if row_gap > s {
                s = row_gap;
            }
            if col_gap > s {
                s = col_gap;
            }
            let new_row_open = s != row_gap || s == diag_score;
            let new_col_open = s != col_gap || s == diag_score;
            proof {
                assert(s as int == cell(n, h, i as int, j as int).score);
                assert(new_row_open == cell(n, h, i as int, j as int).row_open);
                assert(new_col_open == cell(n, h, i as int, j as int).col_open);
            }
            col_open.set(cols, new_col_open);
            curr.push(s);
            row_score = s;
            row_open = new_row_open;
            if s > best {
                best = s;
            }
            cols = j;
        }
        prev = curr;
        rows = i;
    }
    best
}

/// Scores one haystack alone against the needle, scanning exactly its own
/// length: its best local-alignment cell score, plus the exact-match bonus
/// when it equals the needle byte for byte. For a needle without byte 0,
/// this equals the haystack's score as a lane of any batch
/// ([`crate::laws::lemma_lane_score_is_individual`]).
pub fn score_single(needle: &Vec<u8>, haystack: &Vec<u8>) -> (score: u16)
    requires
        haystack@.len() <= MAX_HAYSTACK_LEN,
    ensures
        score as int == full_score(needle@, haystack@, haystack@.len() as int),
{
    let aligned = score_lane(needle, haystack, haystack.len());
    proof {
        lemma_best_grid_bound(needle@, haystack@, needle@.len() as int, haystack@.len() as int);
        lemma_cap_fits_u16(haystack@.len() as int);
    }
    if eq_bytes(needle, haystack) {
        aligned + EXACT_MATCH_BONUS
    } else {
        aligned
    }
}

/// Scores a batch of up to [`LANES`] haystacks against one needle, scanning
/// every lane over the batch's longest haystack length; each lane's score
/// is its best local-alignment cell anywhere in the grid, plus the
/// exact-match bonus when that lane's haystack equals the needle byte for
/// byte. Unfilled lanes score as empty input.
pub fn smith_waterman_inter_simd(needle: &Vec<u8>, haystacks: &Vec<Vec<u8>>) -> (scores: Vec<u16>)
    requires
        haystacks@.len() <= LANES,
        forall|k: int|
            0 <= k < haystacks@.len() ==> (#[trigger] haystacks@[k])@.len() <= MAX_HAYSTACK_LEN,
    ensures
        scores@.len() == LANES,
        forall|k: int|
            0 <= k < LANES ==> (#[trigger] scores@[k]) as int == full_score(
                needle@,
                lane_bytes(haystacks@, k),
                batch_bound(haystacks@),
            ),
{
    let mut hlen: usize = 0;
    let mut k: usize = 0;
    while k < haystacks.len()
        invariant
            k <= haystacks@.len(),
            hlen as int == max_len_upto(haystacks@, k as int),
            hlen <= MAX_HAYSTACK_LEN,
        decreases haystacks@.len() - k,
    {
        let l = haystacks[k].len();
        if l > hlen {
            hlen = l;
        }
        k += 1;
    }

    let empty: Vec<u8> = Vec::new();
    let mut scores: Vec<u16> = Vec::new();
    let mut lane: usize = 0;
    while lane < LANES
        invariant
            lane <= LANES,
            scores@.len() == lane,
            empty@.len() == 0,
            hlen as int == batch_bound(haystacks@),
            hlen <= MAX_HAYSTACK_LEN,
            forall|t: int|
                0 <= t < lane ==> (#[trigger] scores@[t]) as int == full_score(
                    needle@,
                    lane_bytes(haystacks@, t),
                    batch_bound(haystacks@),
                ),
        decreases LANES - lane,
    {
        let hay = if lane < haystacks.len() {
            &haystacks[lane]
        } else {
            &empty
        };
        proof {
            assert(hay@ =~= lane_bytes(haystacks@, lane as int));
        }
        let aligned = score_lane(needle, hay, hlen);
        proof {
            lemma_best_grid_bound(needle@, hay@, needle@.len() as int, hlen as int);
            lemma_cap_fits_u16(hlen as int);
        }
        let total: u16 = if eq_bytes(needle, hay) {
            aligned + EXACT_MATCH_BONUS
        } else {
            aligned
        };
        scores.push(total);
        lane += 1;
    }
    scores
}

} // verus!
