use smith_waterman::params::{EXACT_MATCH_BONUS, LANES, MAX_HAYSTACK_LEN};
use smith_waterman::{interleave_strings, score_single, smith_waterman_inter_simd};

fn to_bytes(s: &str) -> Vec<u8> {
    s.as_bytes().to_vec()
}

fn batch_of(hays: &[&str]) -> Vec<Vec<u8>> {
    assert!(hays.len() <= LANES);
    let mut v: Vec<Vec<u8>> = Vec::new();
    for h in hays {
        v.push(to_bytes(h));
    }
    v
}

fn score_batch(needle: &str, hays: &[&str]) -> Vec<u16> {
    smith_waterman_inter_simd(&to_bytes(needle), &batch_of(hays))
}

fn score_one(needle: &str, hay: &str) -> u16 {
    score_batch(needle, &[hay])[0]
}

#[test]
fn single_char_prefix_match() {
    // First needle char at the haystack prefix: (16 + 8) * 2.
    assert_eq!(score_one("a", "ab"), 48);
}

#[test]
fn single_char_interior_match() {
    // First needle char off the prefix: 16 * 2 without the prefix bonus.
    assert_eq!(score_one("b", "ab"), 32);
}

#[test]
fn delimiter_needle_char_gains_bonus() {
    // '_' at haystack position 2: 16 * 2 for the first needle char, + 4
    // for matching a delimiter needle byte.
    assert_eq!(score_one("_", "x_"), 36);
}

#[test]
fn exact_match_beats_embedded_copy() {
    // Needle equal to the haystack: prefix-boosted diagonal plus the
    // exact-match bonus; the same needle inside a longer string gets
    // neither the prefix bonus nor the exact-match bonus.
    assert_eq!(score_one("abc", "abc"), 84);
    assert_eq!(score_one("abc", "xabc"), 64);
    assert!(score_one("abc", "abc") > score_one("abc", "xabc"));
}

#[test]
fn prefix_match_beats_shifted_match() {
    assert_eq!(score_one("ab", "abcd"), 64);
    assert_eq!(score_one("ab", "xabcd"), 48);
    assert!(score_one("ab", "abcd") > score_one("ab", "xabcd"));
}

#[test]
fn capitalized_interior_char_gains_bonus() {
    // 'B' at haystack position 2 earns the capitalization bonus; the
    // all-lowercase variant does not.
    assert_eq!(score_one("ab", "aBx"), 68);
    assert_eq!(score_one("ab", "abx"), 64);
    assert!(score_one("ab", "aBx") > score_one("ab", "abx"));
}

#[test]
fn capitalized_prefix_char_gains_no_bonus() {
    // Capitalization of the haystack's first character is expected, not
    // rewarded: same score as the lowercase prefix (minus nothing).
    assert_eq!(score_one("ab", "Abx"), score_one("ab", "abx"));
}

#[test]
fn matched_delimiter_beats_substituted_delimiter() {
    assert_eq!(score_one("a_b", "xa_b"), 68);
    assert!(score_one("a_b", "xa_b") > score_one("a_b", "xaxb"));
}

#[test]
fn one_insertion_beats_two_insertions() {
    // One single-character insertion opens one gap; a two-character
    // insertion opens one gap and extends it; two separate insertions
    // open two gaps, the costliest.
    let one_short = score_one("abcd", "abxcd");
    let one_long = score_one("abcd", "abxxcd");
    let two = score_one("abcd", "axbcxd");
    assert_eq!(one_short, 93);
    assert_eq!(one_long, 92);
    assert_eq!(two, 90);
    assert!(one_short > one_long);
    assert!(one_long > two);
}

#[test]
fn disjoint_characters_score_zero() {
    assert_eq!(score_one("xyz", "abcd"), 0);
    assert_eq!(score_one("xyz", ""), 0);
}

#[test]
fn case_insensitive_matching_folds_haystack_only() {
    // Haystack bytes are folded to lowercase before comparison; needle
    // bytes are compared as they are, so an uppercase needle byte never
    // matches.
    assert_eq!(score_one("A", "a"), 0);
    assert_eq!(score_one("a", "A"), 48);
}

#[test]
fn empty_needle_scores_zero_plus_exact_on_empty() {
    let scores = score_batch("", &["", "a"]);
    assert_eq!(scores[0], EXACT_MATCH_BONUS);
    assert_eq!(scores[1], 0);
}

#[test]
fn longest_supported_haystack() {
    let long = "a".repeat(MAX_HAYSTACK_LEN);
    assert_eq!(score_one("a", &long), 48);
    assert_eq!(score_one("b", &long), 0);
}

#[test]
fn unfilled_lanes_score_as_empty() {
    let scores = score_batch("ab", &["ab"]);
    assert_eq!(scores.len(), LANES);
    assert_eq!(scores[0], 64 + EXACT_MATCH_BONUS);
    for lane in 1..LANES {
        assert_eq!(scores[lane], 0);
    }
    // Supplying the empty lanes explicitly changes nothing.
    let padded = score_batch("ab", &["ab", "", "", "", "", "", "", ""]);
    assert_eq!(scores, padded);
}

#[test]
fn lanes_are_scored_independently() {
    // Scoring a haystack as one lane of a full batch gives the same score
    // as scoring it alone, whatever shares the batch with it.
    let hays = ["abcd", "zzzz", "a_b", "xAb", "", "b", "ba", "aab"];
    let together = score_batch("ab", &hays);
    for (lane, hay) in hays.iter().enumerate() {
        assert_eq!(together[lane], score_single(&to_bytes("ab"), &to_bytes(hay)));
        assert_eq!(together[lane], score_one("ab", hay));
    }
}

#[test]
fn interleave_lays_positions_across_lanes() {
    let strings = batch_of(&["ab", "c", "", "d"]);
    let layout = interleave_strings(&strings, 3);
    assert_eq!(layout.len(), 3);
    assert_eq!(layout[0], vec![b'a', b'c', 0, b'd', 0, 0, 0, 0]);
    assert_eq!(layout[1], vec![b'b', 0, 0, 0, 0, 0, 0, 0]);
    assert_eq!(layout[2], vec![0; LANES]);
}
