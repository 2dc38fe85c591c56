use jstrings::policy::{annotated_line, apply, format_score, needs_score, Mode};
use jstrings::score::{average_score, split_words};

#[test]
fn score_of_three_point_one_renders_right_aligned() {
    // 310 centibits stand for 3.10 bits: width six, two decimals.
    assert_eq!(format_score(310), b"  3.10".to_vec());
}

#[test]
fn annotated_line_is_score_space_string() {
    assert_eq!(annotated_line(&b"x".to_vec(), 310), b"  3.10 x".to_vec());
    assert_eq!(
        apply(&Mode::Annotated, &b"x".to_vec(), 310),
        Some(b"  3.10 x".to_vec())
    );
}

#[test]
fn score_rendering_edges() {
    assert_eq!(format_score(0), b"  0.00".to_vec());
    assert_eq!(format_score(7), b"  0.07".to_vec());
    assert_eq!(format_score(80), b"  0.80".to_vec());
    assert_eq!(format_score(99999), b"999.99".to_vec());
    // Wider than the field: no padding, nothing cut off.
    assert_eq!(format_score(123456), b"1234.56".to_vec());
    assert_eq!(format_score(u32::MAX), b"42949672.95".to_vec());
}

#[test]
fn plain_mode_emits_unchanged() {
    assert_eq!(
        apply(&Mode::Plain, &b"secretKey123".to_vec(), 999),
        Some(b"secretKey123".to_vec())
    );
    assert!(!needs_score(&Mode::Plain));
    assert!(needs_score(&Mode::Annotated));
    assert!(needs_score(&Mode::Thresholded(0)));
}

#[test]
fn threshold_is_boundary_inclusive() {
    let s = b"x".to_vec();
    // At the threshold: emitted, annotated.
    assert_eq!(apply(&Mode::Thresholded(310), &s, 310), Some(b"  3.10 x".to_vec()));
    // One centibit below: suppressed.
    assert_eq!(apply(&Mode::Thresholded(310), &s, 309), None);
    // Above: emitted.
    assert_eq!(apply(&Mode::Thresholded(310), &s, 311), Some(b"  3.11 x".to_vec()));
}

#[test]
fn words_split_on_ascii_whitespace_runs() {
    assert_eq!(
        split_words(&b"ab cd".to_vec()),
        vec![b"ab".to_vec(), b"cd".to_vec()]
    );
    assert_eq!(
        split_words(&b"  one\t\ttwo \n three  ".to_vec()),
        vec![b"one".to_vec(), b"two".to_vec(), b"three".to_vec()]
    );
    assert_eq!(split_words(&b"".to_vec()), Vec::<Vec<u8>>::new());
    assert_eq!(split_words(&b" \t\r\n".to_vec()), Vec::<Vec<u8>>::new());
    assert_eq!(split_words(&b"solo".to_vec()), vec![b"solo".to_vec()]);
}

#[test]
fn average_is_the_mean_of_word_scores() {
    // The mean of the scores of "ab" and "cd": both carry one bit per symbol.
    assert_eq!(average_score(&vec![100, 100]), 100);
    assert_eq!(average_score(&vec![100, 200]), 150);
    assert_eq!(average_score(&vec![0, 0, 300]), 100);
    // No words at all: the guarded answer is zero.
    assert_eq!(average_score(&vec![]), 0);
}

#[test]
fn entropy_scores_agree_with_the_scorer() {
    // The external scorer the pipeline leans on, checked on the values the
    // policy tests above assume.
    assert_eq!(shannon_entropy::shannon_entropy("aaaa"), 0.0);
    assert_eq!(shannon_entropy::shannon_entropy(""), 0.0);
    assert_eq!(shannon_entropy::shannon_entropy("ab"), 1.0);
    assert_eq!(shannon_entropy::shannon_entropy("cd"), 1.0);
    // Permutation of the symbols leaves the score unchanged.
    assert_eq!(
        shannon_entropy::shannon_entropy("abcabd"),
        shannon_entropy::shannon_entropy("dbacba")
    );
}
