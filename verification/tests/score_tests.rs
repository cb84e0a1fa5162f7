use dice_search::score::{batch_score, trial_group_score, word_match_count};

#[test]
fn all_matching_word_scores_32() {
    // Every 2-bit slot of the zero word is the matching pattern `00`.
    assert_eq!(word_match_count(0), 32);
}

#[test]
fn no_matching_word_scores_0() {
    // Every slot of the all-ones word is `11`: no match anywhere.
    assert_eq!(word_match_count(u64::MAX), 0);
}

#[test]
fn half_set_word_scores_0() {
    // Every slot is `01`: not a match, even though half the bits are zero.
    assert_eq!(word_match_count(0x5555_5555_5555_5555), 0);
}

#[test]
fn single_non_match_scores_31() {
    // Only the lowest slot is non-`00`.
    assert_eq!(word_match_count(0b11), 31);
    assert_eq!(word_match_count(0b01), 31);
    assert_eq!(word_match_count(0b10), 31);
}

#[test]
fn all_zero_group_scores_231() {
    // 7 full words of 32 matches plus the 7 live slots of the masked word.
    let words = vec![0u64; 8];
    assert_eq!(trial_group_score(&words), 231);
}

#[test]
fn masked_last_word_cannot_score() {
    // An all-ones last word scores 0 on its live slots; the 7 words before
    // it contribute all 224 of their matches.
    let mut words = vec![0u64; 8];
    words[7] = u64::MAX;
    assert_eq!(trial_group_score(&words), 224);
}

#[test]
fn masked_bits_do_not_matter() {
    // Two last words agreeing on their 14 live bits score identically,
    // whatever their masked-off bits hold.
    let mut a = vec![0u64; 8];
    let mut b = vec![0u64; 8];
    a[7] = 0x0000_0000_0000_2001;
    b[7] = 0xABCD_EF12_3456_2001;
    assert_eq!(trial_group_score(&a), trial_group_score(&b));
}

#[test]
fn live_slots_of_last_word_do_matter() {
    let mut a = vec![0u64; 8];
    let mut b = vec![0u64; 8];
    a[7] = 0;
    b[7] = 0x3FFF;
    assert_eq!(trial_group_score(&a), 231);
    assert_eq!(trial_group_score(&b), 224);
}

#[test]
fn single_group_batch_equals_group_score() {
    // A batch of one group reduces to exactly that group's score.
    let mut words = vec![0u64; 8];
    words[0] = 0xFF;
    words[7] = 0x0003;
    assert_eq!(batch_score(&words, 1), trial_group_score(&words));
}

#[test]
fn batch_takes_the_best_group() {
    // First group scores 0 (all slots `11`), second scores 231.
    let mut words = vec![u64::MAX; 16];
    for w in words.iter_mut().skip(8) {
        *w = 0;
    }
    assert_eq!(batch_score(&words, 2), 231);
}

#[test]
fn score_never_exceeds_231() {
    // A few adversarial groups; the bound holds for all of them.
    let patterns: [u64; 5] = [0, u64::MAX, 0x3FFF, 0xC000, 0x0123_4567_89AB_CDEF];
    for &p in patterns.iter() {
        let words = vec![p; 8];
        let s = trial_group_score(&words);
        assert!(s <= 231);
    }
}
