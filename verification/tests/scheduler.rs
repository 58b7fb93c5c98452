use wordtui::scheduler::{
    count_mastered, record_correct, record_wrong, select_next, undo_last_wrong, BATCH_REACH,
    MASTERY_STREAK,
};
use wordtui::words::Word;

fn entry(term: &str, streak: u32) -> Word {
    Word {
        word: term.to_string(),
        url: String::new(),
        audio: None,
        extract: Vec::new(),
        answer: Some(format!("{}!", term)),
        streak,
        correct: 7,
        wrong: 3,
    }
}

fn list_with_streaks(streaks: &[u32]) -> Vec<Word> {
    let mut words = Vec::new();
    for (i, s) in streaks.iter().enumerate() {
        words.push(entry(&format!("w{}", i), *s));
    }
    words
}

#[test]
fn thresholds() {
    assert_eq!(MASTERY_STREAK, 5);
    assert_eq!(BATCH_REACH, 10);
}

#[test]
fn correct_answer_adds_one_to_streak_and_correct() {
    let mut w = entry("Hund", 4);
    record_correct(&mut w);
    assert_eq!(w.streak, 5);
    assert_eq!(w.correct, 8);
    assert_eq!(w.wrong, 3);
    assert_eq!(w.word, "Hund");
    assert_eq!(w.answer.as_deref(), Some("Hund!"));
}

#[test]
fn wrong_answer_resets_streak_and_returns_it() {
    let mut w = entry("Katze", 9);
    let before = record_wrong(&mut w);
    assert_eq!(before, 9);
    assert_eq!(w.streak, 0);
    assert_eq!(w.wrong, 4);
    assert_eq!(w.correct, 7);
}

#[test]
fn wrong_answer_on_streak_zero() {
    let mut w = entry("Katze", 0);
    let before = record_wrong(&mut w);
    assert_eq!(before, 0);
    assert_eq!(w.streak, 0);
    assert_eq!(w.wrong, 4);
}

#[test]
fn undo_after_wrong_leaves_only_one_more_correct() {
    let mut w = entry("Maus", 6);
    let before = record_wrong(&mut w);
    undo_last_wrong(&mut w, before);
    assert_eq!(w.streak, 6);
    assert_eq!(w.wrong, 3);
    assert_eq!(w.correct, 8);
}

#[test]
fn undo_sets_the_streak_it_is_given() {
    let mut w = entry("Maus", 0);
    w.wrong = 1;
    w.correct = 0;
    undo_last_wrong(&mut w, 12);
    assert_eq!(w.streak, 12);
    assert_eq!(w.wrong, 0);
    assert_eq!(w.correct, 1);
}

#[test]
fn counters_reach_their_largest_value() {
    let mut w = entry("Igel", u32::MAX - 1);
    w.correct = u32::MAX - 1;
    record_correct(&mut w);
    assert_eq!(w.streak, u32::MAX);
    assert_eq!(w.correct, u32::MAX);
    w.wrong = u32::MAX - 1;
    let before = record_wrong(&mut w);
    assert_eq!(before, u32::MAX);
    assert_eq!(w.wrong, u32::MAX);
}

#[test]
fn mastered_count_of_a_mixed_list() {
    let words = list_with_streaks(&[5, 4, 0, 6, 100, 5, 1]);
    assert_eq!(count_mastered(&words), 4);
    assert_eq!(count_mastered(&words), 4);
}

#[test]
fn mastered_count_of_an_empty_list() {
    let words: Vec<Word> = Vec::new();
    assert_eq!(count_mastered(&words), 0);
}

#[test]
fn mastered_count_follows_a_mutation() {
    let mut words = list_with_streaks(&[4, 0]);
    assert_eq!(count_mastered(&words), 0);
    record_correct(&mut words[0]);
    assert_eq!(count_mastered(&words), 1);
    let _ = record_wrong(&mut words[0]);
    assert_eq!(count_mastered(&words), 0);
}

#[test]
fn review_pick_stays_at_or_before_the_first_weak_word() {
    let words = list_with_streaks(&[5, 5, 5, 2, 5, 0]);
    assert_eq!(select_next(&words, 0, 0), 0);
    assert_eq!(select_next(&words, 5, 7), 3);
    assert_eq!(select_next(&words, 10, 6), 2);
    assert_eq!(select_next(&words, 255, 4), 0);
    assert_eq!(select_next(&words, 250, 1), 1);
}

#[test]
fn batch_pick_starts_at_the_first_weak_word() {
    let mut streaks = vec![5u32, 5, 5];
    streaks.resize(20, 0);
    let words = list_with_streaks(&streaks);
    assert_eq!(select_next(&words, 1, 0), 3);
    assert_eq!(select_next(&words, 1, 10), 13);
    assert_eq!(select_next(&words, 1, 11), 3);
    assert_eq!(select_next(&words, 4, 25), 6);
    assert_eq!(select_next(&words, 254, 21), 13);
}

#[test]
fn batch_pick_is_clamped_to_the_end_of_the_list() {
    let words = list_with_streaks(&[9, 9, 1, 9, 0]);
    assert_eq!(select_next(&words, 1, 0), 2);
    assert_eq!(select_next(&words, 1, 1), 3);
    assert_eq!(select_next(&words, 1, 2), 4);
    assert_eq!(select_next(&words, 1, 3), 2);
    assert_eq!(select_next(&words, 2, 4), 3);
}

#[test]
fn batch_of_exactly_eleven_words() {
    let words = list_with_streaks(&[0; 11]);
    assert_eq!(select_next(&words, 1, 10), 10);
    assert_eq!(select_next(&words, 1, 11), 0);
    let words = list_with_streaks(&[0; 12]);
    assert_eq!(select_next(&words, 1, 10), 10);
    assert_eq!(select_next(&words, 1, 11), 0);
}

#[test]
fn all_mastered_ranges_over_the_whole_list() {
    let words = list_with_streaks(&[5, 6, 7, 8]);
    assert_eq!(select_next(&words, 0, 0), 0);
    assert_eq!(select_next(&words, 1, 3), 3);
    assert_eq!(select_next(&words, 5, 6), 2);
    assert_eq!(select_next(&words, 3, 9), 1);
}

#[test]
fn single_word_is_always_chosen() {
    let weak = list_with_streaks(&[0]);
    let strong = list_with_streaks(&[5]);
    for coin in 0..=255u8 {
        assert_eq!(select_next(&weak, coin, usize::MAX), 0);
        assert_eq!(select_next(&strong, coin, coin as usize), 0);
    }
}

#[test]
fn last_word_is_the_only_weak_one() {
    let words = list_with_streaks(&[5, 5, 5, 4]);
    assert_eq!(select_next(&words, 1, 0), 3);
    assert_eq!(select_next(&words, 1, usize::MAX), 3);
    assert_eq!(select_next(&words, 0, 2), 2);
    assert_eq!(select_next(&words, 0, 3), 3);
}

#[test]
fn chosen_position_is_always_in_range() {
    let mut streaks = vec![5u32; 4];
    streaks.resize(30, 3);
    streaks[17] = 8;
    let words = list_with_streaks(&streaks);
    for coin in 0..=255u8 {
        for pick in (0..2000usize).chain([usize::MAX - 1, usize::MAX]) {
            let r = select_next(&words, coin, pick);
            assert!(r < words.len());
            if coin % 5 == 0 {
                assert!(r <= 4);
            } else {
                assert!(r >= 4 && r <= 14);
            }
        }
    }
}

#[test]
fn largest_pick_does_not_overflow() {
    let words = list_with_streaks(&[0, 0, 0]);
    assert_eq!(select_next(&words, 1, usize::MAX), usize::MAX % 3);
    assert_eq!(select_next(&words, 0, usize::MAX), 0);
}
