//! Which word to show next, and what an answer does to a word's statistics.

use vstd::prelude::*;
use crate::words::{Word, WordView, word_views};

verus! {

/// The streak from which a word counts as mastered.
pub const MASTERY_STREAK: u32 = 5;

/// How far past the first unmastered word a batch reaches.
pub const BATCH_REACH: usize = 10;

/// Of the values a review draw can take, one in this many asks for a review.
pub const REVIEW_ODDS: u8 = 5;

impl WordView {
    pub open spec fn is_mastered(self) -> bool {
        self.streak >= MASTERY_STREAK
    }

    /// The statistics after a correct answer.
    pub open spec fn answered_correctly(self) -> WordView {
        WordView { streak: self.streak + 1, correct: self.correct + 1, ..self }
    }

    /// The statistics after a wrong answer.
    pub open spec fn answered_wrongly(self) -> WordView {
        WordView { streak: 0, wrong: self.wrong + 1, ..self }
    }

    /// The statistics after a wrong answer has been taken back and counted
    /// as correct, with the streak set back to `previous_streak`.
    pub open spec fn wrong_undone(self, previous_streak: nat) -> WordView {
        WordView {
            streak: previous_streak,
            wrong: (self.wrong - 1) as nat,
            correct: self.correct + 1,
            ..self
        }
    }
}

/// Every word of the list is mastered.
pub open spec fn all_mastered(words: Seq<WordView>) -> bool {
    forall|j: int| 0 <= j < words.len() ==> (#[trigger] words[j]).is_mastered()
}

/// `i` is the position of the first word that is not mastered.
pub open spec fn is_first_weak(words: Seq<WordView>, i: int) -> bool {
    &&& 0 <= i < words.len()
    &&& !words[i].is_mastered()
    &&& forall|j: int| 0 <= j < i ==> (#[trigger] words[j]).is_mastered()
}

/// The position of the first word that is not mastered, if there is one.
pub open spec fn first_weak(words: Seq<WordView>) -> Option<int> {
    if all_mastered(words) {
        None
    } else {
        Some(choose|i: int| is_first_weak(words, i))
    }
}

/// The number of mastered words.
pub open spec fn mastered_count(words: Seq<WordView>) -> nat {
    words.filter(|w: WordView| w.is_mastered()).len()
}

/// Whether a draw asks for a review of earlier words.
pub open spec fn is_review(coin: u8) -> bool {
    coin % REVIEW_ODDS == 0
}

/// The last position of the batch that starts at `weak`, in a list of `len`
/// words.
pub open spec fn batch_end(len: int, weak: int) -> int {
    if weak + BATCH_REACH < len - 1 {
        weak + BATCH_REACH
    } else {
        len - 1
    }
}

/// The position chosen from the two draws `coin` and `pick`.
///
/// With every word mastered, `pick` ranges over the whole list.  Otherwise a
/// review draw lets it range from the start up to the first unmastered
/// word, and any other draw over the batch that starts at that word.
pub open spec fn selected(words: Seq<WordView>, coin: u8, pick: usize) -> int {
    match first_weak(words) {
        None => pick as int % words.len() as int,
        Some(weak) => if is_review(coin) {
            pick as int % (weak + 1)
        } else {
            weak + pick as int % (batch_end(words.len() as int, weak) - weak + 1)
        },
    }
}

/// The first unmastered position is unique, and it is what `first_weak`
/// names.
pub proof fn lemma_first_weak_is(words: Seq<WordView>, i: int)
    requires
        is_first_weak(words, i),
    ensures
        first_weak(words) == Some(i),
{
    assert(!words[i].is_mastered());
    let k = choose|k: int| is_first_weak(words, k);
    assert(is_first_weak(words, k));
    if k < i {
        assert(words[k].is_mastered());
    }
    if i < k {
        assert(words[i].is_mastered());
    }
}

/// A list with an unmastered word has a first one.
pub proof fn lemma_first_weak_exists(words: Seq<WordView>, n: int)
    requires
        0 <= n < words.len(),
        !words[n].is_mastered(),
    ensures
        first_weak(words) is Some,
        is_first_weak(words, first_weak(words).unwrap()),
        first_weak(words).unwrap() <= n,
    decreases n,
{
    if forall|j: int| 0 <= j < n ==> (#[trigger] words[j]).is_mastered() {
        assert(is_first_weak(words, n));
        lemma_first_weak_is(words, n);
    } else {
        let j = choose|j: int| 0 <= j < n && !(#[trigger] words[j]).is_mastered();
        lemma_first_weak_exists(words, j);
    }
}

/// A chosen position lies in the list.  A review stays at or before the
/// first unmastered word; any other draw stays in the batch of at most
/// eleven words that starts there.
pub proof fn lemma_selected_in_range(words: Seq<WordView>, coin: u8, pick: usize)
    requires
        words.len() > 0,
    ensures
        0 <= selected(words, coin, pick) < words.len(),
        first_weak(words) matches Some(weak) ==> {
            &&& is_review(coin) ==> 0 <= selected(words, coin, pick) <= weak
            &&& !is_review(coin) ==> weak <= selected(words, coin, pick) <= batch_end(
                words.len() as int,
                weak,
            )
            &&& batch_end(words.len() as int, weak) <= weak + BATCH_REACH
            &&& batch_end(words.len() as int, weak) <= words.len() - 1
        },
{
    match first_weak(words) {
        None => {},
        Some(weak) => {
            if exists|n: int| 0 <= n < words.len() && !(#[trigger] words[n]).is_mastered() {
                let n = choose|n: int| 0 <= n < words.len() && !(#[trigger] words[n]).is_mastered();
                lemma_first_weak_exists(words, n);
            } else {
                assert(all_mastered(words));
            }
        },
    }
}

/// Picks the position of the next word to show.
pub fn select_next(words: &Vec<Word>, coin: u8, pick: usize) -> (r: usize)
    requires
        words.len() > 0,
    ensures
        r == selected(word_views(words@), coin, pick),
        r < words.len(),
        first_weak(word_views(words@)) matches Some(weak) ==> {
            &&& is_review(coin) ==> r <= weak
            &&& !is_review(coin) ==> weak <= r <= weak + BATCH_REACH
        },
{
    let ghost views = word_views(words@);
    proof {
        lemma_selected_in_range(views, coin, pick);
    }
    let len = words.len();
    let mut weak: usize = 0;
    while weak < len && words[weak].streak >= MASTERY_STREAK
        invariant
            len == words.len(),
            views == word_views(words@),
            weak <= len,
            forall|j: int| 0 <= j < weak ==> (#[trigger] views[j]).is_mastered(),
        decreases len - weak,
    {
        weak = weak + 1;
    }
    if weak == len {
        assert(all_mastered(views));
        pick % len
    } else {
        proof {
            assert(is_first_weak(views, weak as int));
            lemma_first_weak_is(views, weak as int);
        }
        if coin % REVIEW_ODDS == 0 {
            pick % (weak + 1)
        } else {
            let last: usize = if len - 1 - weak > BATCH_REACH {
                weak + BATCH_REACH
            } else {
                len - 1
            };
            weak + pick % (last - weak + 1)
        }
    }
}

/// Scores a correct answer: the streak and the count of correct answers
/// each grow by one.
pub fn record_correct(record: &mut Word)
    requires
        old(record).streak < u32::MAX,
        old(record).correct < u32::MAX,
    ensures
        final(record)@ == old(record)@.answered_correctly(),
        final(record).streak == old(record).streak + 1,
        final(record).correct == old(record).correct + 1,
        final(record).wrong == old(record).wrong,
{
    record.streak = record.streak + 1;
    record.correct = record.correct + 1;
}

/// Scores a wrong answer: the streak falls to zero and the count of wrong
/// answers grows by one.  Returns the streak as it was.
pub fn record_wrong(record: &mut Word) -> (previous_streak: u32)
    requires
        old(record).wrong < u32::MAX,
    ensures
        previous_streak == old(record).streak,
        final(record)@ == old(record)@.answered_wrongly(),
        final(record).streak == 0,
        final(record).wrong == old(record).wrong + 1,
        final(record).correct == old(record).correct,
{
    let previous_streak = record.streak;
    record.streak = 0;
    record.wrong = record.wrong + 1;
    previous_streak
}

/// Takes back the wrong answer that was scored last and counts it as
/// correct.  `previous_streak` is what [`record_wrong`] returned.
pub fn undo_last_wrong(record: &mut Word, previous_streak: u32)
    requires
        old(record).wrong >= 1,
        old(record).correct < u32::MAX,
    ensures
        final(record)@ == old(record)@.wrong_undone(previous_streak as nat),
        final(record).streak == previous_streak,
        final(record).wrong == old(record).wrong - 1,
        final(record).correct == old(record).correct + 1,
{
    record.streak = previous_streak;
    record.wrong = record.wrong - 1;
    record.correct = record.correct + 1;
}

/// Counts the mastered words.
pub fn count_mastered(words: &Vec<Word>) -> (count: usize)
    ensures
        count == mastered_count(word_views(words@)),
{
    let ghost views = word_views(words@);
    let ghost mastered = |w: WordView| w.is_mastered();
    let mut count: usize = 0;
    let mut i: usize = 0;
    while i < words.len()
        invariant
            i <= words.len(),
            views == word_views(words@),
            mastered == |w: WordView| w.is_mastered(),
            count == views.take(i as int).filter(mastered).len(),
            count <= i,
        decreases words.len() - i,
    {
        proof {
            assert(views.take(i + 1) =~= views.take(i as int).push(views[i as int]));
            views.take(i as int).lemma_filter_len_push(mastered, views[i as int]);
        }
        if words[i].streak >= MASTERY_STREAK {
            count = count + 1;
        }
        i = i + 1;
    }
    assert(views.take(i as int) =~= views);
    count
}

/// The number of mastered words depends on the streaks alone.
pub proof fn lemma_mastered_count_by_streaks(a: Seq<WordView>, b: Seq<WordView>)
    requires
        a.len() == b.len(),
        forall|i: int| 0 <= i < a.len() ==> (#[trigger] a[i]).streak == b[i].streak,
    ensures
        mastered_count(a) == mastered_count(b),
    decreases a.len(),
{
    let mastered = |w: WordView| w.is_mastered();
    if a.len() == 0 {
        assert(a =~= b);
    } else {
        let a0 = a.drop_last();
        let b0 = b.drop_last();
        assert forall|i: int| 0 <= i < a0.len() implies (#[trigger] a0[i]).streak
            == b0[i].streak by {
            assert(a0[i] == a[i]);
        }
        lemma_mastered_count_by_streaks(a0, b0);
        assert(a =~= a0.push(a.last()));
        assert(b =~= b0.push(b.last()));
        a0.lemma_filter_len_push(mastered, a.last());
        b0.lemma_filter_len_push(mastered, b.last());
        assert(a[a.len() - 1].streak == b[a.len() - 1].streak);
    }
}

/// A wrong answer that is taken back leaves the word as it was, but for one
/// more correct answer: the streak is the one from before, and the count of
/// wrong answers is unchanged.
pub proof fn lemma_undo_after_wrong(w: WordView)
    ensures
        w.answered_wrongly().wrong_undone(w.streak) == (WordView { correct: w.correct + 1, ..w }),
{
}

} // verus!
