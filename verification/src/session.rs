//! One review session: the word on show, the screen it is shown on, the
//! line being typed, and what each key does to them.

use vstd::prelude::*;
use crate::composer::{Writing, WritingView};
use crate::scheduler::{
    count_mastered, lemma_mastered_count_by_streaks, lemma_selected_in_range, mastered_count,
    record_correct, record_wrong, select_next, selected, undo_last_wrong,
};
use crate::widgets::definition::{Definition, DefinitionView};
use crate::widgets::popup_writing::{PopupWriting, PopupWritingView};
use crate::widgets::question::{Question, QuestionView};
use crate::words::{Language, LanguageView, Word, WordView, word_views};

verus! {

/// How many lines `d` and `u` scroll by.
pub const SCROLL_PAGE: u16 = 10;

/// The title of the box in which an answer is written.
pub const POPUP_TITLE: &'static str = "Define the answer";

/// A key press, as far as the session tells keys apart.
#[derive(Debug, Clone, Copy, PartialEq, Eq)]
pub enum Key {
    Enter,
    Esc,
    Tab,
    Backspace,
    Char(char),
    Other,
}

/// What the main area shows: the quiz for the current word, or its
/// reference text.
#[derive(Debug, Clone, Copy, PartialEq, Eq)]
pub enum CurrentScreen {
    Question,
    Definition,
}

/// A review session.
#[derive(Debug)]
pub struct App {
    words: Vec<Word>,
    language_name: String,
    curr_index: usize,
    exit: bool,
    writing: Option<Writing>,
    current_screen: CurrentScreen,
    current_scroll: u16,
    last_correct: bool,
    known: usize,
    prev_streak: u32,
}

/// What an [`App`] holds.
pub ghost struct AppView {
    pub words: Seq<WordView>,
    pub language_name: Seq<char>,
    /// The position of the word on show.
    pub curr_index: int,
    /// Set once the user has asked to leave.
    pub exit: bool,
    /// The line being typed, while one is.
    pub writing: Option<WritingView>,
    pub current_screen: CurrentScreen,
    /// How far the reference text is scrolled down.
    pub current_scroll: int,
    /// False from a wrong answer until it is taken back or another word is
    /// chosen, true at every other time.
    pub last_correct: bool,
    /// The number of mastered words.
    pub known: nat,
    /// The streak that the last wrong answer ended, kept for taking that
    /// answer back.
    pub prev_streak: nat,
}

impl AppView {
    /// The word on show.
    pub open spec fn current(self) -> WordView {
        self.words[self.curr_index]
    }

    /// A wrong answer is waiting to be taken back.
    pub open spec fn wrong_pending(self) -> bool {
        !self.last_correct
    }

    /// There is a word on show, the count of mastered words is up to date,
    /// and only a word with an answer is ever quizzed.  While a wrong
    /// answer waits to be taken back, the word on show is the one that was
    /// answered, on its reference screen, as the wrong answer left it: with
    /// a wrong answer to its name and no streak.
    pub open spec fn wf(self) -> bool {
        &&& 0 <= self.curr_index < self.words.len()
        &&& self.known == mastered_count(self.words)
        &&& self.current_screen == CurrentScreen::Question ==> self.current().answer is Some
        &&& self.wrong_pending() ==> {
            &&& self.current_screen == CurrentScreen::Definition
            &&& self.current().wrong >= 1
            &&& self.current().streak == 0
        }
    }

    /// The session as it begins on `language`, with its first word chosen
    /// from the draws `coin` and `pick`.
    pub open spec fn start(language: LanguageView, coin: u8, pick: usize) -> AppView {
        AppView {
            words: language.words,
            language_name: language.name,
            curr_index: 0,
            exit: false,
            writing: None,
            current_screen: CurrentScreen::Question,
            current_scroll: 0,
            last_correct: true,
            known: mastered_count(language.words),
            prev_streak: 0,
        }.next_word(coin, pick)
    }

    /// A new word is chosen from the draws.  One with an answer is quizzed,
    /// with an empty line to type on; one without shows its reference text
    /// from the top.  An answer can be taken back only while its word is on
    /// show: a wrong answer that was waiting for that stands from here on.
    pub open spec fn next_word(self, coin: u8, pick: usize) -> AppView {
        let i = selected(self.words, coin, pick);
        if self.words[i].answer is Some {
            AppView {
                curr_index: i,
                writing: Some(WritingView::empty()),
                current_screen: CurrentScreen::Question,
                last_correct: true,
                ..self
            }
        } else {
            AppView {
                curr_index: i,
                writing: None,
                current_scroll: 0,
                current_screen: CurrentScreen::Definition,
                last_correct: true,
                ..self
            }
        }
    }

    /// The words with the one on show replaced by `word`.
    pub open spec fn with_current(self, word: WordView) -> AppView {
        let words = self.words.update(self.curr_index, word);
        AppView { words, known: mastered_count(words), ..self }
    }

    /// The typed line is, character for character, the answer of the word
    /// on show.
    pub open spec fn answer_matches(self) -> bool {
        self.writing matches Some(w) && self.current().answer == Some(w.text)
    }

    /// The typed line is submitted as the answer to the quiz.  A match is
    /// scored as correct and a new word is chosen; anything else is scored
    /// as wrong and the reference text of the same word is shown.
    pub open spec fn check_answer(self, coin: u8, pick: usize) -> AppView {
        if self.answer_matches() {
            AppView {
                last_correct: true,
                ..self.with_current(self.current().answered_correctly())
            }.next_word(coin, pick)
        } else {
            AppView {
                prev_streak: self.current().streak,
                last_correct: false,
                writing: None,
                current_screen: CurrentScreen::Definition,
                current_scroll: 0,
                ..self.with_current(self.current().answered_wrongly())
            }
        }
    }

    /// The typed line becomes the answer of the word on show, and a new
    /// word is chosen.
    pub open spec fn set_answer(self, coin: u8, pick: usize) -> AppView {
        self.with_current(
            WordView { answer: Some(self.writing.unwrap().text), ..self.current() },
        ).next_word(coin, pick)
    }

    /// The wrong answer that is waiting for it is taken back and counted
    /// as correct: the word on show gets back the streak that the answer
    /// ended.  Where none is waiting, nothing changes.
    pub open spec fn undo(self) -> AppView {
        if self.wrong_pending() {
            AppView {
                last_correct: true,
                ..self.with_current(self.current().wrong_undone(self.prev_streak))
            }
        } else {
            self
        }
    }

    /// Scrolled up by `lines`, stopping at the top.
    pub open spec fn scrolled_up(self, lines: int) -> AppView {
        AppView {
            current_scroll: if self.current_scroll >= lines {
                self.current_scroll - lines
            } else {
                0
            },
            ..self
        }
    }

    /// Scrolled down by `lines`, stopping at the largest offset.
    pub open spec fn scrolled_down(self, lines: int) -> AppView {
        AppView {
            current_scroll: if self.current_scroll + lines <= u16::MAX {
                self.current_scroll + lines
            } else {
                u16::MAX as int
            },
            ..self
        }
    }

    /// With a fresh, empty line to type on.
    pub open spec fn composing(self) -> AppView {
        AppView { writing: Some(WritingView::empty()), ..self }
    }

    /// What a key does while a line is being typed.
    pub open spec fn typing_key(self, key: Key, coin: u8, pick: usize) -> AppView {
        let w = self.writing.unwrap();
        match key {
            Key::Enter => match self.current_screen {
                CurrentScreen::Question => self.check_answer(coin, pick),
                CurrentScreen::Definition => self.set_answer(coin, pick),
            },
            Key::Esc => AppView { writing: None, ..self },
            Key::Tab => AppView { writing: Some(w.toggled()), ..self },
            Key::Backspace => AppView { writing: Some(w.popped()), ..self },
            Key::Char(c) => AppView { writing: Some(w.pushed(c)), ..self },
            Key::Other => self,
        }
    }

    /// What a key does on the quiz screen while nothing is being typed.
    pub open spec fn question_key(self, key: Key) -> AppView {
        if key == Key::Char('q') {
            AppView { exit: true, ..self }
        } else if key == Key::Char('i') {
            self.composing()
        } else if key == Key::Char('r') {
            AppView { current_screen: CurrentScreen::Definition, ..self.composing() }
        } else {
            self
        }
    }

    /// What a key does on the reference screen while nothing is being
    /// typed.
    pub open spec fn definition_key(self, key: Key, coin: u8, pick: usize) -> AppView {
        if key == Key::Char('q') {
            AppView { exit: true, ..self }
        } else if key == Key::Char('k') {
            self.scrolled_up(1)
        } else if key == Key::Char('j') {
            self.scrolled_down(1)
        } else if key == Key::Char('g') {
            AppView { current_scroll: 0, ..self }
        } else if key == Key::Char('d') {
            self.scrolled_down(SCROLL_PAGE as int)
        } else if key == Key::Char('u') {
            self.scrolled_up(SCROLL_PAGE as int)
        } else if key == Key::Char('f') {
            self.undo()
        } else if key == Key::Char('n') {
            if self.current().answer is Some {
                self.next_word(coin, pick)
            } else {
                self.composing()
            }
        } else if key == Key::Char('r') {
            self.composing()
        } else {
            self
        }
    }

    /// The key leads to a new word: it submits a matching answer, or a
    /// line written on the reference screen, or it is `n` on the reference
    /// screen of a word that has an answer.
    pub open spec fn chooses_word(self, key: Key) -> bool {
        if self.writing is Some {
            key == Key::Enter && (self.current_screen == CurrentScreen::Definition
                || self.answer_matches())
        } else {
            self.current_screen == CurrentScreen::Definition && key == Key::Char('n')
                && self.current().answer is Some
        }
    }

    /// The session after one key press.  The draws are used only where the
    /// key leads to a new word.
    pub open spec fn handle_key(self, key: Key, coin: u8, pick: usize) -> AppView {
        if self.writing is Some {
            self.typing_key(key, coin, pick)
        } else {
            match self.current_screen {
                CurrentScreen::Question => self.question_key(key),
                CurrentScreen::Definition => self.definition_key(key, coin, pick),
            }
        }
    }

    /// Scoring the typed line keeps the counters of the word on show within
    /// 32 bits.
    pub open spec fn check_fits(self) -> bool {
        if self.answer_matches() {
            self.current().streak < u32::MAX && self.current().correct < u32::MAX
        } else {
            self.current().wrong < u32::MAX
        }
    }

    /// Taking back the wrong answer that is waiting for it keeps the count
    /// of correct answers within 32 bits.
    pub open spec fn undo_fits(self) -> bool {
        self.wrong_pending() ==> self.current().correct < u32::MAX
    }

    /// The key leads to no counter beyond 32 bits.
    pub open spec fn key_fits(self, key: Key) -> bool {
        &&& self.writing is Some && self.current_screen == CurrentScreen::Question && key
            == Key::Enter ==> self.check_fits()
        &&& self.writing is None && self.current_screen == CurrentScreen::Definition && key
            == Key::Char('f') ==> self.undo_fits()
    }

    /// The session after a run of key presses, the first of them first.
    pub open spec fn after(self, presses: Seq<Press>) -> AppView
        decreases presses.len(),
    {
        if presses.len() == 0 {
            self
        } else {
            self.after(presses.drop_last()).handle_key(
                presses.last().key,
                presses.last().coin,
                presses.last().pick,
            )
        }
    }
}

/// A key press with the draws that come with it.
pub ghost struct Press {
    pub key: Key,
    pub coin: u8,
    pub pick: usize,
}

/// Choosing a new word keeps a session well formed, and makes one so whose
/// list is not empty and whose count of mastered words is up to date.
pub proof fn lemma_next_word_wf(s: AppView, coin: u8, pick: usize)
    requires
        s.words.len() > 0,
        s.known == mastered_count(s.words),
    ensures
        s.next_word(coin, pick).wf(),
        s.next_word(coin, pick).words == s.words,
{
    lemma_selected_in_range(s.words, coin, pick);
}

/// Every key leaves a well-formed session well formed.
pub proof fn lemma_handle_key_wf(s: AppView, key: Key, coin: u8, pick: usize)
    requires
        s.wf(),
    ensures
        s.handle_key(key, coin, pick).wf(),
{
    if s.writing is Some {
        match key {
            Key::Enter => match s.current_screen {
                CurrentScreen::Question => {
                    if s.answer_matches() {
                        let t = AppView {
                            last_correct: true,
                            ..s.with_current(s.current().answered_correctly())
                        };
                        lemma_next_word_wf(t, coin, pick);
                    }
                },
                CurrentScreen::Definition => {
                    let t = s.with_current(
                        WordView { answer: Some(s.writing.unwrap().text), ..s.current() },
                    );
                    lemma_next_word_wf(t, coin, pick);
                },
            },
            _ => {},
        }
    } else {
        match s.current_screen {
            CurrentScreen::Question => {},
            CurrentScreen::Definition => {
                lemma_next_word_wf(s, coin, pick);
            },
        }
    }
}

/// Keys change statistics and answers, never the list itself: its name,
/// its length and order, and each word's term, address, recordings and
/// reference text stay.  Only the word on show is touched, and its count of
/// correct answers never falls.
pub proof fn lemma_handle_key_keeps_entries(s: AppView, key: Key, coin: u8, pick: usize)
    requires
        s.wf(),
    ensures
        s.handle_key(key, coin, pick).language_name == s.language_name,
        s.handle_key(key, coin, pick).words.len() == s.words.len(),
        forall|i: int|
            0 <= i < s.words.len() ==> {
                let before = s.words[i];
                let after = #[trigger] s.handle_key(key, coin, pick).words[i];
                &&& after.word == before.word
                &&& after.url == before.url
                &&& after.audio == before.audio
                &&& after.extract == before.extract
                &&& after.correct >= before.correct
                &&& i != s.curr_index ==> after == before
            },
{
}

/// The draws matter only where the key leads to a new word.
pub proof fn lemma_draws_matter_only_for_a_new_word(
    s: AppView,
    key: Key,
    coin: u8,
    pick: usize,
    other_coin: u8,
    other_pick: usize,
)
    requires
        !s.chooses_word(key),
    ensures
        s.handle_key(key, coin, pick) == s.handle_key(key, other_coin, other_pick),
{
}

/// A matching answer is scored on the word on show, then another word is
/// chosen: the word's streak and count of correct answers each grow by one,
/// no other word changes, and the count of mastered words follows.
pub proof fn lemma_correct_answer_is_scored(s: AppView, coin: u8, pick: usize)
    requires
        s.wf(),
        s.writing is Some,
        s.current_screen == CurrentScreen::Question,
        s.answer_matches(),
    ensures
        ({
            let t = s.handle_key(Key::Enter, coin, pick);
            &&& t.words == s.words.update(s.curr_index, s.current().answered_correctly())
            &&& t.words[s.curr_index].streak == s.current().streak + 1
            &&& t.words[s.curr_index].correct == s.current().correct + 1
            &&& t.words[s.curr_index].wrong == s.current().wrong
            &&& t.known == mastered_count(t.words)
            &&& t.last_correct
            &&& t.curr_index == selected(t.words, coin, pick)
        }),
{
}

/// A line that differs from the answer is scored as wrong on the word on
/// show, and the reference screen of the same word is shown from the top,
/// with nothing being typed.  The streak that the answer ended is kept for
/// taking the answer back.
pub proof fn lemma_wrong_answer_shows_definition(s: AppView, coin: u8, pick: usize)
    requires
        s.wf(),
        s.writing is Some,
        s.current_screen == CurrentScreen::Question,
        !s.answer_matches(),
    ensures
        ({
            let t = s.handle_key(Key::Enter, coin, pick);
            &&& t.words == s.words.update(s.curr_index, s.current().answered_wrongly())
            &&& t.current().streak == 0
            &&& t.current().wrong == s.current().wrong + 1
            &&& t.current().correct == s.current().correct
            &&& t.curr_index == s.curr_index
            &&& t.current_screen == CurrentScreen::Definition
            &&& t.writing is None
            &&& t.current_scroll == 0
            &&& t.wrong_pending()
            &&& t.prev_streak == s.current().streak
            &&& t.known == mastered_count(t.words)
        }),
{
}

/// A line written on the reference screen becomes the answer of the word
/// on show, whose statistics stay, and another word is chosen.
pub proof fn lemma_written_answer_is_kept(s: AppView, coin: u8, pick: usize)
    requires
        s.wf(),
        s.writing is Some,
        s.current_screen == CurrentScreen::Definition,
    ensures
        ({
            let t = s.handle_key(Key::Enter, coin, pick);
            &&& t.words == s.words.update(
                s.curr_index,
                WordView { answer: Some(s.writing.unwrap().text), ..s.current() },
            )
            &&& t.curr_index == selected(t.words, coin, pick)
            &&& !t.wrong_pending()
        }),
{
}

/// `f` on the reference screen takes back the wrong answer that is waiting
/// for it: the word on show gets the kept streak, one wrong answer less and
/// one correct answer more.  No other word changes, and nothing is waiting
/// afterwards.
pub proof fn lemma_f_takes_back(s: AppView, coin: u8, pick: usize)
    requires
        s.wf(),
        s.writing is None,
        s.wrong_pending(),
    ensures
        ({
            let t = s.handle_key(Key::Char('f'), coin, pick);
            &&& t.curr_index == s.curr_index
            &&& t.current().streak == s.prev_streak
            &&& t.current().wrong == s.current().wrong - 1
            &&& t.current().correct == s.current().correct + 1
            &&& t.words == s.words.update(
                s.curr_index,
                s.current().wrong_undone(s.prev_streak),
            )
            &&& !t.wrong_pending()
            &&& t.known == mastered_count(t.words)
        }),
{
}

/// Without a wrong answer waiting, `f` changes nothing; so taking back can
/// be done once.
pub proof fn lemma_f_without_wrong_answer(s: AppView, coin: u8, pick: usize)
    requires
        s.writing is None,
        s.current_screen == CurrentScreen::Definition,
        !s.wrong_pending(),
    ensures
        s.handle_key(Key::Char('f'), coin, pick) == s,
        s.undo().undo() == s.undo(),
{
}

/// A wrong answer waits only on the word that was answered.  A key after
/// which a wrong answer waits has either scored it just now, on the word on
/// show, or has left the word on show, every word and the kept streak as
/// they were.
pub proof fn lemma_wrong_answer_waits_on_its_word(s: AppView, key: Key, coin: u8, pick: usize)
    requires
        s.wf(),
        s.handle_key(key, coin, pick).wrong_pending(),
    ensures
        ({
            let t = s.handle_key(key, coin, pick);
            &&& t.curr_index == s.curr_index
            &&& s.wrong_pending() ==> t.words == s.words && t.prev_streak == s.prev_streak
            &&& !s.wrong_pending() ==> {
                &&& t.words == s.words.update(s.curr_index, s.current().answered_wrongly())
                &&& t.prev_streak == s.current().streak
            }
        }),
{
}

/// Whatever keys are pressed after a wrong answer, as long as the answer
/// waits to be taken back the word on show is the one that was answered,
/// and taking the answer back leaves that word as it was before the
/// answer, but for one more correct answer.  No other word is touched, and
/// the count of mastered words is what it was before the answer.
pub proof fn lemma_take_back_restores(s: AppView, coin: u8, pick: usize, presses: Seq<Press>)
    requires
        s.wf(),
        s.writing is Some,
        s.current_screen == CurrentScreen::Question,
        !s.answer_matches(),
        forall|n: int|
            #![trigger presses.take(n)]
            0 <= n <= presses.len() ==> s.handle_key(Key::Enter, coin, pick).after(
                presses.take(n),
            ).wrong_pending(),
    ensures
        ({
            let t = s.handle_key(Key::Enter, coin, pick).after(presses);
            &&& t.wf()
            &&& t.curr_index == s.curr_index
            &&& t.words == s.words.update(s.curr_index, s.current().answered_wrongly())
            &&& t.prev_streak == s.current().streak
            &&& t.undo().words == s.words.update(
                s.curr_index,
                WordView { correct: s.current().correct + 1, ..s.current() },
            )
            &&& t.undo().known == s.known
            &&& !t.undo().wrong_pending()
        }),
    decreases presses.len(),
{
    let wrong = s.handle_key(Key::Enter, coin, pick);
    let t = wrong.after(presses);
    let restored = s.words.update(
        s.curr_index,
        WordView { correct: s.current().correct + 1, ..s.current() },
    );
    if presses.len() == 0 {
        lemma_handle_key_wf(s, Key::Enter, coin, pick);
    } else {
        let earlier = presses.drop_last();
        assert forall|n: int|
            #![trigger earlier.take(n)]
            0 <= n <= earlier.len() implies wrong.after(earlier.take(n)).wrong_pending() by {
            assert(earlier.take(n) =~= presses.take(n));
        }
        lemma_take_back_restores(s, coin, pick, earlier);
        let u = wrong.after(earlier);
        let last = presses.last();
        assert(presses.take(presses.len() as int) =~= presses);
        assert(t == u.handle_key(last.key, last.coin, last.pick));
        assert(t.wrong_pending());
        assert(earlier.take(earlier.len() as int) =~= earlier);
        assert(u.wrong_pending());
        lemma_handle_key_wf(u, last.key, last.coin, last.pick);
        lemma_wrong_answer_waits_on_its_word(u, last.key, last.coin, last.pick);
    }
    assert(t.undo().words =~= restored);
    lemma_mastered_count_by_streaks(s.words, restored);
}

/// The two numbers that choosing a word consumes, each from one call of
/// `rand::random`, which draws from the generator of the running thread.
/// Nothing is claimed of either number: any `u8` and any `usize` may come
/// back.
#[verifier::external_body]
fn draw() -> (r: (u8, usize)) {
    (rand::random::<u8>(), rand::random::<usize>())
}

impl View for App {
    type V = AppView;

    closed spec fn view(&self) -> AppView {
        AppView {
            words: word_views(self.words@),
            language_name: self.language_name@,
            curr_index: self.curr_index as int,
            exit: self.exit,
            writing: match self.writing {
                Some(w) => Some(w@),
                None => None,
            },
            current_screen: self.current_screen,
            current_scroll: self.current_scroll as int,
            last_correct: self.last_correct,
            known: self.known as nat,
            prev_streak: self.prev_streak as nat,
        }
    }
}

impl App {
    /// The invariant of a session, see [`AppView::wf`].
    pub open spec fn wf(&self) -> bool {
        self@.wf()
    }

    /// Begins a session on `language`, with its first word chosen at
    /// random.
    pub fn new(language: Language) -> (app: App)
        requires
            language.words.len() > 0,
        ensures
            app.wf(),
            exists|coin: u8, pick: usize| app@ == #[trigger] AppView::start(language@, coin, pick),
    {
        let (coin, pick) = draw();
        App::start(language, coin, pick)
    }

    /// Begins a session on `language`, with its first word chosen from the
    /// draws `coin` and `pick`.
    pub fn start(language: Language, coin: u8, pick: usize) -> (app: App)
        requires
            language.words.len() > 0,
        ensures
            app.wf(),
            app@ == AppView::start(language@, coin, pick),
    {
        let mut app = App {
            words: language.words,
            language_name: language.name,
            curr_index: 0,
            exit: false,
            writing: None,
            current_screen: CurrentScreen::Question,
            current_scroll: 0,
            last_correct: true,
            known: 0,
            prev_streak: 0,
        };
        app.calculate_known();
        app.advance(coin, pick);
        app
    }

    /// Chooses a new word at random and shows it.
    pub fn next_word(&mut self)
        requires
            old(self)@.words.len() > 0,
            old(self)@.known == mastered_count(old(self)@.words),
        ensures
            final(self).wf(),
            exists|coin: u8, pick: usize|
                final(self)@ == #[trigger] old(self)@.next_word(coin, pick),
    {
        let (coin, pick) = draw();
        self.advance(coin, pick);
    }

    /// Chooses a new word from the draws `coin` and `pick` and shows it.
    pub fn advance(&mut self, coin: u8, pick: usize)
        requires
            old(self)@.words.len() > 0,
            old(self)@.known == mastered_count(old(self)@.words),
        ensures
            final(self).wf(),
            final(self)@ == old(self)@.next_word(coin, pick),
    {
        proof {
            lemma_next_word_wf(self@, coin, pick);
        }
        self.curr_index = select_next(&self.words, coin, pick);
        self.last_correct = true;
        if self.words[self.curr_index].answer.is_some() {
            self.writing = Some(Writing::new());
            self.current_screen = CurrentScreen::Question;
        } else {
            self.writing = None;
            self.current_scroll = 0;
            self.current_screen = CurrentScreen::Definition;
        }
    }

    /// Whether the typed line is, character for character, the answer of
    /// the word on show.
    pub fn answer_matches(&self) -> (r: bool)
        requires
            self.wf(),
        ensures
            r == self@.answer_matches(),
    {
        match (&self.writing, &self.words[self.curr_index].answer) {
            (Some(writing), Some(answer)) => *writing.text() == *answer,
            _ => false,
        }
    }

    /// Scores the typed line against the answer of the word on show.  A
    /// match counts as correct and another word is chosen from the draws;
    /// anything else counts as wrong, and the reference screen of the same
    /// word is shown from the top, with nothing being typed.
    pub fn check_answer(&mut self, coin: u8, pick: usize)
        requires
            old(self).wf(),
            old(self)@.writing is Some,
            old(self)@.current_screen == CurrentScreen::Question,
            old(self)@.check_fits(),
        ensures
            final(self).wf(),
            final(self)@ == old(self)@.check_answer(coin, pick),
            old(self)@.answer_matches() ==> {
                &&& final(self)@.words == old(self)@.words.update(
                    old(self)@.curr_index,
                    old(self)@.current().answered_correctly(),
                )
                &&& final(self)@.last_correct
            },
            !old(self)@.answer_matches() ==> {
                &&& final(self)@.words == old(self)@.words.update(
                    old(self)@.curr_index,
                    old(self)@.current().answered_wrongly(),
                )
                &&& final(self)@.curr_index == old(self)@.curr_index
                &&& final(self)@.current_screen == CurrentScreen::Definition
                &&& final(self)@.writing is None
                &&& final(self)@.current_scroll == 0
                &&& !final(self)@.last_correct
                &&& final(self)@.prev_streak == old(self)@.current().streak
            },
    {
        let ghost before = self@;
        proof {
            lemma_handle_key_wf(before, Key::Enter, coin, pick);
        }
        let matches = self.answer_matches();
        if matches {
            record_correct(&mut self.words[self.curr_index]);
            self.last_correct = true;
            proof {
                assert(word_views(self.words@) =~= before.words.update(
                    before.curr_index,
                    before.current().answered_correctly(),
                ));
            }
            self.calculate_known();
            self.advance(coin, pick);
        } else {
            self.prev_streak = record_wrong(&mut self.words[self.curr_index]);
            self.last_correct = false;
            proof {
                assert(word_views(self.words@) =~= before.words.update(
                    before.curr_index,
                    before.current().answered_wrongly(),
                ));
            }
            self.calculate_known();
            self.writing = None;
            self.current_screen = CurrentScreen::Definition;
            self.current_scroll = 0;
        }
    }

    /// Makes the typed line the answer of the word on show, then chooses a
    /// new word.
    pub fn set_answer(&mut self, coin: u8, pick: usize)
        requires
            old(self).wf(),
            old(self)@.writing is Some,
        ensures
            final(self).wf(),
            final(self)@ == old(self)@.set_answer(coin, pick),
    {
        let ghost before = self@;
        let text = match &self.writing {
            Some(writing) => writing.text().clone(),
            None => String::new(),
        };
        self.words[self.curr_index].answer = Some(text);
        proof {
            let words = before.words.update(
                before.curr_index,
                WordView { answer: Some(before.writing.unwrap().text), ..before.current() },
            );
            assert(word_views(self.words@) =~= words);
            lemma_mastered_count_by_streaks(before.words, words);
        }
        self.advance(coin, pick);
    }

    /// Counts the mastered words anew.
    pub fn calculate_known(&mut self)
        ensures
            final(self)@ == (AppView {
                known: mastered_count(old(self)@.words),
                ..old(self)@
            }),
    {
        self.known = count_mastered(&self.words);
    }

    /// Takes back the wrong answer that is waiting for it and counts it as
    /// correct: the word on show gets back the streak that the answer
    /// ended, one wrong answer less and one correct answer more.  Where no
    /// wrong answer is waiting, nothing changes.
    pub fn undo(&mut self)
        requires
            old(self).wf(),
            old(self)@.undo_fits(),
        ensures
            final(self).wf(),
            final(self)@ == old(self)@.undo(),
            !final(self)@.wrong_pending(),
            final(self)@.curr_index == old(self)@.curr_index,
            old(self)@.wrong_pending() ==> {
                &&& final(self)@.current().streak == old(self)@.prev_streak
                &&& final(self)@.current().wrong == old(self)@.current().wrong - 1
                &&& final(self)@.current().correct == old(self)@.current().correct + 1
            },
            !old(self)@.wrong_pending() ==> final(self)@ == old(self)@,
    {
        let ghost before = self@;
        if !self.last_correct {
            undo_last_wrong(&mut self.words[self.curr_index], self.prev_streak);
            self.last_correct = true;
            proof {
                assert(word_views(self.words@) =~= before.words.update(
                    before.curr_index,
                    before.current().wrong_undone(before.prev_streak),
                ));
            }
            self.calculate_known();
        }
    }

    /// Asks for the session to end.
    pub fn exit(&mut self)
        ensures
            final(self)@ == (AppView { exit: true, ..old(self)@ }),
    {
        self.exit = true;
    }

    /// Whether `key` leads to a new word, see [`AppView::chooses_word`].
    pub fn chooses_word(&self, key: Key) -> (r: bool)
        requires
            self.wf(),
        ensures
            r == self@.chooses_word(key),
    {
        match (key, self.writing.is_some(), self.current_screen) {
            (Key::Enter, true, CurrentScreen::Definition) => true,
            (Key::Enter, true, CurrentScreen::Question) => self.answer_matches(),
            (Key::Char('n'), false, CurrentScreen::Definition) => {
                self.words[self.curr_index].answer.is_some()
            },
            _ => false,
        }
    }

    /// Handles one key press.  Where it leads to a new word, that word is
    /// chosen at random; no other key draws a number.
    pub fn handle_key_event(&mut self, key: Key)
        requires
            old(self).wf(),
            old(self)@.key_fits(key),
        ensures
            final(self).wf(),
            exists|coin: u8, pick: usize|
                final(self)@ == #[trigger] old(self)@.handle_key(key, coin, pick),
            !old(self)@.chooses_word(key) ==> forall|coin: u8, pick: usize|
                final(self)@ == #[trigger] old(self)@.handle_key(key, coin, pick),
    {
        if self.chooses_word(key) {
            let (coin, pick) = draw();
            self.handle_key(key, coin, pick);
        } else {
            self.handle_key(key, 0, 0);
            proof {
                assert forall|coin: u8, pick: usize|
                    self@ == #[trigger] old(self)@.handle_key(key, coin, pick) by {
                    lemma_draws_matter_only_for_a_new_word(old(self)@, key, coin, pick, 0, 0);
                }
            }
        }
    }

    /// Handles one key press.  Where it leads to a new word, that word is
    /// chosen from the draws `coin` and `pick`.
    pub fn handle_key(&mut self, key: Key, coin: u8, pick: usize)
        requires
            old(self).wf(),
            old(self)@.key_fits(key),
        ensures
            final(self).wf(),
            final(self)@ == old(self)@.handle_key(key, coin, pick),
    {
        proof {
            lemma_handle_key_wf(self@, key, coin, pick);
        }
        if self.writing.is_some() {
            match key {
                Key::Enter => match self.current_screen {
                    CurrentScreen::Question => self.check_answer(coin, pick),
                    CurrentScreen::Definition => self.set_answer(coin, pick),
                },
                Key::Esc => {
                    self.writing = None;
                },
                Key::Tab => match &mut self.writing {
                    Some(writing) => writing.toggle_special(),
                    None => {},
                },
                Key::Backspace => match &mut self.writing {
                    Some(writing) => writing.pop(),
                    None => {},
                },
                Key::Char(c) => match &mut self.writing {
                    Some(writing) => writing.push(c),
                    None => {},
                },
                Key::Other => {},
            }
        } else {
            match self.current_screen {
                CurrentScreen::Question => match key {
                    Key::Char('q') => self.exit(),
                    Key::Char('i') => {
                        self.writing = Some(Writing::new());
                    },
                    Key::Char('r') => {
                        self.writing = Some(Writing::new());
                        self.current_screen = CurrentScreen::Definition;
                    },
                    _ => {},
                },
                CurrentScreen::Definition => match key {
                    Key::Char('q') => self.exit(),
                    Key::Char('k') => {
                        self.current_scroll = self.current_scroll.saturating_sub(1);
                    },
                    Key::Char('j') => {
                        self.current_scroll = self.current_scroll.saturating_add(1);
                    },
                    Key::Char('g') => {
                        self.current_scroll = 0;
                    },
                    Key::Char('d') => {
                        self.current_scroll = self.current_scroll.saturating_add(SCROLL_PAGE);
                    },
                    Key::Char('u') => {
                        self.current_scroll = self.current_scroll.saturating_sub(SCROLL_PAGE);
                    },
                    Key::Char('f') => self.undo(),
                    Key::Char('n') => {
                        if self.words[self.curr_index].answer.is_some() {
                            self.advance(coin, pick);
                        } else {
                            self.writing = Some(Writing::new());
                        }
                    },
                    Key::Char('r') => {
                        self.writing = Some(Writing::new());
                    },
                    _ => {},
                },
            }
        }
    }

    /// Whether [`App::handle_key_event`] and [`App::handle_key`] may be
    /// called with `key`: whether the counters it touches have room.
    pub fn can_handle(&self, key: Key) -> (r: bool)
        requires
            self.wf(),
        ensures
            r == self@.key_fits(key),
    {
        let word = &self.words[self.curr_index];
        match (key, self.writing.is_some(), self.current_screen) {
            (Key::Enter, true, CurrentScreen::Question) => {
                if self.answer_matches() {
                    word.streak < u32::MAX && word.correct < u32::MAX
                } else {
                    word.wrong < u32::MAX
                }
            },
            (Key::Char('f'), false, CurrentScreen::Definition) => {
                self.last_correct || word.correct < u32::MAX
            },
            _ => true,
        }
    }

    /// Ends the session and hands the word list back, with the statistics
    /// and answers as the session left them.
    pub fn into_language(self) -> (language: Language)
        ensures
            language@ == (LanguageView { name: self@.language_name, words: self@.words }),
    {
        Language { name: self.language_name, words: self.words }
    }

    /// Whether the user has asked to leave.
    pub fn has_exited(&self) -> (r: bool)
        ensures
            r == self@.exit,
    {
        self.exit
    }

    pub fn words(&self) -> (r: &Vec<Word>)
        ensures
            word_views(r@) == self@.words,
    {
        &self.words
    }

    pub fn language_name(&self) -> (r: &String)
        ensures
            r@ == self@.language_name,
    {
        &self.language_name
    }

    pub fn curr_index(&self) -> (r: usize)
        ensures
            r == self@.curr_index,
    {
        self.curr_index
    }

    /// The word on show.
    pub fn current_word(&self) -> (r: &Word)
        requires
            self.wf(),
        ensures
            r@ == self@.current(),
    {
        &self.words[self.curr_index]
    }

    pub fn writing(&self) -> (r: Option<&Writing>)
        ensures
            match r {
                Some(w) => self@.writing == Some(w@),
                None => self@.writing is None,
            },
    {
        self.writing.as_ref()
    }

    pub fn current_screen(&self) -> (r: CurrentScreen)
        ensures
            r == self@.current_screen,
    {
        self.current_screen
    }

    pub fn current_scroll(&self) -> (r: u16)
        ensures
            r == self@.current_scroll,
    {
        self.current_scroll
    }

    /// False while a wrong answer waits to be taken back.
    pub fn last_correct(&self) -> (r: bool)
        ensures
            r == self@.last_correct,
    {
        self.last_correct
    }

    pub fn known(&self) -> (r: usize)
        ensures
            r == self@.known,
    {
        self.known
    }

    pub fn prev_streak(&self) -> (r: u32)
        ensures
            r == self@.prev_streak,
    {
        self.prev_streak
    }

    /// The quiz screen, while it is the one on show.
    pub fn question(&self) -> (r: Option<Question<'_>>)
        requires
            self.wf(),
        ensures
            match r {
                Some(q) => self@.current_screen == CurrentScreen::Question && q@ == (QuestionView {
                    word: self@.current(),
                    writing: self@.writing,
                }),
                None => self@.current_screen == CurrentScreen::Definition,
            },
    {
        match self.current_screen {
            CurrentScreen::Question => Some(
                Question::new(&self.words[self.curr_index], self.writing.as_ref()),
            ),
            CurrentScreen::Definition => None,
        }
    }

    /// The reference screen, while it is the one on show.
    pub fn definition(&self) -> (r: Option<Definition<'_>>)
        requires
            self.wf(),
        ensures
            match r {
                Some(d) => self@.current_screen == CurrentScreen::Definition && d@ == (
                DefinitionView { word: self@.current(), current_scroll: self@.current_scroll }),
                None => self@.current_screen == CurrentScreen::Question,
            },
    {
        match self.current_screen {
            CurrentScreen::Question => None,
            CurrentScreen::Definition => Some(
                Definition::new(&self.words[self.curr_index], self.current_scroll),
            ),
        }
    }

    /// The box in which an answer is written, which lies over the
    /// reference screen while a line is being typed there.
    pub fn popup(&self) -> (r: Option<PopupWriting<'_>>)
        ensures
            match r {
                Some(p) => self@.current_screen == CurrentScreen::Definition && self@.writing
                    == Some(p@.writing) && p@.title == POPUP_TITLE@,
                None => self@.current_screen == CurrentScreen::Question || self@.writing is None,
            },
    {
        match (&self.writing, self.current_screen) {
            (Some(writing), CurrentScreen::Definition) => Some(
                PopupWriting::new(POPUP_TITLE, writing),
            ),
            _ => None,
        }
    }
}

} // verus!
