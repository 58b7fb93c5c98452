//! The quiz screen for one word.

use vstd::prelude::*;
use crate::composer::{Writing, WritingView};
use crate::words::{Word, WordView};

verus! {

/// The quiz screen: the word asked, and the line being typed if one is.
pub struct Question<'a> {
    word: &'a Word,
    writing: Option<&'a Writing>,
}

/// What a [`Question`] holds.
pub ghost struct QuestionView {
    pub word: WordView,
    pub writing: Option<WritingView>,
}

impl<'a> View for Question<'a> {
    type V = QuestionView;

    closed spec fn view(&self) -> QuestionView {
        QuestionView {
            word: self.word@,
            writing: match self.writing {
                Some(writing) => Some(writing@),
                None => None,
            },
        }
    }
}

impl<'a> Question<'a> {
    pub fn new(word: &'a Word, writing: Option<&'a Writing>) -> (r: Self)
        ensures
            r@.word == word@,
            r@.writing == match writing {
                Some(w) => Some(w@),
                None => None,
            },
    {
        Self { word, writing }
    }

    /// The word that is asked.
    pub fn prompt(&self) -> (r: &'a String)
        ensures
            r@ == self@.word.word,
    {
        &self.word.word
    }

    /// Whether an answer is being typed, which decides the colour of the
    /// answer box.
    pub fn is_active(&self) -> (r: bool)
        ensures
            r == (self@.writing is Some),
    {
        self.writing.is_some()
    }

    /// The answer typed so far, while one is being typed.
    pub fn typed(&self) -> (r: Option<&'a String>)
        ensures
            match r {
                Some(text) => self@.writing is Some && text@ == self@.writing.unwrap().text,
                None => self@.writing is None,
            },
    {
        match self.writing {
            Some(writing) => Some(writing.text()),
            None => None,
        }
    }
}

} // verus!
