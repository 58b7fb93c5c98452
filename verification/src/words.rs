//! The word list: one record per vocabulary entry, in curriculum order.

use vstd::prelude::*;

verus! {

/// A pronunciation recording attached to a word.
#[derive(Debug, Clone)]
pub struct AudioLink {
    pub ns: i32,
    pub title: String,
}

/// One named block of reference text.
#[derive(Debug, Clone)]
pub struct ExtractSection {
    pub name: String,
    pub content: String,
}

/// A vocabulary entry with its learning statistics.
///
/// `streak` counts the correct answers since the last wrong one, `correct`
/// and `wrong` count all answers ever given.  A word without an `answer`
/// cannot be quizzed until one has been written for it.
#[derive(Debug, Clone)]
pub struct Word {
    pub word: String,
    pub url: String,
    pub audio: Option<Vec<AudioLink>>,
    pub extract: Vec<ExtractSection>,
    pub answer: Option<String>,
    pub streak: u32,
    pub correct: u32,
    pub wrong: u32,
}

/// A named word list.  The order of `words` is the order of study.
#[derive(Debug)]
pub struct Language {
    pub name: String,
    pub words: Vec<Word>,
}

/// What an [`AudioLink`] holds.
pub ghost struct AudioLinkView {
    pub ns: int,
    pub title: Seq<char>,
}

/// What an [`ExtractSection`] holds.
pub ghost struct ExtractSectionView {
    pub name: Seq<char>,
    pub content: Seq<char>,
}

/// What a [`Word`] holds.
pub ghost struct WordView {
    pub word: Seq<char>,
    pub url: Seq<char>,
    pub audio: Option<Seq<AudioLinkView>>,
    pub extract: Seq<ExtractSectionView>,
    pub answer: Option<Seq<char>>,
    pub streak: nat,
    pub correct: nat,
    pub wrong: nat,
}

/// What a [`Language`] holds.
pub ghost struct LanguageView {
    pub name: Seq<char>,
    pub words: Seq<WordView>,
}

impl View for AudioLink {
    type V = AudioLinkView;

    open spec fn view(&self) -> AudioLinkView {
        AudioLinkView { ns: self.ns as int, title: self.title@ }
    }
}

impl View for ExtractSection {
    type V = ExtractSectionView;

    open spec fn view(&self) -> ExtractSectionView {
        ExtractSectionView { name: self.name@, content: self.content@ }
    }
}

impl View for Word {
    type V = WordView;

    open spec fn view(&self) -> WordView {
        WordView {
            word: self.word@,
            url: self.url@,
            audio: match self.audio {
                Some(links) => Some(links@.map_values(|link: AudioLink| link@)),
                None => None,
            },
            extract: self.extract@.map_values(|section: ExtractSection| section@),
            answer: match self.answer {
                Some(text) => Some(text@),
                None => None,
            },
            streak: self.streak as nat,
            correct: self.correct as nat,
            wrong: self.wrong as nat,
        }
    }
}

impl View for Language {
    type V = LanguageView;

    open spec fn view(&self) -> LanguageView {
        LanguageView { name: self.name@, words: word_views(self.words@) }
    }
}

/// The records of a list, each by its view, in the same order.
pub open spec fn word_views(words: Seq<Word>) -> Seq<WordView> {
    words.map_values(|word: Word| word@)
}

} // verus!
