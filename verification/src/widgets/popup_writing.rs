//! The box in which an answer is written for a word.

use vstd::prelude::*;
use crate::composer::{Writing, WritingView};

verus! {

/// A titled box that shows the line being typed.
pub struct PopupWriting<'a> {
    title: &'a str,
    writing: &'a Writing,
}

/// What a [`PopupWriting`] holds.
pub ghost struct PopupWritingView {
    pub title: Seq<char>,
    pub writing: WritingView,
}

impl<'a> View for PopupWriting<'a> {
    type V = PopupWritingView;

    closed spec fn view(&self) -> PopupWritingView {
        PopupWritingView { title: self.title@, writing: self.writing@ }
    }
}

impl<'a> PopupWriting<'a> {
    pub fn new(title: &'a str, writing: &'a Writing) -> (r: Self)
        ensures
            r@ == (PopupWritingView { title: title@, writing: writing@ }),
    {
        Self { title, writing }
    }

    /// The title of the box.
    pub fn title(&self) -> (r: &'a str)
        ensures
            r@ == self@.title,
    {
        self.title
    }

    /// The line typed so far.
    pub fn typed(&self) -> (r: &'a String)
        ensures
            r@ == self@.writing.text,
    {
        self.writing.text()
    }
}

} // verus!
