//! Single-line text entry with a one-shot mode that turns the next plain
//! letter into its German diacritic form.

use vstd::prelude::*;

verus! {

/// `String::push` appends the character to the end of the string.
pub assume_specification[ String::push ](s: &mut String, c: char)
    ensures
        final(s)@ == old(s)@.push(c),
;

/// `String::pop` removes the last character and returns it; on an empty
/// string it returns `None` and leaves the string empty.
pub assume_specification[ String::pop ](s: &mut String) -> (r: Option<char>)
    ensures
        old(s)@.len() == 0 ==> r is None && final(s)@ == old(s)@,
        old(s)@.len() > 0 ==> r == Some(old(s)@.last()) && final(s)@ == old(s)@.drop_last(),
;

/// The diacritic form of `c`: `a`, `o`, `u` and their capitals become
/// umlauts, `s` becomes sharp s, every other character is itself.
pub open spec fn special_form(c: char) -> char {
    if c == 'a' {
        '\u{e4}'
    } else if c == 'o' {
        '\u{f6}'
    } else if c == 'u' {
        '\u{fc}'
    } else if c == 'A' {
        '\u{c4}'
    } else if c == 'O' {
        '\u{d6}'
    } else if c == 'U' {
        '\u{dc}'
    } else if c == 's' {
        '\u{df}'
    } else {
        c
    }
}

/// Looks `c` up in the diacritic table.
pub fn to_special(c: char) -> (r: char)
    ensures
        r == special_form(c),
{
    match c {
        'a' => '\u{e4}',
        'o' => '\u{f6}',
        'u' => '\u{fc}',
        'A' => '\u{c4}',
        'O' => '\u{d6}',
        'U' => '\u{dc}',
        's' => '\u{df}',
        _ => c,
    }
}

/// The line being typed, and whether the next character is to be taken in
/// its diacritic form.
#[derive(Debug)]
pub struct Writing {
    text: String,
    special: bool,
}

/// What a [`Writing`] holds.
pub ghost struct WritingView {
    pub text: Seq<char>,
    pub special: bool,
}

impl WritingView {
    /// No text, special mode off.
    pub open spec fn empty() -> WritingView {
        WritingView { text: Seq::empty(), special: false }
    }

    /// Special mode flipped, text untouched.
    pub open spec fn toggled(self) -> WritingView {
        WritingView { special: !self.special, ..self }
    }

    /// The character that typing `c` appends.
    pub open spec fn typed(self, c: char) -> char {
        if self.special {
            special_form(c)
        } else {
            c
        }
    }

    /// One character typed: it is appended, in its diacritic form if
    /// special mode was on, and special mode is off afterwards.
    pub open spec fn pushed(self, c: char) -> WritingView {
        WritingView { text: self.text.push(self.typed(c)), special: false }
    }

    /// The last character removed, if there is one.  Special mode stays.
    pub open spec fn popped(self) -> WritingView {
        if self.text.len() > 0 {
            WritingView { text: self.text.drop_last(), ..self }
        } else {
            self
        }
    }
}

impl View for Writing {
    type V = WritingView;

    closed spec fn view(&self) -> WritingView {
        WritingView { text: self.text@, special: self.special }
    }
}

impl Writing {
    pub fn new() -> (r: Writing)
        ensures
            r@ == WritingView::empty(),
    {
        Writing { text: String::new(), special: false }
    }

    pub fn toggle_special(&mut self)
        ensures
            final(self)@ == old(self)@.toggled(),
    {
        self.special = !self.special;
    }

    pub fn push(&mut self, c: char)
        ensures
            final(self)@ == old(self)@.pushed(c),
    {
        let mut c = c;
        if self.special {
            c = to_special(c);
            self.special = false;
        }
        self.text.push(c);
    }

    pub fn pop(&mut self)
        ensures
            final(self)@ == old(self)@.popped(),
    {
        let _ = self.text.pop();
    }

    /// The text typed so far.
    pub fn text(&self) -> (r: &String)
        ensures
            r@ == self@.text,
    {
        &self.text
    }

    /// Whether the next character will be taken in its diacritic form.
    pub fn is_special(&self) -> (r: bool)
        ensures
            r == self@.special,
    {
        self.special
    }
}

/// Special mode lasts for one character: after a toggle from the plain
/// state, the next character is appended in its diacritic form and the one
/// after it as typed.
pub proof fn lemma_special_applies_once(w: WritingView, c: char, d: char)
    requires
        !w.special,
    ensures
        w.toggled().pushed(c).text == w.text.push(special_form(c)),
        !w.toggled().pushed(c).special,
        w.toggled().pushed(c).pushed(d).text == w.text.push(special_form(c)).push(d),
        w.pushed(c).text == w.text.push(c),
{
}

/// Removing from an empty line changes nothing, and removing what was just
/// typed restores the text.
pub proof fn lemma_pop_undoes_push(w: WritingView, c: char)
    ensures
        w.text.len() == 0 ==> w.popped() == w,
        w.pushed(c).popped().text == w.text,
{
    assert(w.text.push(w.typed(c)).drop_last() =~= w.text);
}

} // verus!
