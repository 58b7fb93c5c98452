//! The reference text of a word, cut into the lines that are shown.

use vstd::prelude::*;
use crate::words::{ExtractSection, ExtractSectionView, Word, WordView};

verus! {

/// How wide the marker on each side of a heading is.
pub const MARKER_WIDTH: usize = 5;

/// What a line of the reference text is, which decides how it is styled.
#[derive(Debug, Clone, Copy, PartialEq, Eq)]
pub enum LineKind {
    /// The word itself, at the top.
    Title,
    /// The empty line before each section.
    Blank,
    /// The name of a section, in square brackets.
    Section,
    /// A heading inside a section.
    Heading,
    /// Ordinary text.
    Text,
}

/// One line of the reference text as it is shown.
#[derive(Debug)]
pub struct DefinitionLine {
    pub kind: LineKind,
    pub text: String,
}

/// What a [`DefinitionLine`] holds.
pub ghost struct LineView {
    pub kind: LineKind,
    pub text: Seq<char>,
}

impl View for DefinitionLine {
    type V = LineView;

    open spec fn view(&self) -> LineView {
        LineView { kind: self.kind, text: self.text@ }
    }
}

/// The lines of a list, each by its view.
pub open spec fn line_views(lines: Seq<DefinitionLine>) -> Seq<LineView> {
    lines.map_values(|line: DefinitionLine| line@)
}

/// The character sequences of a list of character vectors.
pub open spec fn char_views(lines: Seq<Vec<char>>) -> Seq<Seq<char>> {
    lines.map_values(|line: Vec<char>| line@)
}

/// `line` without the carriage return at its end, if it has one.
pub open spec fn without_cr(line: Seq<char>) -> Seq<char> {
    if line.len() > 0 && line.last() == '\r' {
        line.drop_last()
    } else {
        line
    }
}

/// The lines of `text` from position `at` on, where the line in progress
/// began at `start`.
pub open spec fn lines_from(text: Seq<char>, start: int, at: int) -> Seq<Seq<char>>
    decreases text.len() - at,
{
    if at >= text.len() {
        if start < text.len() {
            seq![text.subrange(start, text.len() as int)]
        } else {
            Seq::empty()
        }
    } else if text[at] == '\n' {
        seq![without_cr(text.subrange(start, at))] + lines_from(text, at + 1, at + 1)
    } else {
        lines_from(text, start, at + 1)
    }
}

/// The lines of `text`.  A line ends at a line feed, or at a carriage
/// return and a line feed; neither belongs to the line.  Text after the
/// last line feed is a line of its own unless it is empty.
pub open spec fn lines_of(text: Seq<char>) -> Seq<Seq<char>> {
    lines_from(text, 0, 0)
}

/// The marker that opens a heading: four equals signs and a space.
pub open spec fn marker_open() -> Seq<char> {
    seq!['=', '=', '=', '=', ' ']
}

/// The marker that closes a heading: a space and four equals signs.
pub open spec fn marker_close() -> Seq<char> {
    seq![' ', '=', '=', '=', '=']
}

/// `line` is a heading: it begins with the opening marker and ends with
/// the closing one, and the two do not overlap.
pub open spec fn is_heading(line: Seq<char>) -> bool {
    &&& line.len() >= 2 * MARKER_WIDTH
    &&& line.take(MARKER_WIDTH as int) == marker_open()
    &&& line.skip(line.len() - MARKER_WIDTH) == marker_close()
}

/// One of `lines` is a heading.
pub open spec fn has_heading(lines: Seq<Seq<char>>) -> bool {
    exists|j: int| 0 <= j < lines.len() && is_heading(#[trigger] lines[j])
}

/// `n` spaces.
pub open spec fn spaces(n: nat) -> Seq<char> {
    Seq::new(n, |i: int| ' ')
}

/// How a line of a section that is not empty is shown.  A heading loses
/// its markers and is indented by two; other text is indented by four
/// under a heading, and by two before the section's first heading.
pub open spec fn shown(line: Seq<char>, under_heading: bool) -> LineView {
    if is_heading(line) {
        LineView {
            kind: LineKind::Heading,
            text: spaces(2) + line.subrange(MARKER_WIDTH as int, line.len() - MARKER_WIDTH),
        }
    } else if under_heading {
        LineView { kind: LineKind::Text, text: spaces(4) + line }
    } else {
        LineView { kind: LineKind::Text, text: spaces(2) + line }
    }
}

/// The text of a section as shown: its lines that are not empty, in
/// order.
pub open spec fn body_lines(lines: Seq<Seq<char>>) -> Seq<LineView>
    decreases lines.len(),
{
    if lines.len() == 0 {
        Seq::empty()
    } else if lines.last().len() == 0 {
        body_lines(lines.drop_last())
    } else {
        body_lines(lines.drop_last()).push(shown(lines.last(), has_heading(lines.drop_last())))
    }
}

/// The name of a section as shown, in square brackets.
pub open spec fn bracketed(name: Seq<char>) -> Seq<char> {
    seq!['[', ' '] + name + seq![' ', ']']
}

/// A section as shown: an empty line, its name, its text.
pub open spec fn section_lines(section: ExtractSectionView) -> Seq<LineView> {
    seq![
        LineView { kind: LineKind::Blank, text: Seq::empty() },
        LineView { kind: LineKind::Section, text: bracketed(section.name) },
    ] + body_lines(lines_of(section.content))
}

/// The sections as shown, one after the other.
pub open spec fn sections_lines(sections: Seq<ExtractSectionView>) -> Seq<LineView>
    decreases sections.len(),
{
    if sections.len() == 0 {
        Seq::empty()
    } else {
        sections_lines(sections.drop_last()) + section_lines(sections.last())
    }
}

/// The reference text of a word as shown: the word, then its sections.
pub open spec fn definition_lines(word: WordView) -> Seq<LineView> {
    seq![LineView { kind: LineKind::Title, text: word.word }] + sections_lines(word.extract)
}

/// The characters of `text`.
pub fn chars_of(text: &str) -> (chars: Vec<char>)
    ensures
        chars@ == text@,
{
    let mut chars: Vec<char> = Vec::new();
    let iter = text.chars();
    for c in it: iter
        invariant
            it.seq() == text@,
            chars@ == text@.take(it.index()),
    {
        chars.push(c);
        assert(text@.take(it.index() + 1) == text@.take(it.index()).push(c));
    }
    assert(text@.take(text@.len() as int) == text@);
    chars
}

/// Cuts `text` into its lines.
pub fn split_lines(text: &str) -> (lines: Vec<Vec<char>>)
    ensures
        char_views(lines@) == lines_of(text@),
{
    let chars = chars_of(text);
    let mut lines: Vec<Vec<char>> = Vec::new();
    let mut line: Vec<char> = Vec::new();
    let ghost mut start: int = 0;
    let mut at: usize = 0;
    while at < chars.len()
        invariant
            chars@ == text@,
            0 <= start <= at <= chars.len(),
            line@ == chars@.subrange(start, at as int),
            lines_of(text@) == char_views(lines@) + lines_from(chars@, start, at as int),
        decreases chars.len() - at,
    {
        let c = chars[at];
        let ghost done = char_views(lines@);
        if c == '\n' {
            if line.len() > 0 && line[line.len() - 1] == '\r' {
                let _ = line.pop();
            }
            lines.push(line);
            line = Vec::new();
            proof {
                let ended = without_cr(chars@.subrange(start, at as int));
                assert(char_views(lines@) =~= done.push(ended));
                assert(done + (seq![ended] + lines_from(chars@, at + 1, at + 1)) =~= done.push(
                    ended,
                ) + lines_from(chars@, at + 1, at + 1));
                start = at + 1;
            }
        } else {
            line.push(c);
            assert(chars@.subrange(start, at + 1) =~= chars@.subrange(start, at as int).push(c));
        }
        at = at + 1;
    }
    let ghost done = char_views(lines@);
    if line.len() > 0 {
        lines.push(line);
        proof {
            assert(char_views(lines@) =~= done.push(chars@.subrange(start, chars.len() as int)));
            assert(done + seq![chars@.subrange(start, chars.len() as int)] =~= done.push(
                chars@.subrange(start, chars.len() as int),
            ));
        }
    } else {
        assert(done + Seq::<Seq<char>>::empty() =~= done);
    }
    lines
}

/// Whether `line` is a heading.
pub fn is_heading_line(line: &Vec<char>) -> (r: bool)
    ensures
        r == is_heading(line@),
{
    let n = line.len();
    if n < 2 * MARKER_WIDTH {
        return false;
    }
    let r = line[0] == '=' && line[1] == '=' && line[2] == '=' && line[3] == '=' && line[4] == ' '
        && line[n - 5] == ' ' && line[n - 4] == '=' && line[n - 3] == '=' && line[n - 2] == '='
        && line[n - 1] == '=';
    proof {
        let head = line@.take(MARKER_WIDTH as int);
        let tail = line@.skip(n - MARKER_WIDTH);
        if r {
            assert(head =~= marker_open());
            assert(tail =~= marker_close());
        } else {
            assert(head[0] == line[0] && head[1] == line[1] && head[2] == line[2] && head[3]
                == line[3] && head[4] == line[4]);
            assert(tail[0] == line[n - 5] && tail[1] == line[n - 4] && tail[2] == line[n - 3]
                && tail[3] == line[n - 2] && tail[4] == line[n - 1]);
        }
    }
    r
}

/// `indent` spaces followed by the characters of `line` from `from` up to
/// `to`.
fn indented(indent: usize, line: &Vec<char>, from: usize, to: usize) -> (text: String)
    requires
        from <= to <= line.len(),
    ensures
        text@ == spaces(indent as nat) + line@.subrange(from as int, to as int),
{
    let mut text = String::new();
    let mut i: usize = 0;
    while i < indent
        invariant
            i <= indent,
            text@ == spaces(i as nat),
        decreases indent - i,
    {
        text.push(' ');
        i = i + 1;
        assert(text@ =~= spaces(i as nat));
    }
    let mut k: usize = from;
    while k < to
        invariant
            from <= k <= to <= line.len(),
            text@ == spaces(indent as nat) + line@.subrange(from as int, k as int),
        decreases to - k,
    {
        text.push(line[k]);
        k = k + 1;
        assert(text@ =~= spaces(indent as nat) + line@.subrange(from as int, k as int));
    }
    text
}

/// The name of a section in square brackets.
fn bracketed_name(name: &str) -> (text: String)
    ensures
        text@ == bracketed(name@),
{
    let chars = chars_of(name);
    let mut text = String::new();
    text.push('[');
    text.push(' ');
    let mut k: usize = 0;
    while k < chars.len()
        invariant
            k <= chars.len(),
            chars@ == name@,
            text@ == seq!['[', ' '] + chars@.take(k as int),
        decreases chars.len() - k,
    {
        text.push(chars[k]);
        k = k + 1;
        assert(text@ =~= seq!['[', ' '] + chars@.take(k as int));
    }
    text.push(' ');
    text.push(']');
    assert(text@ =~= bracketed(name@));
    text
}

/// Appends the lines that show `section` to `out`.
pub fn push_section(out: &mut Vec<DefinitionLine>, section: &ExtractSection)
    ensures
        line_views(final(out)@) == line_views(old(out)@) + section_lines(section@),
{
    let ghost before = line_views(out@);
    out.push(DefinitionLine { kind: LineKind::Blank, text: String::new() });
    let name = bracketed_name(section.name.as_str());
    out.push(DefinitionLine { kind: LineKind::Section, text: name });
    let ghost head = seq![
        LineView { kind: LineKind::Blank, text: Seq::empty() },
        LineView { kind: LineKind::Section, text: bracketed(section@.name) },
    ];
    assert(line_views(out@) =~= before + head);
    let lines = split_lines(section.content.as_str());
    let ghost all = char_views(lines@);
    let mut inside = false;
    let mut k: usize = 0;
    while k < lines.len()
        invariant
            k <= lines.len(),
            all == char_views(lines@),
            inside == has_heading(all.take(k as int)),
            line_views(out@) == before + head + body_lines(all.take(k as int)),
        decreases lines.len() - k,
    {
        let line = &lines[k];
        let ghost seen = all.take(k as int);
        let ghost shown_before = line_views(out@);
        proof {
            assert(all.take(k + 1).drop_last() =~= seen);
            assert(all.take(k + 1).last() == line@);
        }
        if line.len() > 0 {
            let n = line.len();
            let entry = if is_heading_line(line) {
                inside = true;
                DefinitionLine {
                    kind: LineKind::Heading,
                    text: indented(2, line, MARKER_WIDTH, n - MARKER_WIDTH),
                }
            } else if inside {
                assert(line@.subrange(0, n as int) =~= line@);
                DefinitionLine { kind: LineKind::Text, text: indented(4, line, 0, n) }
            } else {
                assert(line@.subrange(0, n as int) =~= line@);
                DefinitionLine { kind: LineKind::Text, text: indented(2, line, 0, n) }
            };
            assert(entry@ == shown(line@, has_heading(seen)));
            out.push(entry);
            assert(line_views(out@) =~= shown_before.push(shown(line@, has_heading(seen))));
            assert(before + head + body_lines(seen).push(shown(line@, has_heading(seen)))
                =~= (before + head + body_lines(seen)).push(shown(line@, has_heading(seen))));
        }
        proof {
            let next = all.take(k + 1);
            if has_heading(seen) {
                let j = choose|j: int| 0 <= j < seen.len() && is_heading(#[trigger] seen[j]);
                assert(is_heading(next[j]));
            }
            if is_heading(line@) {
                assert(is_heading(next[k as int]));
            }
            if has_heading(next) {
                let j = choose|j: int| 0 <= j < next.len() && is_heading(#[trigger] next[j]);
                if j < k {
                    assert(is_heading(seen[j]));
                }
            }
        }
        k = k + 1;
    }
    assert(all.take(k as int) =~= all);
    assert(before + head + body_lines(all) =~= before + (head + body_lines(all)));
}

/// The reference screen for one word.
pub struct Definition<'a> {
    word: &'a Word,
    current_scroll: u16,
}

/// What a [`Definition`] holds.
pub ghost struct DefinitionView {
    pub word: WordView,
    pub current_scroll: int,
}

impl<'a> View for Definition<'a> {
    type V = DefinitionView;

    closed spec fn view(&self) -> DefinitionView {
        DefinitionView { word: self.word@, current_scroll: self.current_scroll as int }
    }
}

impl<'a> Definition<'a> {
    pub fn new(word: &'a Word, current_scroll: u16) -> (r: Self)
        ensures
            r@ == (DefinitionView { word: word@, current_scroll: current_scroll as int }),
    {
        Self { word, current_scroll }
    }

    /// How many lines are scrolled out of sight at the top.
    pub fn current_scroll(&self) -> (r: u16)
        ensures
            r == self@.current_scroll,
    {
        self.current_scroll
    }

    /// The lines to show, from the first, before any scrolling.
    pub fn lines(&self) -> (lines: Vec<DefinitionLine>)
        ensures
            line_views(lines@) == definition_lines(self@.word),
    {
        let mut lines: Vec<DefinitionLine> = Vec::new();
        lines.push(DefinitionLine { kind: LineKind::Title, text: self.word.word.clone() });
        let ghost title = seq![LineView { kind: LineKind::Title, text: self@.word.word }];
        assert(line_views(lines@) =~= title);
        let ghost sections = self@.word.extract;
        let mut k: usize = 0;
        while k < self.word.extract.len()
            invariant
                k <= self.word.extract.len(),
                sections == self@.word.extract,
                sections.len() == self.word.extract.len(),
                line_views(lines@) == title + sections_lines(sections.take(k as int)),
            decreases self.word.extract.len() - k,
        {
            push_section(&mut lines, &self.word.extract[k]);
            proof {
                let done = sections.take(k as int);
                let next = sections.take(k + 1);
                assert(next.drop_last() =~= done);
                assert(next.last() == self.word.extract[k as int]@);
                assert(title + sections_lines(done) + section_lines(next.last()) =~= title + (
                sections_lines(done) + section_lines(next.last())));
            }
            k = k + 1;
        }
        assert(sections.take(k as int) =~= sections);
        lines
    }
}

} // verus!
