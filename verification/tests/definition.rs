use wordtui::widgets::definition::{
    chars_of, is_heading_line, push_section, split_lines, Definition, DefinitionLine, LineKind,
};
use wordtui::widgets::popup_writing::PopupWriting;
use wordtui::widgets::question::Question;
use wordtui::composer::Writing;
use wordtui::words::{ExtractSection, Word};

fn lines_as_strings(text: &str) -> Vec<String> {
    split_lines(text).iter().map(|l| l.iter().collect::<String>()).collect()
}

fn shown(lines: &[DefinitionLine]) -> Vec<(LineKind, &str)> {
    lines.iter().map(|l| (l.kind, l.text.as_str())).collect()
}

fn word_with(sections: Vec<(&str, &str)>) -> Word {
    Word {
        word: "Hund".to_string(),
        url: String::new(),
        audio: None,
        extract: sections
            .into_iter()
            .map(|(n, c)| ExtractSection { name: n.to_string(), content: c.to_string() })
            .collect(),
        answer: None,
        streak: 0,
        correct: 0,
        wrong: 0,
    }
}

#[test]
fn characters_of_a_text() {
    assert_eq!(chars_of(""), Vec::<char>::new());
    assert_eq!(chars_of("a\u{e4}\n"), vec!['a', '\u{e4}', '\n']);
}

#[test]
fn lines_are_cut_at_line_feeds() {
    assert_eq!(lines_as_strings("one\ntwo\nthree"), vec!["one", "two", "three"]);
    assert_eq!(lines_as_strings("one"), vec!["one"]);
}

#[test]
fn last_line_feed_opens_no_line() {
    assert_eq!(lines_as_strings("one\ntwo\n"), vec!["one", "two"]);
    assert_eq!(lines_as_strings("\n"), vec![""]);
    assert_eq!(lines_as_strings(""), Vec::<String>::new());
}

#[test]
fn empty_lines_are_lines() {
    assert_eq!(lines_as_strings("a\n\nb"), vec!["a", "", "b"]);
    assert_eq!(lines_as_strings("\n\n"), vec!["", ""]);
    assert_eq!(lines_as_strings("\na"), vec!["", "a"]);
}

#[test]
fn carriage_return_before_line_feed_is_dropped() {
    assert_eq!(lines_as_strings("a\r\nb\r\n"), vec!["a", "b"]);
    assert_eq!(lines_as_strings("\r\n"), vec![""]);
    assert_eq!(lines_as_strings("a\r\r\nb"), vec!["a\r", "b"]);
}

#[test]
fn other_carriage_returns_stay() {
    assert_eq!(lines_as_strings("a\rb\nc"), vec!["a\rb", "c"]);
    assert_eq!(lines_as_strings("a\r"), vec!["a\r"]);
    assert_eq!(lines_as_strings("a\n\r"), vec!["a", "\r"]);
}

#[test]
fn lines_agree_with_the_standard_library() {
    for text in [
        "", "\n", "\r", "\r\n", "a", "a\n", "a\r\n", "a\r", "\na", "a\n\nb\n", "x\r\ny\rz\n\n\r\nw",
        "==== A ====\nb\r\n\r\nc", "\n\n\n", "\r\r\n\r", "\u{e4}\n\u{df}\r\n",
    ] {
        let expected: Vec<String> = text.lines().map(|l| l.to_string()).collect();
        assert_eq!(lines_as_strings(text), expected, "{:?}", text);
    }
}

#[test]
fn headings_are_wrapped_in_markers() {
    assert!(is_heading_line(&chars_of("==== Noun ====")));
    assert!(is_heading_line(&chars_of("====  ====")));
    assert!(is_heading_line(&chars_of("==== ==== ====")));
    assert!(!is_heading_line(&chars_of("==== ====")));
    assert!(!is_heading_line(&chars_of("==== Noun")));
    assert!(!is_heading_line(&chars_of("Noun ====")));
    assert!(!is_heading_line(&chars_of("=== Noun ===")));
    assert!(!is_heading_line(&chars_of("====Noun ====")));
    assert!(!is_heading_line(&chars_of("==== Noun====")));
    assert!(!is_heading_line(&chars_of(" ==== Noun ====")));
    assert!(!is_heading_line(&chars_of("==== Noun ==== ")));
    assert!(!is_heading_line(&chars_of("")));
    assert!(!is_heading_line(&chars_of("=")));
}

#[test]
fn section_is_an_empty_line_its_name_and_its_text() {
    let mut out = Vec::new();
    let section =
        ExtractSection { name: "Noun".to_string(), content: "a dog\na hound".to_string() };
    push_section(&mut out, &section);
    assert_eq!(
        shown(&out),
        vec![
            (LineKind::Blank, ""),
            (LineKind::Section, "[ Noun ]"),
            (LineKind::Text, "  a dog"),
            (LineKind::Text, "  a hound"),
        ]
    );
}

#[test]
fn section_is_appended_to_what_is_there() {
    let mut out = vec![DefinitionLine { kind: LineKind::Title, text: "T".to_string() }];
    let section = ExtractSection { name: String::new(), content: String::new() };
    push_section(&mut out, &section);
    assert_eq!(
        shown(&out),
        vec![(LineKind::Title, "T"), (LineKind::Blank, ""), (LineKind::Section, "[  ]")]
    );
}

#[test]
fn text_under_a_heading_is_indented_further() {
    let mut out = Vec::new();
    let section = ExtractSection {
        name: "German".to_string(),
        content: "intro\n\n==== Noun ====\nHund m\r\n\n==== Verb ====\nhunden\n".to_string(),
    };
    push_section(&mut out, &section);
    assert_eq!(
        shown(&out),
        vec![
            (LineKind::Blank, ""),
            (LineKind::Section, "[ German ]"),
            (LineKind::Text, "  intro"),
            (LineKind::Heading, "  Noun"),
            (LineKind::Text, "    Hund m"),
            (LineKind::Heading, "  Verb"),
            (LineKind::Text, "    hunden"),
        ]
    );
}

#[test]
fn overlapping_markers_are_ordinary_text() {
    let mut out = Vec::new();
    let section = ExtractSection {
        name: "N".to_string(),
        content: "==== ====\n====  ====\nx".to_string(),
    };
    push_section(&mut out, &section);
    assert_eq!(
        shown(&out),
        vec![
            (LineKind::Blank, ""),
            (LineKind::Section, "[ N ]"),
            (LineKind::Text, "  ==== ===="),
            (LineKind::Heading, "  "),
            (LineKind::Text, "    x"),
        ]
    );
}

#[test]
fn definition_begins_with_the_word() {
    let word = word_with(vec![]);
    let d = Definition::new(&word, 3);
    assert_eq!(d.current_scroll(), 3);
    assert_eq!(shown(&d.lines()), vec![(LineKind::Title, "Hund")]);
}

#[test]
fn each_section_starts_outside_any_heading() {
    let word = word_with(vec![
        ("Etymology", "==== Old ====\nhunt"),
        ("Noun", "dog\n==== Forms ====\n\nHunde"),
    ]);
    let d = Definition::new(&word, 0);
    assert_eq!(
        shown(&d.lines()),
        vec![
            (LineKind::Title, "Hund"),
            (LineKind::Blank, ""),
            (LineKind::Section, "[ Etymology ]"),
            (LineKind::Heading, "  Old"),
            (LineKind::Text, "    hunt"),
            (LineKind::Blank, ""),
            (LineKind::Section, "[ Noun ]"),
            (LineKind::Text, "  dog"),
            (LineKind::Heading, "  Forms"),
            (LineKind::Text, "    Hunde"),
        ]
    );
}

#[test]
fn text_with_diacritics_is_kept() {
    let word = word_with(vec![("\u{dc}bersicht", "==== Gr\u{f6}\u{df}e ====\n\u{e4}\u{f6}\u{fc}")]);
    let d = Definition::new(&word, 0);
    assert_eq!(
        shown(&d.lines()),
        vec![
            (LineKind::Title, "Hund"),
            (LineKind::Blank, ""),
            (LineKind::Section, "[ \u{dc}bersicht ]"),
            (LineKind::Heading, "  Gr\u{f6}\u{df}e"),
            (LineKind::Text, "    \u{e4}\u{f6}\u{fc}"),
        ]
    );
}

#[test]
fn question_holds_the_word_and_the_line() {
    let word = word_with(vec![]);
    let mut writing = Writing::new();
    writing.push('d');
    let q = Question::new(&word, Some(&writing));
    assert_eq!(q.prompt().as_str(), "Hund");
    assert!(q.is_active());
    assert_eq!(q.typed().map(|t| t.as_str()), Some("d"));
    let q = Question::new(&word, None);
    assert!(!q.is_active());
    assert!(q.typed().is_none());
}

#[test]
fn popup_holds_its_title_and_the_line() {
    let mut writing = Writing::new();
    writing.toggle_special();
    writing.push('o');
    let p = PopupWriting::new("Define the answer", &writing);
    assert_eq!(p.title(), "Define the answer");
    assert_eq!(p.typed().as_str(), "\u{f6}");
}
