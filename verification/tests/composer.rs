use wordtui::composer::{to_special, Writing};

#[test]
fn new_composer_is_empty_and_plain() {
    let w = Writing::new();
    assert_eq!(w.text().as_str(), "");
    assert!(!w.is_special());
}

#[test]
fn special_turns_a_into_a_umlaut() {
    let mut w = Writing::new();
    w.push('x');
    w.toggle_special();
    assert!(w.is_special());
    w.push('a');
    assert_eq!(w.text().as_str(), "x\u{e4}");
    assert!(w.text().ends_with('\u{e4}'));
    assert!(!w.is_special());
}

#[test]
fn plain_push_appends_the_character_itself() {
    let mut w = Writing::new();
    w.push('a');
    assert_eq!(w.text().as_str(), "a");
    assert!(!w.is_special());
}

#[test]
fn special_lasts_for_one_character() {
    let mut w = Writing::new();
    w.toggle_special();
    w.push('u');
    w.push('u');
    assert_eq!(w.text().as_str(), "\u{fc}u");
}

#[test]
fn special_is_cleared_by_a_character_without_a_special_form() {
    let mut w = Writing::new();
    w.toggle_special();
    w.push('x');
    assert_eq!(w.text().as_str(), "x");
    assert!(!w.is_special());
    w.push('o');
    assert_eq!(w.text().as_str(), "xo");
}

#[test]
fn toggling_twice_returns_to_plain() {
    let mut w = Writing::new();
    w.toggle_special();
    w.toggle_special();
    assert!(!w.is_special());
    w.push('s');
    assert_eq!(w.text().as_str(), "s");
}

#[test]
fn toggle_leaves_the_text_alone() {
    let mut w = Writing::new();
    w.push('h');
    w.push('i');
    w.toggle_special();
    assert_eq!(w.text().as_str(), "hi");
}

#[test]
fn the_whole_table() {
    assert_eq!(to_special('a'), '\u{e4}');
    assert_eq!(to_special('o'), '\u{f6}');
    assert_eq!(to_special('u'), '\u{fc}');
    assert_eq!(to_special('A'), '\u{c4}');
    assert_eq!(to_special('O'), '\u{d6}');
    assert_eq!(to_special('U'), '\u{dc}');
    assert_eq!(to_special('s'), '\u{df}');
    assert_eq!(to_special('S'), 'S');
    assert_eq!(to_special('e'), 'e');
    assert_eq!(to_special('1'), '1');
    assert_eq!(to_special(' '), ' ');
    assert_eq!(to_special('\u{e4}'), '\u{e4}');
}

#[test]
fn every_special_letter_through_the_composer() {
    let mut w = Writing::new();
    for c in ['a', 'o', 'u', 'A', 'O', 'U', 's'] {
        w.toggle_special();
        w.push(c);
    }
    assert_eq!(w.text().as_str(), "\u{e4}\u{f6}\u{fc}\u{c4}\u{d6}\u{dc}\u{df}");
}

#[test]
fn pop_on_empty_is_a_no_op() {
    let mut w = Writing::new();
    w.pop();
    assert_eq!(w.text().as_str(), "");
    assert!(!w.is_special());
}

#[test]
fn pop_removes_one_whole_character() {
    let mut w = Writing::new();
    w.push('n');
    w.toggle_special();
    w.push('a');
    w.pop();
    assert_eq!(w.text().as_str(), "n");
    w.pop();
    assert_eq!(w.text().as_str(), "");
    w.pop();
    assert_eq!(w.text().as_str(), "");
}

#[test]
fn pop_keeps_special_mode() {
    let mut w = Writing::new();
    w.push('a');
    w.toggle_special();
    w.pop();
    assert!(w.is_special());
    w.push('o');
    assert_eq!(w.text().as_str(), "\u{f6}");
}
