//! A vocabulary drill: a word list with per-word learning statistics, a
//! scheduler that picks the next word to quiz, and the state machine of one
//! review session.

pub mod composer;
pub mod scheduler;
pub mod session;
pub mod widgets;
pub mod words;
