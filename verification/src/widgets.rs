//! What each part of the screen shows, as plain values.  How it is laid
//! out and drawn is for the caller.

pub mod definition;
pub mod popup_writing;
pub mod question;
