//! Interactive elements: a button, a list, a pager and a text input.

pub mod button;
pub mod common;
pub mod list;
pub mod pager;
pub mod text_input;
pub mod utf8;
