//! Karukan: the romaji, kana, width and candidate-rewriting core of a
//! Japanese input method, with its contracts proved by Verus.

pub mod text;

pub mod kana;
pub mod romaji;
pub mod width;
pub mod engine;
pub mod kanji;
pub mod keycode;
pub mod rewriter;
pub mod state;
