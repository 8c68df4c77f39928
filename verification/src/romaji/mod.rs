//! Romaji → hiragana conversion.

pub mod style;
pub mod rules;
pub mod converter;
