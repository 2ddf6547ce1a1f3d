//! Search and classification engine of a Unicode character browser.

pub mod blocks;
pub mod categories;
pub mod defaults;
pub mod display;
pub mod distance;
pub mod glyph;
pub mod index;
pub mod inspector;
pub mod laws;
pub mod properties;
pub mod query;
pub mod search;
pub mod selection;
pub mod seqs;
pub mod text;
