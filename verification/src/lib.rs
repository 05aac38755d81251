//! A scanning engine that turns text into a flat sequence of classified tokens.
//!
//! The [`tokenizer::Tokenizer`] owns a text, a cursor over its Unicode scalar
//! values and the tokens emitted so far. Lexers for individual languages and
//! formats are built on top of its primitives.

pub mod model;
pub mod token;
pub mod tokenizer;
