//! A lexical scanner for a small C-like scripting language.
//!
//! The scanner turns one complete source text into an ordered sequence of
//! [`token::Tokens`] values.  Its behaviour is pinned down by the spec-level
//! scanner [`lexer::spec_tokenize`], and [`lexer::Lexer::tokenize`] is proved
//! to return exactly that sequence.

pub mod lexer;
pub mod text;
pub mod theorems;
pub mod token;
