//! A scanner for a small scripting language with C-like syntax.
//!
//! A [`lexer::Lexer`] is made over a source text and hands out one
//! [`token::Token`] per call of `next_token`: keywords, identifiers, integer
//! literals, operators and delimiters, and `Eof` once the text is used up.
//! What each call yields is defined in [`scan`] as a function of the text
//! that is left, and every function of the library is proved against it.

pub mod chars;
pub mod decimal;
pub mod error;
pub mod lexer;
pub mod repl;
pub mod scan;
pub mod std_specs;
pub mod token;
