//! A tokenizer for one line of a small Lisp-like language, with a
//! count-based check that grouping delimiters are balanced.
pub mod balance;
pub mod grammar;
pub mod lexer;
pub mod literal;
pub mod scan;
pub mod token;

pub use balance::delimiters_match;
pub use grammar::LineEnding;
pub use lexer::Parser;
pub use literal::{maybe_parse_bool, maybe_parse_float, maybe_parse_int, maybe_parse_primitive};
pub use scan::{is_reserved_char, is_whitespace, newline};
pub use token::{Delimiter, Expression, KeyWord, Primitive};
