//! A front end for LOLCODE: a tokenizer and a stack-based parser that turns
//! the token stream into a validated program.
//!
//! - [`tokenizer`] splits source text into located tokens.
//! - [`parser`] runs the tokens through a stack of contexts and yields the
//!   program, or the diagnostics that say why there is none.
//! - [`framework`] holds the diagnostics and the sink that receives them.
//! - [`interpreter`] says what a program prints.
//!
//! The functions are verified against contracts over the mathematical
//! models of their arguments: a string is its characters, a vector is the
//! sequence of its elements' models. One function is taken on trust:
//! `text::push_char`, which stands for `String::push`.
pub mod framework;
pub mod interpreter;
pub mod parser;
pub mod text;
pub mod tokenizer;
