//! A single-pass interpreter for a tiny arithmetic and assignment language:
//! one-letter uppercase variables, integer literals, `+ - * /`, parentheses,
//! and two statement forms for reading a byte and printing a variable.
//! Recognition and evaluation are fused: each recursive-descent routine both
//! parses its construct and computes its value over one character of
//! lookahead, with no intermediate syntax tree.

pub mod error;
pub mod laws;
pub mod numeral;
pub mod semantics;
pub mod translator;
