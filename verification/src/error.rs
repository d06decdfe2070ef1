//! The failure conditions of the interpreter. Every failure is fatal in the
//! sense that no routine resynchronises: an error propagates unchanged to the
//! caller, which decides whether to stop the whole run.

use vstd::prelude::*;

verus! {

/// The ways a parse or evaluation step can fail.
#[derive(Clone, Copy, Debug, PartialEq, Eq, Structural)]
pub enum InterpError {
    /// The stream produced no further byte when one was required.
    UnexpectedEndOfInput,
    /// The lookahead did not match a required literal character.
    ExpectedToken(u8),
    /// The lookahead was not alphabetic where a name was required.
    ExpectedName,
    /// The lookahead was not a decimal digit where a number was required.
    ExpectedInteger,
    /// Division by zero, or a value that left the range of an `i64`.
    ArithmeticFault,
}

} // verus!
