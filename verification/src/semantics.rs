//! The mathematical model of the interpreter: one specification function per
//! grammar routine, each mapping a stream position (and, where variables are
//! involved, a symbol table) to the value computed and the position reached,
//! or to the failure that stops the run.
//!
//! Positions count consumed bytes. After the priming read the position is 1
//! and the lookahead character is the byte at index `pos - 1`; the bytes from
//! index `pos` on are still unread.

use vstd::prelude::*;

use crate::error::InterpError;

verus! {

/// The ASCII byte `'!'`, opening the output statement.
pub const BANG: u8 = 33;

/// The ASCII byte `'('`.
pub const LPAREN: u8 = 40;

/// The ASCII byte `')'`.
pub const RPAREN: u8 = 41;

/// The ASCII byte `'*'`.
pub const STAR: u8 = 42;

/// The ASCII byte `'+'`.
pub const PLUS: u8 = 43;

/// The ASCII byte `'-'`.
pub const MINUS: u8 = 45;

/// The ASCII byte `'/'`.
pub const SLASH: u8 = 47;

/// The ASCII byte `'0'`.
pub const DIGIT_0: u8 = 48;

/// The ASCII byte `'9'`.
pub const DIGIT_9: u8 = 57;

/// The ASCII byte `'='`.
pub const EQUALS: u8 = 61;

/// The ASCII byte `'?'`, opening the input statement.
pub const QUERY: u8 = 63;

/// The ASCII byte `'A'`.
pub const UPPER_A: u8 = 65;

/// The ASCII byte `'Z'`.
pub const UPPER_Z: u8 = 90;

/// The ASCII byte `'a'`.
pub const LOWER_A: u8 = 97;

/// The ASCII byte `'z'`.
pub const LOWER_Z: u8 = 122;

/// The ASCII carriage-return byte.
pub const CR: u8 = 13;

/// The ASCII line-feed byte.
pub const LF: u8 = 10;

/// The lookahead character at position `pos`: the last byte consumed.
pub open spec fn cur(input: Seq<u8>, pos: int) -> u8 {
    input[pos - 1]
}

/// Decimal digit, `'0'` through `'9'`.
pub open spec fn spec_is_digit(c: u8) -> bool {
    DIGIT_0 <= c <= DIGIT_9
}

/// ASCII letter, either case.
pub open spec fn spec_is_alpha(c: u8) -> bool {
    (UPPER_A <= c <= UPPER_Z) || (LOWER_A <= c <= LOWER_Z)
}

/// The additive operators, `'+'` and `'-'`.
pub open spec fn spec_is_addop(c: u8) -> bool {
    c == PLUS || c == MINUS
}

/// ASCII uppercasing: letters fold to `'A'` through `'Z'`.
pub open spec fn spec_to_upper(c: u8) -> u8 {
    if LOWER_A <= c <= LOWER_Z {
        (c - 32) as u8
    } else {
        c
    }
}

/// Whether a mathematical integer is representable as an `i64`. Host
/// arithmetic faults the run the moment a value leaves this range.
pub open spec fn fits_i64(v: int) -> bool {
    i64::MIN <= v <= i64::MAX
}

/// Truncating integer division, the quotient rounded towards zero, as the
/// host's `/` computes it on signed integers.
pub open spec fn trunc_div(a: int, b: int) -> int {
    if a == 0 {
        0
    } else if a > 0 && b > 0 {
        a / b
    } else if a < 0 && b < 0 {
        (-a) / (-b)
    } else if a < 0 {
        -((-a) / b)
    } else {
        -(a / (-b))
    }
}

/// Advancing the stream by one byte: the new position, or the end-of-input
/// failure when nothing remains past the lookahead.
pub open spec fn spec_read(input: Seq<u8>, pos: int) -> Result<int, InterpError> {
    if pos < input.len() {
        Ok(pos + 1)
    } else {
        Err(InterpError::UnexpectedEndOfInput)
    }
}

/// Matching one literal character: consumed when it is the lookahead,
/// refused without consumption otherwise.
pub open spec fn spec_match(input: Seq<u8>, pos: int, c: u8) -> Result<int, InterpError> {
    if cur(input, pos) == c {
        spec_read(input, pos)
    } else {
        Err(InterpError::ExpectedToken(c))
    }
}

/// Reading a one-letter identifier: the uppercased alphabetic lookahead,
/// consumed.
pub open spec fn spec_get_name(input: Seq<u8>, pos: int) -> Result<(u8, int), InterpError> {
    if !spec_is_alpha(cur(input, pos)) {
        Err(InterpError::ExpectedName)
    } else {
        match spec_read(input, pos) {
            Ok(p) => Ok((spec_to_upper(cur(input, pos)), p)),
            Err(e) => Err(e),
        }
    }
}

/// The digit-accumulation loop of number reading: starting from `acc`, each
/// digit lookahead folds in as `acc * 10 + digit` and is consumed; the first
/// non-digit lookahead stops the loop.
pub open spec fn spec_num_loop(input: Seq<u8>, pos: int, acc: int) -> Result<
    (int, int),
    InterpError,
>
    decreases input.len() - pos,
{
    if !spec_is_digit(cur(input, pos)) {
        Ok((acc, pos))
    } else {
        let acc2 = 10 * acc + (cur(input, pos) - DIGIT_0);
        if !fits_i64(acc2) {
            Err(InterpError::ArithmeticFault)
        } else {
            match spec_read(input, pos) {
                Ok(p) => spec_num_loop(input, p, acc2),
                Err(e) => Err(e),
            }
        }
    }
}

/// Reading a number: refused unless the lookahead is a digit, then the
/// accumulation loop from zero.
pub open spec fn spec_get_num(input: Seq<u8>, pos: int) -> Result<(int, int), InterpError> {
    if !spec_is_digit(cur(input, pos)) {
        Err(InterpError::ExpectedInteger)
    } else {
        spec_num_loop(input, pos, 0)
    }
}

/// A factor: a parenthesized expression, a variable, or a numeric literal.
///
/// The grammar functions recurse into each other at positions that a
/// successful sub-parse has advanced; the position checks before each such
/// recursion make the termination measure explicit and never fail on a
/// reachable path, since every successful parse consumes at least one byte.
pub open spec fn spec_factor(input: Seq<u8>, pos: int, table: Seq<i64>) -> Result<
    (int, int),
    InterpError,
>
    decreases input.len() - pos, 0int,
{
    if cur(input, pos) == LPAREN {
        match spec_read(input, pos) {
            Ok(p1) => match spec_expression(input, p1, table) {
                Ok((v, p2)) => match spec_match(input, p2, RPAREN) {
                    Ok(p3) => Ok((v, p3)),
                    Err(e) => Err(e),
                },
                Err(e) => Err(e),
            },
            Err(e) => Err(e),
        }
    } else if spec_is_alpha(cur(input, pos)) {
        match spec_get_name(input, pos) {
            Ok((name, p1)) => Ok((table[name - UPPER_A] as int, p1)),
            Err(e) => Err(e),
        }
    } else {
        spec_get_num(input, pos)
    }
}

/// The multiplicative chain of a term: while the lookahead is `'*'` or
/// `'/'`, consume the operator, parse a factor, and fold it into the
/// left-associative running value. Division truncates towards zero and
/// faults on a zero divisor; any value outside `i64` faults.
pub open spec fn spec_term_loop(input: Seq<u8>, pos: int, acc: int, table: Seq<i64>) -> Result<
    (int, int),
    InterpError,
>
    decreases input.len() - pos, 2int,
{
    if cur(input, pos) == STAR {
        match spec_read(input, pos) {
            Ok(p1) => match spec_factor(input, p1, table) {
                Ok((f, p2)) => {
                    let v = acc * f;
                    if !fits_i64(v) {
                        Err(InterpError::ArithmeticFault)
                    } else if pos < p2 <= input.len() {
                        spec_term_loop(input, p2, v, table)
                    } else {
                        Ok((v, p2))
                    }
                },
                Err(e) => Err(e),
            },
            Err(e) => Err(e),
        }
    } else if cur(input, pos) == SLASH {
        match spec_read(input, pos) {
            Ok(p1) => match spec_factor(input, p1, table) {
                Ok((f, p2)) => {
                    if f == 0 {
                        Err(InterpError::ArithmeticFault)
                    } else {
                        let v = trunc_div(acc, f);
                        if !fits_i64(v) {
                            Err(InterpError::ArithmeticFault)
                        } else if pos < p2 <= input.len() {
                            spec_term_loop(input, p2, v, table)
                        } else {
                            Ok((v, p2))
                        }
                    }
                },
                Err(e) => Err(e),
            },
            Err(e) => Err(e),
        }
    } else {
        Ok((acc, pos))
    }
}

/// A term: a factor followed by its multiplicative chain.
pub open spec fn spec_term(input: Seq<u8>, pos: int, table: Seq<i64>) -> Result<
    (int, int),
    InterpError,
>
    decreases input.len() - pos, 1int,
{
    match spec_factor(input, pos, table) {
        Ok((v, p1)) => if pos < p1 <= input.len() {
            spec_term_loop(input, p1, v, table)
        } else {
            Ok((v, p1))
        },
        Err(e) => Err(e),
    }
}

/// The additive chain of an expression: while the lookahead is `'+'` or
/// `'-'`, consume the operator, parse a term, and fold it into the
/// left-associative running value. Any value outside `i64` faults.
pub open spec fn spec_exp_loop(input: Seq<u8>, pos: int, acc: int, table: Seq<i64>) -> Result<
    (int, int),
    InterpError,
>
    decreases input.len() - pos, 2int,
{
    if cur(input, pos) == PLUS {
        match spec_read(input, pos) {
            Ok(p1) => match spec_term(input, p1, table) {
                Ok((t, p2)) => {
                    let v = acc + t;
                    if !fits_i64(v) {
                        Err(InterpError::ArithmeticFault)
                    } else if pos < p2 <= input.len() {
                        spec_exp_loop(input, p2, v, table)
                    } else {
                        Ok((v, p2))
                    }
                },
                Err(e) => Err(e),
            },
            Err(e) => Err(e),
        }
    } else if cur(input, pos) == MINUS {
        match spec_read(input, pos) {
            Ok(p1) => match spec_term(input, p1, table) {
                Ok((t, p2)) => {
                    let v = acc - t;
                    if !fits_i64(v) {
                        Err(InterpError::ArithmeticFault)
                    } else if pos < p2 <= input.len() {
                        spec_exp_loop(input, p2, v, table)
                    } else {
                        Ok((v, p2))
                    }
                },
                Err(e) => Err(e),
            },
            Err(e) => Err(e),
        }
    } else {
        Ok((acc, pos))
    }
}

/// An expression: a leading additive operator stands for an implicit zero
/// first term, so `-5` evaluates as `0 - 5`; otherwise a term opens the
/// chain.
pub open spec fn spec_expression(input: Seq<u8>, pos: int, table: Seq<i64>) -> Result<
    (int, int),
    InterpError,
>
    decreases input.len() - pos, 3int,
{
    if spec_is_addop(cur(input, pos)) {
        spec_exp_loop(input, pos, 0, table)
    } else {
        match spec_term(input, pos, table) {
            Ok((v, p1)) => if pos < p1 <= input.len() {
                spec_exp_loop(input, p1, v, table)
            } else {
                Ok((v, p1))
            },
            Err(e) => Err(e),
        }
    }
}

/// An assignment statement: a name, `'='`, an expression; the value lands in
/// the table slot of the name.
pub open spec fn spec_assignment(input: Seq<u8>, pos: int, table: Seq<i64>) -> Result<
    (int, Seq<i64>),
    InterpError,
>
{
    match spec_get_name(input, pos) {
        Ok((name, p1)) => match spec_match(input, p1, EQUALS) {
            Ok(p2) => match spec_expression(input, p2, table) {
                Ok((v, p3)) => Ok((p3, table.update(name - UPPER_A, v as i64))),
                Err(e) => Err(e),
            },
            Err(e) => Err(e),
        },
        Err(e) => Err(e),
    }
}

/// The `'?'` statement: after the name, one read skips a separator
/// character, the raw byte value of the next lookahead becomes the
/// variable's value, and one more read consumes that byte.
pub open spec fn spec_input_stmt(input: Seq<u8>, pos: int, table: Seq<i64>) -> Result<
    (int, Seq<i64>),
    InterpError,
>
{
    match spec_match(input, pos, QUERY) {
        Ok(p1) => match spec_get_name(input, p1) {
            Ok((name, p2)) => match spec_read(input, p2) {
                Ok(p3) => match spec_read(input, p3) {
                    Ok(p4) => Ok((p4, table.update(name - UPPER_A, cur(input, p3) as i64))),
                    Err(e) => Err(e),
                },
                Err(e) => Err(e),
            },
            Err(e) => Err(e),
        },
        Err(e) => Err(e),
    }
}

/// Recognizing a line ending: `"\r\n"`, a lone `'\n'`, or a tolerated lone
/// `'\r'`; anything else is left in place.
pub open spec fn spec_newline(input: Seq<u8>, pos: int) -> Result<int, InterpError> {
    if cur(input, pos) == CR {
        match spec_read(input, pos) {
            Ok(p1) => if cur(input, p1) == LF {
                spec_read(input, p1)
            } else {
                Ok(p1)
            },
            Err(e) => Err(e),
        }
    } else if cur(input, pos) == LF {
        spec_read(input, pos)
    } else {
        Ok(pos)
    }
}

/// The `'!'` statement: after the name, the bytes printed are the decimal
/// rendering of the variable's value and one line terminator.
pub open spec fn spec_output_stmt(input: Seq<u8>, pos: int, table: Seq<i64>) -> Result<
    (Seq<u8>, int),
    InterpError,
>
{
    match spec_match(input, pos, BANG) {
        Ok(p1) => match spec_get_name(input, p1) {
            Ok((name, p2)) => Ok(
                (crate::numeral::dec_repr(table[name - UPPER_A] as int).push(LF), p2),
            ),
            Err(e) => Err(e),
        },
        Err(e) => Err(e),
    }
}

} // verus!
