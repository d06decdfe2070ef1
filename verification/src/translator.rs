//! The interpreter itself: a buffered one-character lookahead over a byte
//! stream, a 26-slot symbol table, and the recursive-descent routines that
//! recognize and evaluate each construct in one pass. Every routine's
//! behaviour is stated against the model in [`crate::semantics`].

use vstd::prelude::*;

use crate::error::InterpError;
use crate::numeral::int_to_decimal;
use crate::semantics::cur;
use crate::semantics::BANG;
use crate::semantics::CR;
use crate::semantics::DIGIT_0;
use crate::semantics::DIGIT_9;
use crate::semantics::EQUALS;
use crate::semantics::LF;
use crate::semantics::LOWER_A;
use crate::semantics::LOWER_Z;
use crate::semantics::LPAREN;
use crate::semantics::MINUS;
use crate::semantics::PLUS;
use crate::semantics::QUERY;
use crate::semantics::RPAREN;
use crate::semantics::SLASH;
use crate::semantics::STAR;
use crate::semantics::UPPER_A;
use crate::semantics::UPPER_Z;
use crate::semantics::spec_assignment;
use crate::semantics::spec_expression;
use crate::semantics::spec_factor;
use crate::semantics::spec_get_name;
use crate::semantics::spec_get_num;
use crate::semantics::spec_input_stmt;
use crate::semantics::spec_is_addop;
use crate::semantics::spec_is_digit;
use crate::semantics::spec_match;
use crate::semantics::spec_newline;
use crate::semantics::spec_num_loop;
use crate::semantics::spec_output_stmt;
use crate::semantics::spec_read;
use crate::semantics::spec_term;
use crate::semantics::spec_term_loop;
use crate::semantics::spec_exp_loop;

verus! {

/// True for the additive operators `'+'` and `'-'`.
pub fn is_addop(c: u8) -> (r: bool)
    ensures
        r == spec_is_addop(c),
{
    c == PLUS || c == MINUS
}

/// One interpreter session: the input stream with its cursor, the single
/// buffered lookahead character, and the symbol table of the 26 uppercase
/// letters.
pub struct Translator {
    /// The whole input stream, never modified.
    pub input: Vec<u8>,
    /// How many bytes have been consumed; the lookahead is the last of them.
    pub pos: usize,
    /// The buffered lookahead character.
    pub look: u8,
    /// One signed integer slot per uppercase letter, indexed by `letter - 'A'`.
    pub table: Vec<i64>,
}

impl Translator {
    /// The session invariant: the table has all 26 slots, at least the
    /// priming byte has been consumed, and the lookahead buffer holds the
    /// last consumed byte.
    pub open spec fn wf(&self) -> bool {
        &&& self.table@.len() == 26
        &&& 1 <= self.pos <= self.input@.len()
        &&& self.look == cur(self.input@, self.pos as int)
    }

    /// Opens a session over a byte stream and primes the lookahead with one
    /// read; an empty stream fails that first read.
    pub fn init(input: Vec<u8>) -> (r: Result<Translator, InterpError>)
        ensures
            match r {
                Ok(t) => {
                    &&& input@.len() > 0
                    &&& t.wf()
                    &&& t.input@ == input@
                    &&& t.pos == 1
                    &&& forall|k: int| 0 <= k < 26 ==> t.table@[k] == 0i64
                },
                Err(e) => {
                    &&& input@.len() == 0
                    &&& e == InterpError::UnexpectedEndOfInput
                },
            },
    {
        if input.len() == 0 {
            return Err(InterpError::UnexpectedEndOfInput);
        }
        let look: u8 = input[0];
        let mut table: Vec<i64> = Vec::new();
        let mut i: usize = 0;
        while i < 26
            invariant
                i <= 26,
                table@.len() == i,
                forall|k: int| 0 <= k < i ==> table@[k] == 0i64,
            decreases 26 - i,
        {
            table.push(0);
            i = i + 1;
        }
        Ok(Translator { input, pos: 1, look, table })
    }

    /// The current lookahead character, without consuming it.
    pub fn look(&self) -> (c: u8)
        requires
            self.wf(),
        ensures
            c == cur(self.input@, self.pos as int),
    {
        self.look
    }

    /// Advances the stream by one byte into the lookahead buffer; fails when
    /// nothing remains past the lookahead, leaving the session untouched.
    pub fn read(&mut self) -> (r: Result<(), InterpError>)
        requires
            old(self).wf(),
        ensures
            final(self).wf(),
            final(self).input@ == old(self).input@,
            final(self).table@ == old(self).table@,
            match spec_read(old(self).input@, old(self).pos as int) {
                Ok(p) => r == Ok::<(), InterpError>(()) && final(self).pos == p && old(self).pos < final(self).pos,
                Err(e) => r == Err::<(), InterpError>(e) && *final(self) == *old(self),
            },
    {
        if self.pos < self.input.len() {
            self.look = self.input[self.pos];
            self.pos = self.pos + 1;
            Ok(())
        } else {
            Err(InterpError::UnexpectedEndOfInput)
        }
    }

    /// Consumes the lookahead when it is exactly `c`; any failure, a
    /// mismatch as well as an exhausted stream, consumes nothing.
    pub fn match_(&mut self, c: u8) -> (r: Result<(), InterpError>)
        requires
            old(self).wf(),
        ensures
            final(self).wf(),
            final(self).input@ == old(self).input@,
            final(self).table@ == old(self).table@,
            match spec_match(old(self).input@, old(self).pos as int, c) {
                Ok(p) => r == Ok::<(), InterpError>(()) && final(self).pos == p && old(self).pos < final(self).pos,
                Err(e) => r == Err::<(), InterpError>(e) && *final(self) == *old(self),
            },
    {
        if self.look == c {
            self.read()
        } else {
            Err(InterpError::ExpectedToken(c))
        }
    }

    /// Reads a one-letter identifier: the alphabetic lookahead, uppercased
    /// and consumed; refused on any other lookahead.
    pub fn get_name(&mut self) -> (r: Result<u8, InterpError>)
        requires
            old(self).wf(),
        ensures
            final(self).wf(),
            final(self).input@ == old(self).input@,
            final(self).table@ == old(self).table@,
            old(self).pos <= final(self).pos,
            match spec_get_name(old(self).input@, old(self).pos as int) {
                Ok((name, p)) => {
                    &&& r == Ok::<u8, InterpError>(name)
                    &&& final(self).pos == p
                    &&& old(self).pos < final(self).pos
                    &&& UPPER_A <= name <= UPPER_Z
                },
                Err(e) => r == Err::<u8, InterpError>(e),
            },
    {
        let l: u8 = self.look;
        if !((UPPER_A <= l && l <= UPPER_Z) || (LOWER_A <= l && l <= LOWER_Z)) {
            return Err(InterpError::ExpectedName);
        }
        match self.read() {
            Ok(()) => {},
            Err(e) => {
                return Err(e);
            },
        }
        if LOWER_A <= l && l <= LOWER_Z {
            Ok(l - 32)
        } else {
            Ok(l)
        }
    }

    /// Reads a decimal number: digits accumulate left to right as
    /// `value * 10 + digit` until the first non-digit lookahead; refused
    /// when the first lookahead is no digit, and faulting the moment the
    /// value leaves the range of an `i64`.
    pub fn get_num(&mut self) -> (r: Result<i64, InterpError>)
        requires
            old(self).wf(),
        ensures
            final(self).wf(),
            final(self).input@ == old(self).input@,
            final(self).table@ == old(self).table@,
            old(self).pos <= final(self).pos,
            match spec_get_num(old(self).input@, old(self).pos as int) {
                Ok((v, p)) => {
                    &&& r is Ok
                    &&& r->Ok_0 as int == v
                    &&& final(self).pos == p
                    &&& old(self).pos < final(self).pos
                },
                Err(e) => r == Err::<i64, InterpError>(e),
            },
    {
        let mut value: i64 = 0;
        if !(DIGIT_0 <= self.look && self.look <= DIGIT_9) {
            return Err(InterpError::ExpectedInteger);
        }
        while DIGIT_0 <= self.look && self.look <= DIGIT_9
            invariant
                self.wf(),
                self.input@ == old(self).input@,
                self.table@ == old(self).table@,
                old(self).pos <= self.pos,
                value >= 0,
                self.pos == old(self).pos ==> spec_is_digit(cur(self.input@, self.pos as int)),
                spec_get_num(old(self).input@, old(self).pos as int) == spec_num_loop(
                    self.input@,
                    self.pos as int,
                    value as int,
                ),
            decreases self.input@.len() - self.pos,
        {
            let d: u8 = self.look - DIGIT_0;
            let v10: i64 = match value.checked_mul(10) {
                Some(x) => x,
                None => {
                    return Err(InterpError::ArithmeticFault);
                },
            };
            value = match v10.checked_add(d as i64) {
                Some(x) => x,
                None => {
                    return Err(InterpError::ArithmeticFault);
                },
            };
            match self.read() {
                Ok(()) => {},
                Err(e) => {
                    return Err(e);
                },
            }
        }
        Ok(value)
    }

    /// A factor: a parenthesized expression, a variable reference, or a
    /// numeric literal.
    pub fn factor(&mut self) -> (r: Result<i64, InterpError>)
        requires
            old(self).wf(),
        ensures
            final(self).wf(),
            final(self).input@ == old(self).input@,
            final(self).table@ == old(self).table@,
            old(self).pos <= final(self).pos,
            match spec_factor(old(self).input@, old(self).pos as int, old(self).table@) {
                Ok((v, p)) => {
                    &&& r is Ok
                    &&& r->Ok_0 as int == v
                    &&& final(self).pos == p
                    &&& old(self).pos < final(self).pos
                },
                Err(e) => r == Err::<i64, InterpError>(e),
            },
        decreases old(self).input@.len() - old(self).pos, 0int,
    {
        if self.look == LPAREN {
            match self.match_(LPAREN) {
                Ok(()) => {},
                Err(e) => {
                    return Err(e);
                },
            }
            let v: i64 = match self.expression() {
                Ok(x) => x,
                Err(e) => {
                    return Err(e);
                },
            };
            match self.match_(RPAREN) {
                Ok(()) => {},
                Err(e) => {
                    return Err(e);
                },
            }
            Ok(v)
        } else if (UPPER_A <= self.look && self.look <= UPPER_Z) || (LOWER_A <= self.look && self.look
            <= LOWER_Z) {
            let name: u8 = match self.get_name() {
                Ok(n) => n,
                Err(e) => {
                    return Err(e);
                },
            };
            Ok(self.var(name))
        } else {
            self.get_num()
        }
    }

    /// A term: a factor followed by a left-associative chain of `'*'` and
    /// `'/'` against further factors. Division truncates towards zero; a
    /// zero divisor, like any value outside `i64`, is an arithmetic fault.
    pub fn term(&mut self) -> (r: Result<i64, InterpError>)
        requires
            old(self).wf(),
        ensures
            final(self).wf(),
            final(self).input@ == old(self).input@,
            final(self).table@ == old(self).table@,
            old(self).pos <= final(self).pos,
            match spec_term(old(self).input@, old(self).pos as int, old(self).table@) {
                Ok((v, p)) => {
                    &&& r is Ok
                    &&& r->Ok_0 as int == v
                    &&& final(self).pos == p
                    &&& old(self).pos < final(self).pos
                },
                Err(e) => r == Err::<i64, InterpError>(e),
            },
        decreases old(self).input@.len() - old(self).pos, 1int,
    {
        let mut value: i64 = match self.factor() {
            Ok(x) => x,
            Err(e) => {
                return Err(e);
            },
        };
        while self.look == STAR || self.look == SLASH
            invariant
                self.wf(),
                self.input@ == old(self).input@,
                self.table@ == old(self).table@,
                old(self).pos < self.pos,
                spec_term(old(self).input@, old(self).pos as int, old(self).table@)
                    == spec_term_loop(self.input@, self.pos as int, value as int, self.table@),
            decreases self.input@.len() - self.pos,
        {
            if self.look == STAR {
                match self.match_(STAR) {
                    Ok(()) => {},
                    Err(e) => {
                        return Err(e);
                    },
                }
                let f: i64 = match self.factor() {
                    Ok(x) => x,
                    Err(e) => {
                        return Err(e);
                    },
                };
                value = match value.checked_mul(f) {
                    Some(x) => x,
                    None => {
                        return Err(InterpError::ArithmeticFault);
                    },
                };
            } else {
                match self.match_(SLASH) {
                    Ok(()) => {},
                    Err(e) => {
                        return Err(e);
                    },
                }
                let f: i64 = match self.factor() {
                    Ok(x) => x,
                    Err(e) => {
                        return Err(e);
                    },
                };
                value = match value.checked_div(f) {
                    Some(x) => x,
                    None => {
                        return Err(InterpError::ArithmeticFault);
                    },
                };
            }
        }
        Ok(value)
    }

    /// An expression: a left-associative chain of `'+'` and `'-'` against
    /// terms. A leading additive operator stands for an implicit zero first
    /// term, so a signed expression such as `-5` evaluates as `0 - 5`.
    pub fn expression(&mut self) -> (r: Result<i64, InterpError>)
        requires
            old(self).wf(),
        ensures
            final(self).wf(),
            final(self).input@ == old(self).input@,
            final(self).table@ == old(self).table@,
            old(self).pos <= final(self).pos,
            match spec_expression(old(self).input@, old(self).pos as int, old(self).table@) {
                Ok((v, p)) => {
                    &&& r is Ok
                    &&& r->Ok_0 as int == v
                    &&& final(self).pos == p
                },
                Err(e) => r == Err::<i64, InterpError>(e),
            },
        decreases old(self).input@.len() - old(self).pos, 3int,
    {
        let mut value: i64 = 0;
        if !(self.look == PLUS || self.look == MINUS) {
            value = match self.term() {
                Ok(x) => x,
                Err(e) => {
                    return Err(e);
                },
            };
        }
        while self.look == PLUS || self.look == MINUS
            invariant
                self.wf(),
                self.input@ == old(self).input@,
                self.table@ == old(self).table@,
                old(self).pos <= self.pos,
                spec_expression(old(self).input@, old(self).pos as int, old(self).table@)
                    == spec_exp_loop(self.input@, self.pos as int, value as int, self.table@),
            decreases self.input@.len() - self.pos,
        {
            if self.look == PLUS {
                match self.match_(PLUS) {
                    Ok(()) => {},
                    Err(e) => {
                        return Err(e);
                    },
                }
                let t: i64 = match self.term() {
                    Ok(x) => x,
                    Err(e) => {
                        return Err(e);
                    },
                };
                value = match value.checked_add(t) {
                    Some(x) => x,
                    None => {
                        return Err(InterpError::ArithmeticFault);
                    },
                };
            } else {
                match self.match_(MINUS) {
                    Ok(()) => {},
                    Err(e) => {
                        return Err(e);
                    },
                }
                let t: i64 = match self.term() {
                    Ok(x) => x,
                    Err(e) => {
                        return Err(e);
                    },
                };
                value = match value.checked_sub(t) {
                    Some(x) => x,
                    None => {
                        return Err(InterpError::ArithmeticFault);
                    },
                };
            }
        }
        Ok(value)
    }

    /// An assignment statement: a name, `'='`, an expression; the value
    /// lands in the named variable's slot.
    pub fn assignment(&mut self) -> (r: Result<(), InterpError>)
        requires
            old(self).wf(),
        ensures
            final(self).wf(),
            final(self).input@ == old(self).input@,
            old(self).pos <= final(self).pos,
            match spec_assignment(old(self).input@, old(self).pos as int, old(self).table@) {
                Ok((p, t)) => {
                    &&& r == Ok::<(), InterpError>(())
                    &&& final(self).pos == p
                    &&& final(self).table@ == t
                },
                Err(e) => r == Err::<(), InterpError>(e),
            },
    {
        let name: u8 = match self.get_name() {
            Ok(n) => n,
            Err(e) => {
                return Err(e);
            },
        };
        match self.match_(EQUALS) {
            Ok(()) => {},
            Err(e) => {
                return Err(e);
            },
        }
        let val: i64 = match self.expression() {
            Ok(x) => x,
            Err(e) => {
                return Err(e);
            },
        };
        self.set_var(name, val);
        Ok(())
    }

    /// The value of a variable: direct indexed access, sound because every
    /// name reaching it was produced by `get_name` and so is an uppercase
    /// letter.
    pub fn var(&self, name: u8) -> (r: i64)
        requires
            self.wf(),
            UPPER_A <= name <= UPPER_Z,
        ensures
            r == self.table@[name - UPPER_A],
    {
        let idx: usize = (name - UPPER_A) as usize;
        self.table[idx]
    }

    /// Overwrites a variable's slot; no other slot changes.
    pub fn set_var(&mut self, name: u8, val: i64)
        requires
            old(self).wf(),
            UPPER_A <= name <= UPPER_Z,
        ensures
            final(self).wf(),
            final(self).input@ == old(self).input@,
            final(self).pos == old(self).pos,
            final(self).look == old(self).look,
            final(self).table@ == old(self).table@.update(name - UPPER_A, val),
    {
        let idx: usize = (name - UPPER_A) as usize;
        self.table[idx] = val;
    }

    /// Recognizes and consumes one line ending: `"\r\n"`, a lone `'\n'`, or
    /// a tolerated lone `'\r'`; any other lookahead is left in place.
    pub fn newline(&mut self) -> (r: Result<(), InterpError>)
        requires
            old(self).wf(),
        ensures
            final(self).wf(),
            final(self).input@ == old(self).input@,
            final(self).table@ == old(self).table@,
            old(self).pos <= final(self).pos,
            match spec_newline(old(self).input@, old(self).pos as int) {
                Ok(p) => r == Ok::<(), InterpError>(()) && final(self).pos == p,
                Err(e) => r == Err::<(), InterpError>(e),
            },
    {
        if self.look == CR {
            match self.read() {
                Ok(()) => {},
                Err(e) => {
                    return Err(e);
                },
            }
            if self.look == LF {
                match self.read() {
                    Ok(()) => {},
                    Err(e) => {
                        return Err(e);
                    },
                }
            }
            Ok(())
        } else if self.look == LF {
            self.read()
        } else {
            Ok(())
        }
    }

    /// The `'?'` statement: after the name, one read skips a separator
    /// character, the raw byte value of the next lookahead becomes the
    /// variable's value, and one more read consumes that byte.
    pub fn input(&mut self) -> (r: Result<(), InterpError>)
        requires
            old(self).wf(),
        ensures
            final(self).wf(),
            final(self).input@ == old(self).input@,
            old(self).pos <= final(self).pos,
            match spec_input_stmt(old(self).input@, old(self).pos as int, old(self).table@) {
                Ok((p, t)) => {
                    &&& r == Ok::<(), InterpError>(())
                    &&& final(self).pos == p
                    &&& final(self).table@ == t
                },
                Err(e) => r == Err::<(), InterpError>(e),
            },
    {
        match self.match_(QUERY) {
            Ok(()) => {},
            Err(e) => {
                return Err(e);
            },
        }
        let name: u8 = match self.get_name() {
            Ok(n) => n,
            Err(e) => {
                return Err(e);
            },
        };
        match self.read() {
            Ok(()) => {},
            Err(e) => {
                return Err(e);
            },
        }
        let val: i64 = self.look as i64;
        self.set_var(name, val);
        self.read()
    }

    /// The `'!'` statement: after the name, computes the exact bytes that
    /// the statement prints, the variable's value in decimal and one line
    /// terminator; the caller performs the printing.
    pub fn output(&mut self) -> (r: Result<Vec<u8>, InterpError>)
        requires
            old(self).wf(),
        ensures
            final(self).wf(),
            final(self).input@ == old(self).input@,
            final(self).table@ == old(self).table@,
            old(self).pos <= final(self).pos,
            match spec_output_stmt(old(self).input@, old(self).pos as int, old(self).table@) {
                Ok((bytes, p)) => {
                    &&& r is Ok
                    &&& r->Ok_0@ == bytes
                    &&& final(self).pos == p
                },
                Err(e) => r == Err::<Vec<u8>, InterpError>(e),
            },
    {
        match self.match_(BANG) {
            Ok(()) => {},
            Err(e) => {
                return Err(e);
            },
        }
        let name: u8 = match self.get_name() {
            Ok(n) => n,
            Err(e) => {
                return Err(e);
            },
        };
        let mut bytes: Vec<u8> = int_to_decimal(self.var(name));
        bytes.push(LF);
        Ok(bytes)
    }
}

} // verus!
