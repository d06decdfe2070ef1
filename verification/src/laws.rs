//! General properties of the interpreter, each stated over the model in
//! [`crate::semantics`] and proved once and for all.

use vstd::prelude::*;

use crate::error::InterpError;
use crate::numeral::dec_repr;
use crate::semantics::BANG;
use crate::semantics::DIGIT_0;
use crate::semantics::LF;
use crate::semantics::UPPER_A;
use crate::semantics::UPPER_Z;
use crate::semantics::cur;
use crate::semantics::fits_i64;
use crate::semantics::spec_assignment;
use crate::semantics::spec_expression;
use crate::semantics::spec_factor;
use crate::semantics::spec_get_name;
use crate::semantics::spec_get_num;
use crate::semantics::spec_input_stmt;
use crate::semantics::spec_is_alpha;
use crate::semantics::spec_is_digit;
use crate::semantics::spec_match;
use crate::semantics::spec_num_loop;
use crate::semantics::spec_output_stmt;
use crate::semantics::spec_read;
use crate::semantics::spec_term;
use crate::semantics::spec_to_upper;

verus! {

/// Ten raised to a non-negative power.
pub open spec fn pow10(n: nat) -> int
    decreases n,
{
    if n == 0 {
        1
    } else {
        10 * pow10((n - 1) as nat)
    }
}

/// Every byte of the sequence is a decimal digit.
pub open spec fn all_digits(ds: Seq<u8>) -> bool {
    forall|i: int| 0 <= i < ds.len() ==> spec_is_digit(ds[i])
}

/// The value of a digit string read as a decimal numeral, the first byte
/// most significant: for digits `d1 .. dn` this is the sum of
/// `di * 10^(n - i)`.
pub open spec fn digits_val(ds: Seq<u8>) -> int
    decreases ds.len(),
{
    if ds.len() == 0 {
        0
    } else {
        10 * digits_val(ds.drop_last()) + (ds.last() - DIGIT_0)
    }
}

proof fn lemma_pow10_pos(n: nat)
    ensures
        pow10(n) >= 1,
    decreases n,
{
    if n > 0 {
        lemma_pow10_pos((n - 1) as nat);
    }
}

proof fn lemma_digits_val_nonneg(ds: Seq<u8>)
    requires
        all_digits(ds),
    ensures
        digits_val(ds) >= 0,
    decreases ds.len(),
{
    if ds.len() > 0 {
        assert(all_digits(ds.drop_last())) by {
            assert(forall|i: int| 0 <= i < ds.drop_last().len() ==> ds.drop_last()[i] == ds[i]);
        }
        lemma_digits_val_nonneg(ds.drop_last());
    }
}

/// Peeling the most significant digit: the value of a non-empty digit
/// string is its first digit weighted by ten to the remaining length, plus
/// the value of the rest.
proof fn lemma_digits_val_first(ds: Seq<u8>)
    requires
        ds.len() >= 1,
    ensures
        digits_val(ds) == (ds[0] - DIGIT_0) * pow10((ds.len() - 1) as nat) + digits_val(
            ds.subrange(1, ds.len() as int),
        ),
    decreases ds.len(),
{
    reveal_with_fuel(digits_val, 3);
    let len = ds.len() as int;
    let tail = ds.subrange(1, len);
    if ds.len() == 1 {
        assert(ds.drop_last() =~= Seq::<u8>::empty());
        assert(tail =~= Seq::<u8>::empty());
        assert((ds[0] - DIGIT_0) * 1 == ds[0] - DIGIT_0);
    } else {
        let dl = ds.drop_last();
        lemma_digits_val_first(dl);
        assert(dl.subrange(1, len - 1) =~= tail.drop_last());
        let d0 = ds[0] - DIGIT_0;
        let p = pow10((len - 2) as nat);
        assert(10 * (d0 * p) == d0 * (10 * p)) by (nonlinear_arith);
        assert(pow10((len - 1) as nat) == 10 * p);
        assert(digits_val(ds) == 10 * digits_val(dl) + (ds.last() - DIGIT_0));
        assert(digits_val(tail) == 10 * digits_val(tail.drop_last()) + (tail.last() - DIGIT_0));
        assert(tail.last() == ds.last());
        assert(digits_val(dl) == d0 * p + digits_val(tail.drop_last()));
        assert(digits_val(ds) == d0 * (10 * p) + digits_val(tail));
    }
}

/// The digit-accumulation loop over a run of `n` digits ending on a
/// non-digit: the accumulator is scaled past the run and the run's value is
/// added, and the loop stops exactly on the first non-digit.
proof fn lemma_num_loop_run(input: Seq<u8>, pos: int, acc: int, n: int)
    requires
        1 <= pos,
        0 <= n,
        pos + n <= input.len(),
        0 <= acc,
        all_digits(input.subrange(pos - 1, pos - 1 + n)),
        !spec_is_digit(input[pos - 1 + n]),
        acc * pow10(n as nat) + digits_val(input.subrange(pos - 1, pos - 1 + n)) <= i64::MAX,
    ensures
        spec_num_loop(input, pos, acc) == Ok::<(int, int), InterpError>(
            (acc * pow10(n as nat) + digits_val(input.subrange(pos - 1, pos - 1 + n)), pos + n),
        ),
    decreases n,
{
    let sub = input.subrange(pos - 1, pos - 1 + n);
    if n == 0 {
        assert(sub =~= Seq::<u8>::empty());
        assert(!spec_is_digit(cur(input, pos)));
    } else {
        assert(cur(input, pos) == sub[0]);
        assert(spec_is_digit(sub[0]));
        let d = sub[0] - DIGIT_0;
        let acc2 = 10 * acc + d;
        let tail = sub.subrange(1, n);
        let p = pow10((n - 1) as nat);
        lemma_digits_val_first(sub);
        assert(all_digits(tail)) by {
            assert(forall|i: int| 0 <= i < tail.len() ==> tail[i] == sub[i + 1]);
        }
        lemma_digits_val_nonneg(tail);
        lemma_pow10_pos((n - 1) as nat);
        assert(acc * pow10(n as nat) == (10 * acc) * p) by (nonlinear_arith)
            requires
                pow10(n as nat) == 10 * p,
        ;
        assert((10 * acc) * p + d * p == acc2 * p) by (nonlinear_arith)
            requires
                acc2 == 10 * acc + d,
        ;
        assert(acc2 <= acc2 * p) by (nonlinear_arith)
            requires
                acc2 >= 0,
                p >= 1,
        ;
        assert(acc2 * p + digits_val(tail) <= i64::MAX);
        assert(fits_i64(acc2));
        assert(tail =~= input.subrange(pos, pos + n - 1));
        lemma_num_loop_run(input, pos + 1, acc2, n - 1);
    }
}

/// Reading a number from a run of digits followed by a non-digit returns
/// exactly the decimal value of the run, the sum of `di * 10^(n - i)` over
/// its digits `d1 .. dn`, consumes exactly the run, and leaves the
/// lookahead on the first non-digit. Values past the range of an `i64`
/// fault instead and are excluded here.
pub proof fn lemma_get_num_digit_run(input: Seq<u8>, pos: int, n: int)
    requires
        1 <= pos,
        1 <= n,
        pos + n <= input.len(),
        all_digits(input.subrange(pos - 1, pos - 1 + n)),
        !spec_is_digit(input[pos - 1 + n]),
        digits_val(input.subrange(pos - 1, pos - 1 + n)) <= i64::MAX,
    ensures
        spec_get_num(input, pos) == Ok::<(int, int), InterpError>(
            (digits_val(input.subrange(pos - 1, pos - 1 + n)), pos + n),
        ),
        cur(input, pos + n) == input[pos - 1 + n],
{
    let sub = input.subrange(pos - 1, pos - 1 + n);
    assert(cur(input, pos) == sub[0]);
    assert(spec_is_digit(sub[0]));
    lemma_digits_val_nonneg(sub);
    lemma_pow10_pos(n as nat);
    lemma_num_loop_run(input, pos, 0, n);
}

/// Storing a variable and reading it back returns exactly the stored value,
/// and no other variable's slot changes: `set_var` followed by `var` on the
/// same letter yields the stored value, while `var` on any other letter sees
/// the table as it was.
pub proof fn lemma_set_var_then_var(table: Seq<i64>, l: u8, m: u8, v: i64)
    requires
        table.len() == 26,
        UPPER_A <= l <= UPPER_Z,
        UPPER_A <= m <= UPPER_Z,
    ensures
        table.update(l - UPPER_A, v)[l - UPPER_A] == v,
        l != m ==> table.update(l - UPPER_A, v)[m - UPPER_A] == table[m - UPPER_A],
{
}

/// The output round trip: after a variable is set to `v`, the output
/// statement that names it computes exactly the decimal rendering of `v`
/// followed by one line terminator, and nothing else.
pub proof fn lemma_output_round_trip(input: Seq<u8>, pos: int, table: Seq<i64>, l: u8, v: i64)
    requires
        table.len() == 26,
        UPPER_A <= l <= UPPER_Z,
        1 <= pos,
        pos + 1 < input.len(),
        cur(input, pos) == BANG,
        spec_is_alpha(cur(input, pos + 1)),
        spec_to_upper(cur(input, pos + 1)) == l,
    ensures
        spec_output_stmt(input, pos, table.update(l - UPPER_A, v)) == Ok::<
            (Seq<u8>, int),
            InterpError,
        >((dec_repr(v as int).push(LF), pos + 2)),
{
}

/// An exhausted stream fails every parsing routine: once the lookahead is
/// the last byte of the input, a routine that must read one more byte
/// reports the end of the input, and no grammar routine returns a value.
pub proof fn lemma_exhausted_stream(input: Seq<u8>, c: u8, table: Seq<i64>)
    requires
        input.len() >= 1,
    ensures
        spec_factor(input, input.len() as int, table) is Err,
        spec_term(input, input.len() as int, table) is Err,
        spec_expression(input, input.len() as int, table) is Err,
        spec_assignment(input, input.len() as int, table) is Err,
        spec_input_stmt(input, input.len() as int, table) is Err,
        spec_output_stmt(input, input.len() as int, table) is Err,
        spec_read(input, input.len() as int) == Err::<int, InterpError>(
            InterpError::UnexpectedEndOfInput,
        ),
        cur(input, input.len() as int) == c ==> spec_match(input, input.len() as int, c) == Err::<
            int,
            InterpError,
        >(InterpError::UnexpectedEndOfInput),
        spec_is_alpha(cur(input, input.len() as int)) ==> spec_get_name(
            input,
            input.len() as int,
        ) == Err::<(u8, int), InterpError>(InterpError::UnexpectedEndOfInput),
        spec_is_digit(cur(input, input.len() as int)) ==> spec_get_num(
            input,
            input.len() as int,
        ) == Err::<(int, int), InterpError>(InterpError::UnexpectedEndOfInput),
{
}

} // verus!
