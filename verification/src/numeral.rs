//! Decimal rendering of integers: the specification of a base-10 numeral and
//! a verified printer for it, used by the output statement.

use vstd::prelude::*;

use crate::semantics::DIGIT_0;
use crate::semantics::MINUS;

verus! {

/// The decimal digits of a non-negative integer, most significant first:
/// `0` renders as `"0"`, larger values with no leading zero.
pub open spec fn dec_digits(n: int) -> Seq<u8>
    decreases n,
{
    if n < 10 {
        seq![(DIGIT_0 + n) as u8]
    } else {
        dec_digits(n / 10).push((DIGIT_0 + n % 10) as u8)
    }
}

/// The decimal rendering of an integer: a `'-'` sign and the digits of the
/// magnitude for negative values, the digits alone otherwise.
pub open spec fn dec_repr(v: int) -> Seq<u8> {
    if v < 0 {
        seq![MINUS] + dec_digits(-v)
    } else {
        dec_digits(v)
    }
}

/// Renders a value in decimal, exactly as `dec_repr` states it.
pub fn int_to_decimal(v: i64) -> (r: Vec<u8>)
    ensures
        r@ == dec_repr(v as int),
{
    let mut out: Vec<u8> = Vec::new();
    let mut m: u64 = if v >= 0 {
        v as u64
    } else {
        out.push(MINUS);
        // The magnitude of `v`, computed without negating `i64::MIN` itself.
        ((-(v + 1)) as u64) + 1
    };
    assert(m == if v < 0 { -(v as int) } else { v as int });
    let ghost n0: int = m as int;
    if m == 0 {
        out.push(DIGIT_0);
        assert(out@ =~= dec_repr(v as int));
        return out;
    }
    let ghost base: Seq<u8> = out@;
    let mut rev: Vec<u8> = Vec::new();
    while m > 0
        invariant
            0 <= m,
            0 < n0,
            m > 0 ==> dec_digits(n0) == dec_digits(m as int) + rev@.reverse(),
            m == 0 ==> dec_digits(n0) == rev@.reverse(),
        decreases m,
    {
        let d: u8 = (m % 10) as u8 + DIGIT_0;
        proof {
            let mi = m as int;
            if mi < 10 {
                assert(dec_digits(mi) =~= seq![d]);
                assert((rev@.push(d)).reverse() =~= seq![d] + rev@.reverse());
                assert(dec_digits(mi) + rev@.reverse() =~= (rev@.push(d)).reverse());
            } else {
                assert(dec_digits(mi) == dec_digits(mi / 10).push(d));
                assert(dec_digits(mi / 10).push(d) + rev@.reverse() =~= dec_digits(mi / 10)
                    + (rev@.push(d)).reverse());
            }
        }
        rev.push(d);
        m = m / 10;
    }
    let mut i: usize = rev.len();
    while i > 0
        invariant
            i <= rev.len(),
            out@ == base + rev@.skip(i as int).reverse(),
        decreases i,
    {
        i = i - 1;
        out.push(rev[i]);
        proof {
            assert(rev@.skip(i as int).reverse() =~= rev@.skip(i + 1).reverse().push(rev@[i as int]));
        }
    }
    proof {
        assert(rev@.skip(0).reverse() =~= rev@.reverse());
        assert(out@ =~= dec_repr(v as int));
    }
    out
}

} // verus!
