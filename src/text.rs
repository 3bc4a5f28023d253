//! Decimal text of integers.
use vstd::prelude::*;
use vstd::string::StrSliceExecFns;
use crate::model::{decimal, int_text};

verus! {

/// Relies on `String::push`: the character is appended at the end.
#[verifier::external_body]
pub(crate) fn push_char(s: &mut String, c: char)
    ensures
        final(s)@ == old(s)@.push(c),
{
    s.push(c)
}

/// Appends the decimal digits of `n`.
fn write_decimal(out: &mut String, n: u128)
    ensures
        final(out)@ == old(out)@ + decimal(n as nat),
    decreases n,
{
    if n >= 10 {
        write_decimal(out, n / 10);
    }
    let digits = "0123456789";
    proof {
        reveal_strlit("0123456789");
    }
    let c = digits.get_char((n % 10) as usize);
    assert(digits@ =~= seq!['0', '1', '2', '3', '4', '5', '6', '7', '8', '9']);
    push_char(out, c);
    proof {
        if n >= 10 {
            assert(out@ =~= old(out)@ + decimal(n as nat));
        } else {
            assert(out@ =~= old(out)@ + decimal(n as nat));
        }
    }
}

/// The decimal text of an unsigned integer.
pub fn unsigned_text(n: u128) -> (r: String)
    ensures
        r@ == int_text(n as int),
{
    let mut r = String::new();
    write_decimal(&mut r, n);
    assert(r@ =~= int_text(n as int));
    r
}

/// The decimal text of a signed integer.
pub fn signed_text(n: i128) -> (r: String)
    ensures
        r@ == int_text(n as int),
{
    let mut r = String::new();
    if n < 0 {
        push_char(&mut r, '-');
        let m: u128 = (-(n + 1)) as u128 + 1;
        write_decimal(&mut r, m);
        assert(r@ =~= int_text(n as int));
    } else {
        write_decimal(&mut r, n as u128);
        assert(r@ =~= int_text(n as int));
    }
    r
}

} // verus!
