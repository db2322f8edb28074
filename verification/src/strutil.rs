//! Small string-building helpers shared by the lexer, the renderer
//! and the object model: appending single characters to a `String`
//! and printing integers in decimal.

use vstd::prelude::*;
use vstd::string::StringExecFns;

verus! {

/// Relies on String::push: appends exactly one character to the string.
#[verifier::external_body]
pub fn push_char(s: &mut String, c: char)
    ensures
        final(s)@ == old(s)@.push(c),
{
    s.push(c)
}

/// The decimal digit character for a value between 0 and 9.
pub open spec fn digit_char(d: int) -> char {
    ((48 + d) as u8) as char
}

/// The decimal digit characters of `n`, most significant first.
pub open spec fn dec_nat(n: nat) -> Seq<char>
    decreases n,
{
    if n < 10 {
        seq![digit_char(n as int)]
    } else {
        dec_nat(n / 10).push(digit_char((n % 10) as int))
    }
}

/// The decimal rendering of a signed value: a minus sign for negative
/// values, then the digits of the absolute value.
pub open spec fn dec_int(v: int) -> Seq<char> {
    if v < 0 {
        seq!['-'] + dec_nat((-v) as nat)
    } else {
        dec_nat(v as nat)
    }
}

/// Writes `n` in decimal.
pub fn u64_to_string(n: u64) -> (s: String)
    ensures
        s@ == dec_nat(n as nat),
{
    let mut digits: Vec<char> = Vec::new();
    let mut m: u64 = n;
    proof {
        assert(dec_nat(n as nat) =~= dec_nat(n as nat) + digits@.reverse());
    }
    while m >= 10
        invariant
            dec_nat(n as nat) == dec_nat(m as nat) + digits@.reverse(),
        decreases m,
    {
        let ghost prev = digits@;
        let d: u64 = m % 10;
        digits.push((48 + d as u8) as char);
        proof {
            assert(digits@.reverse() =~= seq![digit_char(d as int)] + prev.reverse());
            assert(dec_nat(m as nat) + prev.reverse() =~= dec_nat((m / 10) as nat) + digits@.reverse());
        }
        m = m / 10;
    }
    let mut s = String::new();
    push_char(&mut s, (48 + (m as u8)) as char);
    let mut i: usize = digits.len();
    proof {
        assert(digits@.subrange(0, i as int) =~= digits@);
        assert(s@ + digits@.subrange(0, i as int).reverse() =~= dec_nat(n as nat));
    }
    while i > 0
        invariant
            i <= digits@.len(),
            s@ + digits@.subrange(0, i as int).reverse() == dec_nat(n as nat),
        decreases i,
    {
        i = i - 1;
        let c = digits[i];
        push_char(&mut s, c);
        proof {
            assert(digits@.subrange(0, i + 1).reverse() =~= seq![digits@[i as int]] + digits@.subrange(0, i as int).reverse());
            assert(s@ + digits@.subrange(0, i as int).reverse() =~= dec_nat(n as nat));
        }
    }
    proof {
        assert(digits@.subrange(0, 0).reverse() =~= Seq::<char>::empty());
        assert(s@ =~= dec_nat(n as nat));
    }
    s
}

/// Writes `v` in decimal, with a leading minus sign when negative.
pub fn i64_to_string(v: i64) -> (s: String)
    ensures
        s@ == dec_int(v as int),
{
    if v >= 0 {
        u64_to_string(v as u64)
    } else {
        let mag: u64 = (-(v as i128)) as u64;
        let mut s = String::new();
        push_char(&mut s, '-');
        let digits = u64_to_string(mag);
        s.append(digits.as_str());
        proof {
            assert(s@ =~= dec_int(v as int));
        }
        s
    }
}

} // verus!
