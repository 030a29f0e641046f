//! Small verified helpers for building strings: single characters, runs of
//! one character, and decimal renderings of unsigned numbers.

use vstd::prelude::*;

verus! {

/// The decimal digit character for `d`.
pub open spec fn digit_char(d: int) -> char
    recommends
        0 <= d <= 9,
{
    ((d + 48) as u8) as char
}

/// The decimal digits of `n`, most significant first.
pub open spec fn dec_digits(n: int) -> Seq<char>
    recommends
        n >= 0,
    decreases n,
{
    if n < 10 {
        seq![digit_char(n)]
    } else {
        dec_digits(n / 10).push(digit_char(n % 10))
    }
}

/// `count` copies of `c`.
pub open spec fn repeated(c: char, count: int) -> Seq<char> {
    Seq::new(count as nat, |i: int| c)
}

/// Relies on std's `String::push`: appends exactly the given character.
#[verifier::external_body]
pub(crate) fn push_char(s: &mut String, c: char)
    ensures
        final(s)@ == old(s)@.push(c),
{
    s.push(c);
}

/// The character for decimal digit `d`.
fn ascii_digit(d: usize) -> (c: char)
    requires
        d <= 9,
    ensures
        c == digit_char(d as int),
{
    (48 + d as u8) as char
}

/// Append the decimal rendering of `n` to `s`.
pub fn push_decimal(s: &mut String, n: usize)
    ensures
        final(s)@ == old(s)@ + dec_digits(n as int),
    decreases n,
{
    if n < 10 {
        let c = ascii_digit(n);
        push_char(s, c);
        proof {
            assert(s@ =~= old(s)@ + dec_digits(n as int));
        }
    } else {
        push_decimal(s, n / 10);
        let c = ascii_digit(n % 10);
        push_char(s, c);
        proof {
            assert(s@ =~= old(s)@ + dec_digits(n as int));
        }
    }
}

/// Append `count` copies of `c` to `s`.
pub fn push_repeated(s: &mut String, c: char, count: usize)
    ensures
        final(s)@ == old(s)@ + repeated(c, count as int),
{
    let mut i: usize = 0;
    proof {
        assert(s@ =~= old(s)@ + repeated(c, 0int));
    }
    while i < count
        invariant
            i <= count,
            s@ == old(s)@ + repeated(c, i as int),
        decreases count - i,
    {
        push_char(s, c);
        i = i + 1;
        proof {
            assert(s@ =~= old(s)@ + repeated(c, i as int));
        }
    }
    proof {
        assert(s@ =~= old(s)@ + repeated(c, count as int));
    }
}

} // verus!
