//! Text helpers: UTF-8 validation of payload bytes, and the decimal
//! rendering of integers used in error messages and identifiers.

use vstd::prelude::*;
use vstd::utf8::valid_utf8;
use vstd::string::{StringSliceAdditionalSpecFns, StringExecFns};

verus! {

/// Calls `std::str::from_utf8`. Trusted: by std's documentation it succeeds
/// exactly when the bytes are valid UTF-8, and the string it returns is
/// those same bytes.
#[verifier::external_body]
pub(crate) fn str_from_utf8<'a>(bytes: &'a [u8]) -> (r: Option<&'a str>)
    ensures
        r is Some <==> valid_utf8(bytes@),
        r matches Some(s) ==> s.spec_bytes() == bytes@,
{
    std::str::from_utf8(bytes).ok()
}

/// The character of a decimal digit.
pub open spec fn digit_char(d: nat) -> char {
    if d == 0 {
        '0'
    } else if d == 1 {
        '1'
    } else if d == 2 {
        '2'
    } else if d == 3 {
        '3'
    } else if d == 4 {
        '4'
    } else if d == 5 {
        '5'
    } else if d == 6 {
        '6'
    } else if d == 7 {
        '7'
    } else if d == 8 {
        '8'
    } else {
        '9'
    }
}

/// The decimal digits of a natural number, most significant first, with no
/// sign and no leading zero (zero itself is the single digit `0`).
pub open spec fn decimal(n: nat) -> Seq<char>
    decreases n,
{
    if n < 10 {
        seq![digit_char(n)]
    } else {
        decimal(n / 10).push(digit_char(n % 10))
    }
}

/// The one-character text of a decimal digit.
fn digit_str(d: u64) -> (s: &'static str)
    requires
        d < 10,
    ensures
        s@ == seq![digit_char(d as nat)],
{
    if d == 0 {
        proof { reveal_strlit("0"); }
        "0"
    } else if d == 1 {
        proof { reveal_strlit("1"); }
        "1"
    } else if d == 2 {
        proof { reveal_strlit("2"); }
        "2"
    } else if d == 3 {
        proof { reveal_strlit("3"); }
        "3"
    } else if d == 4 {
        proof { reveal_strlit("4"); }
        "4"
    } else if d == 5 {
        proof { reveal_strlit("5"); }
        "5"
    } else if d == 6 {
        proof { reveal_strlit("6"); }
        "6"
    } else if d == 7 {
        proof { reveal_strlit("7"); }
        "7"
    } else if d == 8 {
        proof { reveal_strlit("8"); }
        "8"
    } else {
        proof { reveal_strlit("9"); }
        "9"
    }
}

/// The decimal digits of a number, or no digit for zero.
spec fn digits_or_none(m: nat) -> Seq<char> {
    if m == 0 {
        Seq::empty()
    } else {
        decimal(m)
    }
}

/// Renders an unsigned integer in decimal: its digits, most significant
/// first, with no sign and no leading zero.
pub fn decimal_string(n: u64) -> (s: String)
    ensures
        s@ == decimal(n as nat),
{
    if n == 0 {
        let s = String::from_str(digit_str(0));
        return s;
    }
    let mut s = String::new();
    let mut m: u64 = n;
    while m > 0
        invariant
            decimal(n as nat) == digits_or_none(m as nat) + s@,
        decreases m,
    {
        let d = m % 10;
        let digit = String::from_str(digit_str(d));
        let ghost old_s = s@;
        s = digit.concat(s.as_str());
        proof {
            if m >= 10 {
                assert(decimal(m as nat) == decimal((m / 10) as nat).push(digit_char((m % 10) as nat)));
                assert(decimal((m / 10) as nat).push(digit_char((m % 10) as nat)) + old_s
                    =~= decimal((m / 10) as nat) + s@);
            } else {
                assert(m % 10 == m);
                assert(seq![digit_char(m as nat)] + old_s =~= s@);
            }
        }
        m = m / 10;
    }
    proof {
        assert(s@ =~= Seq::<char>::empty() + s@);
    }
    s
}

} // verus!
