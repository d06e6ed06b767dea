//! Decimal rendering of the indices shown by the listing operation.

use vstd::prelude::*;
use vstd::string::StringExecFns;

verus! {

/// The character for a single decimal digit.
pub open spec fn digit_char(d: nat) -> char {
    if d == 0 {
        '0'
    } else if d == 1 {
        '1'
    } else if d == 2 {
        '2'
    } else if d == 3 {
        '3'
    } else if d == 4 {
        '4'
    } else if d == 5 {
        '5'
    } else if d == 6 {
        '6'
    } else if d == 7 {
        '7'
    } else if d == 8 {
        '8'
    } else {
        '9'
    }
}

/// The usual decimal notation of `n`: no sign, no leading zero except for
/// `0` itself.
pub open spec fn dec_digits(n: nat) -> Seq<char>
    decreases n,
{
    if n < 10 {
        seq![digit_char(n)]
    } else {
        dec_digits(n / 10) + seq![digit_char(n % 10)]
    }
}

/// The one-character string for a single decimal digit.
fn digit_str(d: usize) -> (r: &'static str)
    requires
        d < 10,
    ensures
        r@ == seq![digit_char(d as nat)],
{
    proof {
        reveal_strlit("0");
        reveal_strlit("1");
        reveal_strlit("2");
        reveal_strlit("3");
        reveal_strlit("4");
        reveal_strlit("5");
        reveal_strlit("6");
        reveal_strlit("7");
        reveal_strlit("8");
        reveal_strlit("9");
    }
    let r: &'static str = if d == 0 {
        "0"
    } else if d == 1 {
        "1"
    } else if d == 2 {
        "2"
    } else if d == 3 {
        "3"
    } else if d == 4 {
        "4"
    } else if d == 5 {
        "5"
    } else if d == 6 {
        "6"
    } else if d == 7 {
        "7"
    } else if d == 8 {
        "8"
    } else {
        "9"
    };
    proof {
        assert(r@ =~= seq![digit_char(d as nat)]);
    }
    r
}

/// The low-order digits collected so far, highest first once reversed: the
/// characters that the digits of `ds` contribute, last digit first.
spec fn rev_digit_chars(ds: Seq<usize>) -> Seq<char>
    decreases ds.len(),
{
    if ds.len() == 0 {
        Seq::empty()
    } else {
        seq![digit_char(ds.last() as nat)] + rev_digit_chars(ds.drop_last())
    }
}

/// Renders `n` in decimal notation.
pub fn usize_to_string(n: usize) -> (r: String)
    ensures
        r@ == dec_digits(n as nat),
{
    let mut low_digits: Vec<usize> = Vec::new();
    let mut m = n;
    while m >= 10
        invariant
            dec_digits(n as nat) =~= dec_digits(m as nat) + rev_digit_chars(low_digits@),
            forall|i: int| 0 <= i < low_digits@.len() ==> low_digits@[i] < 10,
        decreases m,
    {
        let ghost prev = low_digits@;
        let d = m % 10;
        low_digits.push(d);
        m = m / 10;
        proof {
            assert(low_digits@.last() == d);
            assert(low_digits@.drop_last() =~= prev);
            assert(rev_digit_chars(low_digits@) =~= seq![digit_char(d as nat)]
                + rev_digit_chars(prev));
        }
    }
    let mut r = String::from_str(digit_str(m));
    while low_digits.len() > 0
        invariant
            r@ + rev_digit_chars(low_digits@) =~= dec_digits(n as nat),
            forall|i: int| 0 <= i < low_digits@.len() ==> low_digits@[i] < 10,
        decreases low_digits.len(),
    {
        let ghost before = low_digits@;
        let d = low_digits.pop().unwrap();
        proof {
            assert(before.last() == d);
            assert(low_digits@ =~= before.drop_last());
        }
        r.append(digit_str(d));
    }
    proof {
        assert(r@ =~= r@ + rev_digit_chars(low_digits@));
    }
    r
}

} // verus!
