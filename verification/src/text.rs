//! Small text helpers shared by the lexer and the evaluator: building a
//! `String` from collected characters, the Unicode alphabetic test, and a
//! verified decimal renderer for the assembly side channel's register indices.

use vstd::prelude::*;
use vstd::string::StringExecFns;

verus! {

/// Whether a character counts as alphabetic (Unicode `Alphabetic`).  The
/// result of `char::is_alphabetic` depends on the character alone.
pub uninterp spec fn alpha_char(c: char) -> bool;

/// Relies on `char::is_alphabetic`: whether the character has the Unicode
/// `Alphabetic` property; the result depends on the character alone.
pub assume_specification[ char::is_alphabetic ](c: char) -> (r: bool)
    ensures
        r == alpha_char(c),
;

/// Relies on `String::from_iter` (via `collect`): the returned string holds
/// exactly the given characters, in order.
#[verifier::external_body]
pub fn string_from_chars(chars: Vec<char>) -> (s: String)
    ensures
        s@ == chars@,
{
    chars.into_iter().collect()
}

/// The decimal digit character for a value below ten.
pub open spec fn digit_char(n: int) -> char {
    if n == 0 {
        '0'
    } else if n == 1 {
        '1'
    } else if n == 2 {
        '2'
    } else if n == 3 {
        '3'
    } else if n == 4 {
        '4'
    } else if n == 5 {
        '5'
    } else if n == 6 {
        '6'
    } else if n == 7 {
        '7'
    } else if n == 8 {
        '8'
    } else {
        '9'
    }
}

/// The decimal digit sequence of a non-negative integer, most significant
/// digit first, with no leading zeros (a lone `0` for zero).
pub open spec fn nat_text(n: nat) -> Seq<char>
    decreases n,
{
    if n < 10 {
        seq![digit_char(n as int)]
    } else {
        nat_text(n / 10).push(digit_char((n % 10) as int))
    }
}

/// The decimal text of an integer: a `-` sign followed by the digits for a
/// negative value, the bare digits otherwise.
pub open spec fn int_text(i: int) -> Seq<char> {
    if i < 0 {
        seq!['-'].add(nat_text((-i) as nat))
    } else {
        nat_text(i as nat)
    }
}

fn digit_of(n: u128) -> (c: char)
    requires
        n < 10,
    ensures
        c == digit_char(n as int),
{
    if n == 0 {
        '0'
    } else if n == 1 {
        '1'
    } else if n == 2 {
        '2'
    } else if n == 3 {
        '3'
    } else if n == 4 {
        '4'
    } else if n == 5 {
        '5'
    } else if n == 6 {
        '6'
    } else if n == 7 {
        '7'
    } else if n == 8 {
        '8'
    } else {
        '9'
    }
}

/// Renders a non-negative value in decimal.
fn nat_string(n: u128) -> (s: String)
    ensures
        s@ == nat_text(n as nat),
{
    let mut ds: Vec<char> = Vec::new();
    let d = digit_of(n % 10);
    ds.insert(0, d);
    let mut rest = n / 10;
    proof {
        assert(nat_text(n as nat) =~= (if rest > 0 {
            nat_text(rest as nat)
        } else {
            Seq::<char>::empty()
        }).add(ds@));
    }
    while rest > 0
        invariant
            nat_text(n as nat) =~= (if rest > 0 {
                nat_text(rest as nat)
            } else {
                Seq::<char>::empty()
            }).add(ds@),
        decreases rest,
    {
        let d = digit_of(rest % 10);
        ds.insert(0, d);
        proof {
            if rest >= 10 {
                assert(nat_text(rest as nat) == nat_text(rest as nat / 10).push(
                    digit_char((rest % 10) as int),
                ));
            }
            assert(nat_text(rest as nat) =~= (if rest / 10 > 0 {
                nat_text((rest / 10) as nat)
            } else {
                Seq::<char>::empty()
            }).add(seq![digit_char((rest % 10) as int)]));
        }
        rest = rest / 10;
        proof {
            assert(nat_text(n as nat) =~= (if rest > 0 {
                nat_text(rest as nat)
            } else {
                Seq::<char>::empty()
            }).add(ds@));
        }
    }
    proof {
        assert(ds@ =~= nat_text(n as nat));
    }
    string_from_chars(ds)
}

/// Renders an integer in decimal, with a leading `-` for negative values.
pub fn decimal_text(i: i128) -> (s: String)
    requires
        i != i128::MIN,
    ensures
        s@ == int_text(i as int),
{
    if i < 0 {
        let mag = nat_string((-i) as u128);
        let s = String::from_str("-").concat(mag.as_str());
        proof {
            reveal_strlit("-");
            assert(s@ =~= int_text(i as int));
        }
        s
    } else {
        nat_string(i as u128)
    }
}

} // verus!
