//! Decimal rendering of integers as text, used by the clock and status
//! formatting and by validation error messages.

use vstd::prelude::*;

verus! {

/// The character for a single decimal digit value.
pub open spec fn digit_char(d: int) -> char {
    if d == 0 {
        '0'
    } else if d == 1 {
        '1'
    } else if d == 2 {
        '2'
    } else if d == 3 {
        '3'
    } else if d == 4 {
        '4'
    } else if d == 5 {
        '5'
    } else if d == 6 {
        '6'
    } else if d == 7 {
        '7'
    } else if d == 8 {
        '8'
    } else {
        '9'
    }
}

/// The decimal digits of a non-negative integer, most significant first,
/// with no leading zeros (a lone `0` for zero).
pub open spec fn spec_decimal(n: nat) -> Seq<char>
    decreases n,
{
    if n < 10 {
        seq![digit_char(n as int)]
    } else {
        spec_decimal(n / 10) + seq![digit_char((n % 10) as int)]
    }
}

/// The decimal rendering of any integer: a `-` sign followed by the digits
/// of its magnitude when negative, the digits alone otherwise.
pub open spec fn spec_signed_decimal(v: int) -> Seq<char> {
    if v < 0 {
        seq!['-'] + spec_decimal((-v) as nat)
    } else {
        spec_decimal(v as nat)
    }
}

/// A single decimal digit as a string slice.
pub(crate) fn digit_str(d: u32) -> (r: &'static str)
    requires
        d < 10,
    ensures
        r@ == seq![digit_char(d as int)],
{
    let s = if d == 0 {
        "0"
    } else if d == 1 {
        "1"
    } else if d == 2 {
        "2"
    } else if d == 3 {
        "3"
    } else if d == 4 {
        "4"
    } else if d == 5 {
        "5"
    } else if d == 6 {
        "6"
    } else if d == 7 {
        "7"
    } else if d == 8 {
        "8"
    } else {
        "9"
    };
    proof {
        reveal_strlit("0");
        reveal_strlit("1");
        reveal_strlit("2");
        reveal_strlit("3");
        reveal_strlit("4");
        reveal_strlit("5");
        reveal_strlit("6");
        reveal_strlit("7");
        reveal_strlit("8");
        reveal_strlit("9");
        assert(s@ =~= seq![digit_char(d as int)]);
    }
    s
}

/// A two-digit zero-padded rendering of a value below one hundred.
pub open spec fn spec_two_digits(n: int) -> Seq<char> {
    seq![digit_char(n / 10), digit_char(n % 10)]
}

/// A value below one hundred rendered as exactly two digits, zero-padded.
pub fn two_digit_string(n: u32) -> (r: String)
    requires
        n < 100,
    ensures
        r@ == spec_two_digits(n as int),
{
    let r = String::from_str(digit_str(n / 10)).concat(digit_str(n % 10));
    proof {
        assert(r@ =~= spec_two_digits(n as int));
    }
    r
}

/// A non-negative integer rendered in decimal.
pub fn u64_to_string(n: u64) -> (r: String)
    ensures
        r@ == spec_decimal(n as nat),
    decreases n,
{
    if n < 10 {
        String::from_str(digit_str(n as u32))
    } else {
        let r = u64_to_string(n / 10).concat(digit_str((n % 10) as u32));
        proof {
            assert(r@ =~= spec_decimal(n as nat));
        }
        r
    }
}

/// Any 32-bit integer rendered in decimal, with a leading `-` when negative.
pub fn i32_to_string(v: i32) -> (r: String)
    ensures
        r@ == spec_signed_decimal(v as int),
{
    if v < 0 {
        let magnitude: u64 = (-(v as i64)) as u64;
        let r = String::from_str("-").concat(u64_to_string(magnitude).as_str());
        proof {
            reveal_strlit("-");
            assert(r@ =~= spec_signed_decimal(v as int));
        }
        r
    } else {
        u64_to_string(v as u64)
    }
}

/// A name wrapped in double quotes.
pub open spec fn quoted(name: Seq<char>) -> Seq<char> {
    seq!['"'] + name + seq!['"']
}

/// The quoted names joined with `, `, without the surrounding brackets.
pub open spec fn quoted_list_inner(names: Seq<Seq<char>>) -> Seq<char>
    decreases names.len(),
{
    if names.len() == 0 {
        Seq::empty()
    } else if names.len() == 1 {
        quoted(names[0])
    } else {
        quoted_list_inner(names.drop_last()) + ", "@ + quoted(names.last())
    }
}

/// A bracketed, comma-separated list of quoted names, such as a list of
/// weekday names in a validation error.
pub open spec fn quoted_list(names: Seq<Seq<char>>) -> Seq<char> {
    seq!['['] + quoted_list_inner(names) + seq![']']
}

/// Renders a list of names as a bracketed, comma-separated list of quoted
/// entries.
pub fn quoted_list_string(names: &Vec<String>) -> (r: String)
    ensures
        r@ == quoted_list(names@.map_values(|s: String| s@)),
{
    let ghost vs = names@.map_values(|s: String| s@);
    let mut s = String::from_str("[");
    proof {
        reveal_strlit("[");
        assert(s@ =~= seq!['['] + quoted_list_inner(vs.take(0)));
    }
    let mut j: usize = 0;
    while j < names.len()
        invariant
            j <= names.len(),
            vs == names@.map_values(|s: String| s@),
            s@ == seq!['['] + quoted_list_inner(vs.take(j as int)),
        decreases names.len() - j,
    {
        if j > 0 {
            s.append(", ");
        }
        s.append("\"");
        s.append(names[j].as_str());
        s.append("\"");
        proof {
            reveal_strlit(", ");
            reveal_strlit("\"");
            assert(vs.take(j + 1 as int).drop_last() =~= vs.take(j as int));
            assert(vs.take(j + 1 as int).last() == vs[j as int]);
            assert(s@ =~= seq!['['] + quoted_list_inner(vs.take(j + 1 as int)));
        }
        j += 1;
    }
    proof {
        assert(vs.take(names@.len() as int) =~= vs);
    }
    s.append("]");
    proof {
        reveal_strlit("]");
        assert(s@ =~= quoted_list(vs));
    }
    s
}

/// Relies on str's `PartialEq`: two string slices are equal exactly when
/// their character sequences are.
#[verifier::external_body]
pub(crate) fn str_eq(a: &str, b: &str) -> (r: bool)
    ensures
        r == (a@ == b@),
{
    a == b
}

} // verus!
