//! Decimal formatting of unsigned integers, character by character,
//! with the digit sequence pinned in the contracts.

use vstd::prelude::*;

verus! {

/// The character of one decimal digit.
pub open spec fn spec_digit_char(d: int) -> char {
    if d == 0 {
        '0'
    } else if d == 1 {
        '1'
    } else if d == 2 {
        '2'
    } else if d == 3 {
        '3'
    } else if d == 4 {
        '4'
    } else if d == 5 {
        '5'
    } else if d == 6 {
        '6'
    } else if d == 7 {
        '7'
    } else if d == 8 {
        '8'
    } else {
        '9'
    }
}

/// The decimal digit characters of a non-negative integer, most
/// significant first, with no leading zeros (zero itself is "0").
pub open spec fn spec_u64_chars(n: int) -> Seq<char>
    decreases n,
{
    if n < 10 {
        seq![spec_digit_char(n)]
    } else {
        spec_u64_chars(n / 10).push(spec_digit_char(n % 10))
    }
}

/// Append one decimal digit character to a string.
pub fn append_digit(s: &mut String, d: u64)
    requires
        d < 10,
    ensures
        final(s)@ == old(s)@.push(spec_digit_char(d as int)),
{
    if d == 0 {
        proof {
            reveal_strlit("0");
        }
        s.append("0");
    } else if d == 1 {
        proof {
            reveal_strlit("1");
        }
        s.append("1");
    } else if d == 2 {
        proof {
            reveal_strlit("2");
        }
        s.append("2");
    } else if d == 3 {
        proof {
            reveal_strlit("3");
        }
        s.append("3");
    } else if d == 4 {
        proof {
            reveal_strlit("4");
        }
        s.append("4");
    } else if d == 5 {
        proof {
            reveal_strlit("5");
        }
        s.append("5");
    } else if d == 6 {
        proof {
            reveal_strlit("6");
        }
        s.append("6");
    } else if d == 7 {
        proof {
            reveal_strlit("7");
        }
        s.append("7");
    } else if d == 8 {
        proof {
            reveal_strlit("8");
        }
        s.append("8");
    } else {
        proof {
            reveal_strlit("9");
        }
        s.append("9");
    }
    proof {
        assert(s@ =~= old(s)@.push(spec_digit_char(d as int)));
    }
}

/// Append the decimal digits of `n` to a string.
pub fn append_u64(s: &mut String, n: u64)
    ensures
        final(s)@ == old(s)@ + spec_u64_chars(n as int),
    decreases n,
{
    if n < 10 {
        append_digit(s, n);
        proof {
            assert(s@ =~= old(s)@ + spec_u64_chars(n as int));
        }
    } else {
        append_u64(s, n / 10);
        append_digit(s, n % 10);
        proof {
            assert(s@ =~= old(s)@ + spec_u64_chars(n as int));
        }
    }
}

/// The decimal digits of `n` as a fresh string.
pub fn u64_to_string(n: u64) -> (r: String)
    ensures
        r@ == spec_u64_chars(n as int),
{
    let mut s: String = String::new();
    append_u64(&mut s, n);
    proof {
        assert(s@ =~= spec_u64_chars(n as int));
    }
    s
}

/// The decimal text of a signed integer: a minus sign for negative
/// values, then the digits of the magnitude.
pub open spec fn spec_i64_chars(n: int) -> Seq<char> {
    if n < 0 {
        seq!['-'] + spec_u64_chars(-n)
    } else {
        spec_u64_chars(n)
    }
}

/// Append the decimal text of a signed integer to a string.
pub fn append_i64(s: &mut String, n: i64)
    ensures
        final(s)@ == old(s)@ + spec_i64_chars(n as int),
{
    if n < 0 {
        proof {
            reveal_strlit("-");
        }
        s.append("-");
        let magnitude: u64 = (-(n as i128)) as u64;
        append_u64(s, magnitude);
        proof {
            assert(s@ =~= old(s)@ + spec_i64_chars(n as int));
        }
    } else {
        append_u64(s, n as u64);
    }
}

/// Whether a string equals a string slice, character for character.
pub fn string_eq_str(a: &String, b: &str) -> (r: bool)
    ensures
        r == (a@ == b@),
{
    let a_str: &str = a.as_str();
    let a_len: usize = a_str.unicode_len();
    let b_len: usize = b.unicode_len();
    if a_len != b_len {
        return false;
    }
    let mut i: usize = 0;
    while i < a_len
        invariant
            0 <= i <= a_len,
            a_len == a@.len() == b@.len(),
            a_str@ == a@,
            forall|j: int| 0 <= j < i ==> a@[j] == b@[j],
        decreases a_len - i,
    {
        if a_str.get_char(i) != b.get_char(i) {
            return false;
        }
        i = i + 1;
    }
    proof {
        assert(a@ =~= b@);
    }
    true
}

} // verus!
