//! Decimal rendering and reading of integers, as text.

use vstd::prelude::*;

verus! {

/// The ASCII digit for `d` (meaningful for `d < 10`).
pub open spec fn digit_char(d: nat) -> char {
    (48 + d) as char
}

/// Whether `c` is one of the ASCII digits `0`..`9`.
pub open spec fn is_digit(c: char) -> bool {
    '0' <= c && c <= '9'
}

/// The value of an ASCII digit.
pub open spec fn digit_value(c: char) -> nat {
    (c as int - 48) as nat
}

/// Decimal rendering of a natural number, without sign or leading zeros.
pub open spec fn decimal(n: nat) -> Seq<char>
    decreases n,
{
    if n < 10 {
        seq![digit_char(n)]
    } else {
        decimal(n / 10).push(digit_char(n % 10))
    }
}

/// Decimal rendering of an integer: a `-` in front of negative values.
pub open spec fn decimal_int(i: int) -> Seq<char> {
    if i < 0 {
        seq!['-'] + decimal((-i) as nat)
    } else {
        decimal(i as nat)
    }
}

/// Every character of `s` is an ASCII digit.
pub open spec fn all_digits(s: Seq<char>) -> bool {
    forall|i: int| 0 <= i < s.len() ==> is_digit(#[trigger] s[i])
}

/// The number that a string of ASCII digits denotes in base ten.
pub open spec fn digits_value(s: Seq<char>) -> nat
    decreases s.len(),
{
    if s.len() == 0 {
        0
    } else {
        digits_value(s.drop_last()) * 10 + digit_value(s.last())
    }
}

/// What reading `s` as a non-negative `i32` written in ASCII digits gives:
/// `None` for an empty string, a character that is not a digit, or a value
/// above `i32::MAX`.
pub open spec fn parse_digits(s: Seq<char>) -> Option<int> {
    if s.len() > 0 && all_digits(s) && digits_value(s) <= i32::MAX {
        Some(digits_value(s) as int)
    } else {
        None
    }
}

/// The one-character string of the digit `d`.
fn digit_str(d: u64) -> (s: &'static str)
    requires
        d < 10,
    ensures
        s@ == seq![digit_char(d as nat)],
{
    proof {
        reveal_strlit("0");
        reveal_strlit("1");
        reveal_strlit("2");
        reveal_strlit("3");
        reveal_strlit("4");
        reveal_strlit("5");
        reveal_strlit("6");
        reveal_strlit("7");
        reveal_strlit("8");
        reveal_strlit("9");
    }
    if d == 0 {
        "0"
    } else if d == 1 {
        "1"
    } else if d == 2 {
        "2"
    } else if d == 3 {
        "3"
    } else if d == 4 {
        "4"
    } else if d == 5 {
        "5"
    } else if d == 6 {
        "6"
    } else if d == 7 {
        "7"
    } else if d == 8 {
        "8"
    } else {
        "9"
    }
}

/// Renders `n` in decimal.
pub fn format_u64(n: u64) -> (s: String)
    ensures
        s@ == decimal(n as nat),
    decreases n,
{
    if n < 10 {
        String::from_str(digit_str(n))
    } else {
        let mut s = format_u64(n / 10);
        s.append(digit_str(n % 10));
        s
    }
}

/// Renders `n` in decimal, with a leading `-` when it is negative.
pub fn format_i32(n: i32) -> (s: String)
    ensures
        s@ == decimal_int(n as int),
{
    if n < 0 {
        let magnitude: i64 = -(n as i64);
        let digits = format_u64(magnitude as u64);
        let mut s = String::from_str("-");
        proof {
            reveal_strlit("-");
        }
        s.append(digits.as_str());
        s
    } else {
        format_u64(n as u64)
    }
}

/// Reads a string of ASCII digits as an `i32`; `None` when `s` is empty,
/// holds anything else than ASCII digits, or denotes a value above `i32::MAX`.
pub fn parse_digits_i32(s: &str) -> (res: Option<i32>)
    ensures
        match res {
            Some(v) => parse_digits(s@) == Some(v as int),
            None => parse_digits(s@) is None,
        },
{
    let len = s.unicode_len();
    if len == 0 {
        return None;
    }
    // `acc` is the value read so far, held at `cap` once it exceeds `i32::MAX`.
    let cap: u64 = 2147483648;
    let mut acc: u64 = 0;
    let mut i: usize = 0;
    while i < len
        invariant
            len == s@.len(),
            0 <= i <= len,
            cap == i32::MAX + 1,
            all_digits(s@.take(i as int)),
            acc == if digits_value(s@.take(i as int)) < cap {
                digits_value(s@.take(i as int))
            } else {
                cap as nat
            },
        decreases len - i,
    {
        let c = s.get_char(i);
        if !('0' <= c && c <= '9') {
            assert(!all_digits(s@)) by {
                assert(!is_digit(s@[i as int]));
            }
            return None;
        }
        let d: u64 = (c as u32 - 48) as u64;
        proof {
            let t = s@.take(i as int + 1);
            assert(t.drop_last() =~= s@.take(i as int));
            assert(t.last() == c);
            assert(digits_value(t) == digits_value(s@.take(i as int)) * 10 + d);
            assert(all_digits(t)) by {
                assert forall|j: int| 0 <= j < t.len() implies is_digit(#[trigger] t[j]) by {
                    if j < i {
                        assert(t[j] == s@.take(i as int)[j]);
                    }
                }
            }
        }
        if acc * 10 + d >= cap {
            acc = cap;
        } else {
            acc = acc * 10 + d;
        }
        i = i + 1;
    }
    assert(s@.take(len as int) =~= s@);
    if acc < cap {
        Some(acc as i32)
    } else {
        None
    }
}

/// The decimal rendering of a number consists of digits and reads back as
/// that same number.
pub proof fn lemma_decimal_reads_back(n: nat)
    ensures
        decimal(n).len() > 0,
        all_digits(decimal(n)),
        digits_value(decimal(n)) == n,
    decreases n,
{
    if n >= 10 {
        lemma_decimal_reads_back(n / 10);
        let s = decimal(n / 10);
        let t = s.push(digit_char(n % 10));
        assert(t.drop_last() =~= s);
        assert(digit_value(digit_char(n % 10)) == n % 10);
        assert(digits_value(t) == digits_value(s) * 10 + n % 10);
        assert(decimal(n) == t);
        assert(n == (n / 10) * 10 + n % 10);
        assert forall|i: int| 0 <= i < t.len() implies is_digit(#[trigger] t[i]) by {
            if i < s.len() {
                assert(t[i] == s[i]);
            }
        }
    } else {
        let t = decimal(n);
        assert(t.drop_last() =~= Seq::<char>::empty());
        assert(digit_value(digit_char(n)) == n);
        assert(digits_value(t.drop_last()) == 0);
        assert(digits_value(t) == n);
    }
}

/// A number up to `i32::MAX` written in decimal is read back as itself, so
/// version numbers keep every digit.
pub proof fn lemma_parse_decimal(n: nat)
    requires
        n <= i32::MAX,
    ensures
        parse_digits(decimal(n)) == Some(n as int),
{
    lemma_decimal_reads_back(n);
}

} // verus!
