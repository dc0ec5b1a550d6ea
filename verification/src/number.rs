//! Reading decimal integers from text: an optional sign, then digits only.

use vstd::prelude::*;
use vstd::string::*;

verus! {

/// The character is one of `0` to `9`.
pub open spec fn is_digit(c: char) -> bool {
    '0' <= c <= '9'
}

/// The number that a digit stands for.
pub open spec fn digit_value(c: char) -> nat {
    (c as int - '0' as int) as nat
}

/// Every character of the text is a digit.
pub open spec fn all_digits(s: Seq<char>) -> bool {
    forall|i: int| 0 <= i < s.len() ==> is_digit(#[trigger] s[i])
}

/// The number that a run of digits stands for, read in base ten.
pub open spec fn digits_value(s: Seq<char>) -> nat
    decreases s.len(),
{
    if s.len() == 0 {
        0
    } else {
        digits_value(s.drop_last()) * 10 + digit_value(s.last())
    }
}

/// The number written by a text without a sign: at least one digit, and
/// digits only.
pub open spec fn unsigned_decimal(s: Seq<char>) -> Option<nat> {
    if s.len() > 0 && all_digits(s) {
        Some(digits_value(s))
    } else {
        None
    }
}

/// The number written by a text that may start with `+` or, if `signed`, with `-`.
pub open spec fn decimal(s: Seq<char>, signed: bool) -> Option<int> {
    if s.len() > 0 && s[0] == '+' {
        match unsigned_decimal(s.skip(1)) {
            Some(v) => Some(v as int),
            None => None,
        }
    } else if signed && s.len() > 0 && s[0] == '-' {
        match unsigned_decimal(s.skip(1)) {
            Some(v) => Some(-(v as int)),
            None => None,
        }
    } else {
        match unsigned_decimal(s) {
            Some(v) => Some(v as int),
            None => None,
        }
    }
}

/// The `i8` that a text writes, if it writes one.
pub open spec fn parsed_i8(s: Seq<char>) -> Option<i8> {
    match decimal(s, true) {
        Some(v) => if i8::MIN <= v <= i8::MAX {
            Some(v as i8)
        } else {
            None
        },
        None => None,
    }
}

/// The `u64` that a text writes, if it writes one.
pub open spec fn parsed_u64(s: Seq<char>) -> Option<u64> {
    match decimal(s, false) {
        Some(v) => if v <= u64::MAX {
            Some(v as u64)
        } else {
            None
        },
        None => None,
    }
}

/// A run of digits is worth at least as much as any of its prefixes.
pub proof fn lemma_digits_value_grows(s: Seq<char>, n: int)
    requires
        0 <= n <= s.len(),
    ensures
        digits_value(s.take(n)) <= digits_value(s),
    decreases s.len(),
{
    if n == s.len() {
        assert(s.take(n) =~= s);
    } else {
        assert(s.drop_last().take(n) =~= s.take(n));
        lemma_digits_value_grows(s.drop_last(), n);
    }
}

/// The digits of `s` from position `from` on, if they write a number that
/// is at most `limit`.
fn parse_digits(s: &str, from: usize, limit: u64) -> (r: Option<u64>)
    requires
        s.is_ascii(),
        from <= s@.len(),
        9 <= limit,
    ensures
        r == match unsigned_decimal(s@.skip(from as int)) {
            Some(v) => if v <= limit {
                Some(v as u64)
            } else {
                None
            },
            None => None,
        },
{
    let ghost text = s@.skip(from as int);
    let n = s.unicode_len();
    if from == n {
        return None;
    }
    let mut acc: u64 = 0;
    let mut i: usize = from;
    assert(text.take(0) =~= Seq::<char>::empty());
    while i < n
        invariant
            s.is_ascii(),
            from <= i <= n,
            n == s@.len(),
            9 <= limit,
            text == s@.skip(from as int),
            all_digits(text.take(i - from)),
            acc == digits_value(text.take(i - from)),
            acc <= limit,
        decreases n - i,
    {
        let c = s.get_ascii(i);
        assert(s@[i as int] == text[i - from]);
        if c < 48 || c > 57 {
            assert(!is_digit(text[i - from]));
            return None;
        }
        let d: u64 = (c - 48) as u64;
        proof {
            let next = text.take(i - from + 1);
            assert(next.drop_last() =~= text.take(i - from));
            assert(next.last() == text[i - from]);
            assert(digits_value(next) == acc * 10 + d);
            assert forall|k: int| 0 <= k < next.len() implies is_digit(#[trigger] next[k]) by {
                if k < i - from {
                    assert(text.take(i - from)[k] == next[k]);
                }
            }
        }
        if acc > (limit - d) / 10 {
            proof {
                lemma_digits_value_grows(text, i - from + 1);
            }
            return None;
        }
        acc = acc * 10 + d;
        i += 1;
    }
    assert(text.take(i - from) =~= text);
    Some(acc)
}

/// Reads an `i8` written in decimal: an optional `+` or `-`, then digits
/// only. Anything else, and a number out of range, gives `None`.
pub fn parse_i8(s: &str) -> (r: Option<i8>)
    ensures
        r == parsed_i8(s@),
{
    if !s.is_ascii() {
        proof {
            lemma_not_decimal(s@, true);
        }
        return None;
    }
    let n = s.unicode_len();
    if n > 0 && s.get_ascii(0) == 45 {
        match parse_digits(s, 1, 128) {
            Some(v) => {
                let m: i16 = 0 - (v as i16);
                Some(m as i8)
            },
            None => None,
        }
    } else if n > 0 && s.get_ascii(0) == 43 {
        match parse_digits(s, 1, 127) {
            Some(v) => Some(v as i8),
            None => None,
        }
    } else {
        assert(s@.skip(0) =~= s@);
        match parse_digits(s, 0, 127) {
            Some(v) => Some(v as i8),
            None => None,
        }
    }
}

/// Reads a `u64` written in decimal: an optional `+`, then digits only.
/// Anything else, and a number out of range, gives `None`.
pub fn parse_u64(s: &str) -> (r: Option<u64>)
    ensures
        r == parsed_u64(s@),
{
    if !s.is_ascii() {
        proof {
            lemma_not_decimal(s@, false);
        }
        return None;
    }
    let n = s.unicode_len();
    if n > 0 && s.get_ascii(0) == 43 {
        parse_digits(s, 1, u64::MAX)
    } else {
        assert(s@.skip(0) =~= s@);
        parse_digits(s, 0, u64::MAX)
    }
}

/// A text with a character outside ASCII writes no number.
pub proof fn lemma_not_decimal(s: Seq<char>, signed: bool)
    requires
        !vstd::utf8::is_ascii_chars(s),
    ensures
        decimal(s, signed) is None,
{
    let i = choose|i: int| 0 <= i < s.len() && !('\0' <= #[trigger] s[i] <= '\u{7f}');
    assert(!is_digit(s[i]));
    if i > 0 {
        assert(s.skip(1)[i - 1] == s[i]);
    }
}

} // verus!
