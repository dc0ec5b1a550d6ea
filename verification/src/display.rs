//! The text of a stat vector, of a piece, and of a report.

use vstd::prelude::*;
use vstd::string::*;
use crate::record::Record;
use crate::stats::Stats;

verus! {

/// The character of a digit.
pub open spec fn digit_char(d: nat) -> char {
    if d == 0 {
        '0'
    } else if d == 1 {
        '1'
    } else if d == 2 {
        '2'
    } else if d == 3 {
        '3'
    } else if d == 4 {
        '4'
    } else if d == 5 {
        '5'
    } else if d == 6 {
        '6'
    } else if d == 7 {
        '7'
    } else if d == 8 {
        '8'
    } else {
        '9'
    }
}

/// A natural number in decimal, without leading zeros.
pub open spec fn decimal_text(n: nat) -> Seq<char>
    decreases n,
{
    if n < 10 {
        seq![digit_char(n)]
    } else {
        decimal_text(n / 10).push(digit_char(n % 10))
    }
}

/// An integer in decimal, with `-` before a negative one.
pub open spec fn signed_text(v: int) -> Seq<char> {
    if v < 0 {
        seq!['-'] + decimal_text((-v) as nat)
    } else {
        decimal_text(v as nat)
    }
}

/// The text followed by as many spaces as it lacks to `width` characters.
pub open spec fn pad_right(s: Seq<char>, width: nat) -> Seq<char> {
    if s.len() >= width {
        s
    } else {
        s + Seq::new((width - s.len()) as nat, |i: int| ' ')
    }
}

/// One stat: the number, filled with spaces to two characters.
pub open spec fn stat_text(v: i8) -> Seq<char> {
    pad_right(signed_text(v as int), 2)
}

/// The six stats in parentheses, a space between them.
pub open spec fn stats_text(s: Stats) -> Seq<char> {
    seq!['('] + stat_text(s.mobility) + seq![' '] + stat_text(s.resilience) + seq![' ']
        + stat_text(s.recovery) + seq![' '] + stat_text(s.discipline) + seq![' '] + stat_text(
        s.intelligence,
    ) + seq![' '] + stat_text(s.strength) + seq![')']
}

/// A piece: a star if it is exotic, its name, a space, its stats.
pub open spec fn record_text(r: Record) -> Seq<char> {
    (if r.exotic {
        seq!['*']
    } else {
        Seq::<char>::empty()
    }) + r.name@ + seq![' '] + stats_text(r.stat_array)
}

/// The text of one digit.
fn digit_str(d: u8) -> (r: &'static str)
    requires
        d < 10,
    ensures
        r@ == seq![digit_char(d as nat)],
{
    proof {
        reveal_strlit("0");
        reveal_strlit("1");
        reveal_strlit("2");
        reveal_strlit("3");
        reveal_strlit("4");
        reveal_strlit("5");
        reveal_strlit("6");
        reveal_strlit("7");
        reveal_strlit("8");
        reveal_strlit("9");
    }
    let r = if d == 0 {
        "0"
    } else if d == 1 {
        "1"
    } else if d == 2 {
        "2"
    } else if d == 3 {
        "3"
    } else if d == 4 {
        "4"
    } else if d == 5 {
        "5"
    } else if d == 6 {
        "6"
    } else if d == 7 {
        "7"
    } else if d == 8 {
        "8"
    } else {
        "9"
    };
    assert(r@ =~= seq![digit_char(d as nat)]);
    r
}

/// Appends one stat, in two characters or more, to a text.
fn append_stat(out: &mut String, v: i8)
    ensures
        final(out)@ == old(out)@ + stat_text(v),
{
    proof {
        reveal_strlit("-");
        reveal_strlit(" ");
        reveal_with_fuel(decimal_text, 3);
    }
    let m: u8 = if v < 0 {
        out.append("-");
        (0 - (v as i16)) as u8
    } else {
        v as u8
    };
    if m >= 100 {
        out.append(digit_str(m / 100));
    }
    if m >= 10 {
        out.append(digit_str((m / 10) % 10));
    }
    out.append(digit_str(m % 10));
    if 0 <= v && v < 10 {
        out.append(" ");
    }
    assert(out@ =~= old(out)@ + stat_text(v));
}

impl Stats {
    /// The stats as text, such as `(10 5  10 10 10 10)`.
    pub fn display(&self) -> (text: String)
        ensures
            text@ == stats_text(*self),
    {
        proof {
            reveal_strlit("(");
            reveal_strlit(" ");
            reveal_strlit(")");
        }
        let mut text = String::new();
        text.append("(");
        append_stat(&mut text, self.mobility);
        text.append(" ");
        append_stat(&mut text, self.resilience);
        text.append(" ");
        append_stat(&mut text, self.recovery);
        text.append(" ");
        append_stat(&mut text, self.discipline);
        text.append(" ");
        append_stat(&mut text, self.intelligence);
        text.append(" ");
        append_stat(&mut text, self.strength);
        text.append(")");
        assert(text@ =~= stats_text(*self));
        text
    }
}

impl Record {
    /// The piece as text: a star if it is exotic, its name, its stats.
    pub fn display(&self) -> (text: String)
        ensures
            text@ == record_text(*self),
    {
        proof {
            reveal_strlit("*");
            reveal_strlit(" ");
        }
        let mut text = String::new();
        if self.exotic {
            text.append("*");
        }
        text.append(self.name.as_str());
        text.append(" ");
        let stats = self.stat_array.display();
        text.append(stats.as_str());
        assert(text@ =~= record_text(*self));
        text
    }
}

} // verus!
