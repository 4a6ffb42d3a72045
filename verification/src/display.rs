//! How units are written out.

use crate::algebra::Factor;
use vstd::prelude::*;

verus! {

/// The character of one decimal digit.
pub open spec fn digit_char(d: int) -> char {
    if d == 0 {
        '0'
    } else if d == 1 {
        '1'
    } else if d == 2 {
        '2'
    } else if d == 3 {
        '3'
    } else if d == 4 {
        '4'
    } else if d == 5 {
        '5'
    } else if d == 6 {
        '6'
    } else if d == 7 {
        '7'
    } else if d == 8 {
        '8'
    } else {
        '9'
    }
}

/// The decimal digits of a number that is not negative, without leading
/// zeros.
pub open spec fn digits(n: int) -> Seq<char>
    decreases n,
{
    if n < 10 {
        seq![digit_char(n)]
    } else {
        digits(n / 10).push(digit_char(n % 10))
    }
}

/// A whole number in decimal, with a minus sign where it is negative.
pub open spec fn decimal(n: int) -> Seq<char> {
    if n < 0 {
        seq!['-'] + digits(-n)
    } else {
        digits(n)
    }
}

/// One factor written out: the abbreviation of the unit, and behind it,
/// unless the power is one, `^` and the power.
pub open spec fn rendered_factor(f: Factor) -> Seq<char> {
    if f.power == 1 {
        f.unit.abbreviation
    } else {
        f.unit.abbreviation + seq!['^'] + decimal(f.power)
    }
}

/// The factors that are written out: those whose power is not zero.
pub open spec fn shown(s: Seq<Factor>) -> Seq<Factor> {
    s.filter(|f: Factor| f.power != 0)
}

/// Factors written out in their order, with one space between each two.
pub open spec fn joined(s: Seq<Factor>) -> Seq<char>
    decreases s.len(),
{
    if s.len() == 0 {
        Seq::empty()
    } else if s.len() == 1 {
        rendered_factor(s[0])
    } else {
        joined(s.drop_last()) + seq![' '] + rendered_factor(s.last())
    }
}

/// A composite unit written out: its factors in their order, with one
/// space between each two, those with the power zero left out.
pub open spec fn rendered(s: Seq<Factor>) -> Seq<char> {
    joined(shown(s))
}

/// A decimal digit as text.
fn digit_text(d: u8) -> (text: &'static str)
    requires
        d < 10,
    ensures
        text@ == seq![digit_char(d as int)],
{
    proof {
        reveal_strlit("0");
        reveal_strlit("1");
        reveal_strlit("2");
        reveal_strlit("3");
        reveal_strlit("4");
        reveal_strlit("5");
        reveal_strlit("6");
        reveal_strlit("7");
        reveal_strlit("8");
        reveal_strlit("9");
    }
    let text = if d == 0 {
        "0"
    } else if d == 1 {
        "1"
    } else if d == 2 {
        "2"
    } else if d == 3 {
        "3"
    } else if d == 4 {
        "4"
    } else if d == 5 {
        "5"
    } else if d == 6 {
        "6"
    } else if d == 7 {
        "7"
    } else if d == 8 {
        "8"
    } else {
        "9"
    };
    assert(text@ =~= seq![digit_char(d as int)]);
    text
}

/// Writes a power behind what `out` holds.
pub(crate) fn push_power(out: &mut String, power: i8)
    ensures
        final(out)@ == old(out)@ + decimal(power as int),
{
    let ghost start = out@;
    let magnitude: u8 = if power < 0 {
        out.append("-");
        proof {
            reveal_strlit("-");
        }
        (-(power as i16)) as u8
    } else {
        power as u8
    };
    let ghost signed = out@;
    assert(signed =~= if power < 0 {
        start + seq!['-']
    } else {
        start
    });
    let hundreds: u8 = magnitude / 100;
    let tens: u8 = (magnitude / 10) % 10;
    let ones: u8 = magnitude % 10;
    proof {
        reveal_with_fuel(digits, 3);
    }
    if magnitude >= 100 {
        out.append(digit_text(hundreds));
        out.append(digit_text(tens));
        out.append(digit_text(ones));
        assert(out@ =~= signed + digits(magnitude as int));
    } else if magnitude >= 10 {
        out.append(digit_text(tens));
        out.append(digit_text(ones));
        assert(out@ =~= signed + digits(magnitude as int));
    } else {
        out.append(digit_text(ones));
        assert(out@ =~= signed + digits(magnitude as int));
    }
    assert(out@ =~= start + decimal(power as int));
}

/// What is written when one more factor follows: nothing new where its
/// power is zero, else the factor, behind a space unless it is the first.
pub proof fn lemma_rendered_push(s: Seq<Factor>, f: Factor)
    ensures
        shown(s.push(f)) == (if f.power != 0 {
            shown(s).push(f)
        } else {
            shown(s)
        }),
        rendered(s.push(f)) == (if f.power == 0 {
            rendered(s)
        } else if shown(s).len() == 0 {
            rendered_factor(f)
        } else {
            rendered(s) + seq![' '] + rendered_factor(f)
        }),
{
    let pred = |f: Factor| f.power != 0;
    s.lemma_filter_push(f, pred);
    if f.power != 0 {
        let t = shown(s).push(f);
        assert(t.drop_last() =~= shown(s));
        assert(t.last() == f);
        if shown(s).len() == 0 {
            assert(t[0] == f);
        }
    }
}

} // verus!
