//! Decimal text for integers, and the comma-separated listing of a run of
//! them.

use vstd::prelude::*;
use vstd::string::StringExecFns;

verus! {

/// The character that stands for a single decimal digit.
pub open spec fn digit_char(digit: int) -> char
    recommends
        0 <= digit < 10,
{
    if digit == 0 {
        '0'
    } else if digit == 1 {
        '1'
    } else if digit == 2 {
        '2'
    } else if digit == 3 {
        '3'
    } else if digit == 4 {
        '4'
    } else if digit == 5 {
        '5'
    } else if digit == 6 {
        '6'
    } else if digit == 7 {
        '7'
    } else if digit == 8 {
        '8'
    } else {
        '9'
    }
}

/// The decimal digits of a natural number, the most significant first and
/// without leading zeros; zero is the single digit `0`.
pub open spec fn digits(value: nat) -> Seq<char>
    decreases value,
{
    if value < 10 {
        seq![digit_char(value as int)]
    } else {
        digits(value / 10).push(digit_char((value % 10) as int))
    }
}

/// An integer in decimal: its digits, after a minus sign if it is negative.
pub open spec fn decimal_text(value: int) -> Seq<char> {
    if value < 0 {
        seq!['-'] + digits((-value) as nat)
    } else {
        digits(value as nat)
    }
}

/// The listing of a run of integers: each one in decimal, followed by a
/// comma and a space, the last one too.
pub open spec fn listing_text(values: Seq<i32>) -> Seq<char>
    decreases values.len(),
{
    if values.len() == 0 {
        Seq::empty()
    } else {
        listing_text(values.drop_last()) + decimal_text(values.last() as int) + seq![',', ' ']
    }
}

fn digit_text(digit: u32) -> (text: &'static str)
    requires
        digit < 10,
    ensures
        text@ == seq![digit_char(digit as int)],
{
    proof {
        reveal_strlit("0");
        reveal_strlit("1");
        reveal_strlit("2");
        reveal_strlit("3");
        reveal_strlit("4");
        reveal_strlit("5");
        reveal_strlit("6");
        reveal_strlit("7");
        reveal_strlit("8");
        reveal_strlit("9");
    }
    let text = match digit {
        0 => "0",
        1 => "1",
        2 => "2",
        3 => "3",
        4 => "4",
        5 => "5",
        6 => "6",
        7 => "7",
        8 => "8",
        _ => "9",
    };
    assert(text@ =~= seq![digit_char(digit as int)]);
    text
}

/// Appends the decimal digits of `value` to `out`.
fn append_digits(out: &mut String, value: u32)
    ensures
        final(out)@ == old(out)@ + digits(value as nat),
    decreases value,
{
    if value >= 10 {
        append_digits(out, value / 10);
    }
    out.append(digit_text(value % 10));
    assert(out@ =~= old(out)@ + digits(value as nat));
}

/// Writes `value` in decimal.
pub fn decimal(value: i32) -> (text: String)
    ensures
        text@ == decimal_text(value as int),
{
    let mut text = String::new();
    append_decimal(&mut text, value);
    assert(text@ =~= decimal_text(value as int));
    text
}

/// Appends `value` in decimal to `out`.
pub fn append_decimal(out: &mut String, value: i32)
    ensures
        final(out)@ == old(out)@ + decimal_text(value as int),
{
    if value < 0 {
        let magnitude: u32 = (-(value as i64)) as u32;
        proof {
            reveal_strlit("-");
        }
        out.append("-");
        append_digits(out, magnitude);
        assert(out@ =~= old(out)@ + decimal_text(value as int));
    } else {
        append_digits(out, value as u32);
    }
}

/// Writes the listing of `values`: each one in decimal, followed by a comma
/// and a space.
pub fn listing(values: &Vec<i32>) -> (text: String)
    ensures
        text@ == listing_text(values@),
{
    let mut text = String::new();
    let mut done: usize = 0;
    while done < values.len()
        invariant
            done <= values.len(),
            text@ == listing_text(values@.take(done as int)),
        decreases values.len() - done,
    {
        let ghost before = text@;
        append_decimal(&mut text, values[done]);
        proof {
            reveal_strlit(", ");
        }
        text.append(", ");
        done += 1;
        proof {
            let shown = values@.take(done as int);
            assert(shown.drop_last() =~= values@.take(done - 1));
            assert(text@ =~= before + decimal_text(shown.last() as int) + seq![',', ' ']);
        }
    }
    assert(values@.take(done as int) =~= values@);
    text
}

} // verus!
