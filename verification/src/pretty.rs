//! Large numbers written for people: `10000` becomes `10,000`.

use vstd::prelude::*;
use vstd::string::StringExecFns;

verus! {

/// The character of a decimal digit.
pub open spec fn digit(d: nat) -> char {
    if d == 0 {
        '0'
    } else if d == 1 {
        '1'
    } else if d == 2 {
        '2'
    } else if d == 3 {
        '3'
    } else if d == 4 {
        '4'
    } else if d == 5 {
        '5'
    } else if d == 6 {
        '6'
    } else if d == 7 {
        '7'
    } else if d == 8 {
        '8'
    } else {
        '9'
    }
}

/// The decimal digits of a number, without leading zeros.
pub open spec fn decimal(n: nat) -> Seq<char>
    decreases n,
{
    if n < 10 {
        seq![digit(n)]
    } else {
        decimal(n / 10).push(digit(n % 10))
    }
}

/// The given digits with a comma before every group of three, counted from
/// the right.
pub open spec fn grouped(digits: Seq<char>) -> Seq<char>
    decreases digits.len(),
{
    if digits.len() <= 3 {
        digits
    } else {
        grouped(digits.take(digits.len() - 3)) + seq![','] + digits.skip(digits.len() - 3)
    }
}

/// A number in decimal digits, with commas between the thousands.
pub open spec fn pretty(n: nat) -> Seq<char> {
    grouped(decimal(n))
}

/// The last three decimal digits of a number.
pub open spec fn last_three(n: nat) -> Seq<char> {
    seq![digit(n / 100 % 10), digit(n / 10 % 10), digit(n % 10)]
}

/// A number of four digits or more ends in its last three digits, and what
/// stands before them is the number of its thousands.
proof fn lemma_decimal_splits(n: nat)
    requires
        n >= 1000,
    ensures
        decimal(n) =~= decimal(n / 1000) + last_three(n),
{
    let tens = n / 10;
    let hundreds = n / 100;
    assert(hundreds == tens / 10);
    assert(n / 1000 == hundreds / 10);
    assert(decimal(n) == decimal(tens).push(digit(n % 10)));
    assert(decimal(tens) == decimal(hundreds).push(digit(tens % 10)));
    assert(decimal(hundreds) == decimal(n / 1000).push(digit(hundreds % 10)));
}

/// The thousands of a number are set apart by one comma, and are themselves
/// written with commas.
proof fn lemma_pretty_unfolds(n: nat)
    ensures
        n < 1000 ==> pretty(n) == decimal(n),
        n >= 1000 ==> pretty(n) == pretty(n / 1000) + seq![','] + last_three(n),
{
    if n < 1000 {
        assert(decimal(n).len() <= 3) by {
            reveal_with_fuel(decimal, 3);
        }
    } else {
        lemma_decimal_splits(n);
        let digits = decimal(n);
        let front = decimal(n / 1000);
        assert(front.len() >= 1) by {
            reveal_with_fuel(decimal, 2);
        }
        assert(digits.take(digits.len() - 3) =~= front);
        assert(digits.skip(digits.len() - 3) =~= last_three(n));
    }
}

/// A decimal digit as text.
fn digit_str(d: u8) -> (text: &'static str)
    requires
        d < 10,
    ensures
        text@ == seq![digit(d as nat)],
{
    proof {
        reveal_strlit("0");
        reveal_strlit("1");
        reveal_strlit("2");
        reveal_strlit("3");
        reveal_strlit("4");
        reveal_strlit("5");
        reveal_strlit("6");
        reveal_strlit("7");
        reveal_strlit("8");
        reveal_strlit("9");
    }
    let text = match d {
        0 => "0",
        1 => "1",
        2 => "2",
        3 => "3",
        4 => "4",
        5 => "5",
        6 => "6",
        7 => "7",
        8 => "8",
        _ => "9",
    };
    assert(text@ =~= seq![digit(d as nat)]);
    text
}

/// Appends the decimal digits of a number.
fn push_decimal(out: &mut String, number: u128)
    ensures
        final(out)@ == old(out)@ + decimal(number as nat),
    decreases number,
{
    if number >= 10 {
        push_decimal(out, number / 10);
    }
    out.append(digit_str((number % 10) as u8));
    assert(out@ =~= old(out)@ + decimal(number as nat));
}

/// Appends a number with commas between the thousands.
fn push_pretty(out: &mut String, number: u128)
    ensures
        final(out)@ == old(out)@ + pretty(number as nat),
    decreases number,
{
    proof {
        lemma_pretty_unfolds(number as nat);
    }
    if number >= 1000 {
        push_pretty(out, number / 1000);
        proof {
            reveal_strlit(",");
        }
        out.append(",");
        out.append(digit_str((number / 100 % 10) as u8));
        out.append(digit_str((number / 10 % 10) as u8));
        out.append(digit_str((number % 10) as u8));
        assert(out@ =~= old(out)@ + pretty(number as nat));
    } else {
        push_decimal(out, number);
    }
}

/// Writes a number in decimal digits with commas between the thousands, so
/// that a turn number in the billions can be read.
pub fn number_to_pretty_string(number: u128) -> (text: String)
    ensures
        text@ == pretty(number as nat),
{
    let mut text = String::new();
    push_pretty(&mut text, number);
    assert(text@ =~= pretty(number as nat));
    text
}

} // verus!
