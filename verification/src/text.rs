//! Decimal rendering of integers into user-facing text.
use vstd::prelude::*;
use vstd::string::StringExecFns;

verus! {

pub open spec fn digit_char(digit: nat) -> char {
    if digit == 0 {
        '0'
    } else if digit == 1 {
        '1'
    } else if digit == 2 {
        '2'
    } else if digit == 3 {
        '3'
    } else if digit == 4 {
        '4'
    } else if digit == 5 {
        '5'
    } else if digit == 6 {
        '6'
    } else if digit == 7 {
        '7'
    } else if digit == 8 {
        '8'
    } else {
        '9'
    }
}

/// The decimal digits of `value`, most significant first, without leading zeros.
pub open spec fn decimal(value: nat) -> Seq<char>
    decreases value,
{
    if value < 10 {
        seq![digit_char(value)]
    } else {
        decimal(value / 10) + seq![digit_char(value % 10)]
    }
}

/// The decimal rendering of a signed value: a minus sign before negative values.
pub open spec fn signed_decimal(value: int) -> Seq<char> {
    if value < 0 {
        seq!['-'] + decimal((-value) as nat)
    } else {
        decimal(value as nat)
    }
}

fn digit_str(digit: u64) -> (r: &'static str)
    requires
        digit < 10,
    ensures
        r@ == seq![digit_char(digit as nat)],
{
    proof {
        reveal_strlit("0");
        reveal_strlit("1");
        reveal_strlit("2");
        reveal_strlit("3");
        reveal_strlit("4");
        reveal_strlit("5");
        reveal_strlit("6");
        reveal_strlit("7");
        reveal_strlit("8");
        reveal_strlit("9");
    }
    match digit {
        0 => "0",
        1 => "1",
        2 => "2",
        3 => "3",
        4 => "4",
        5 => "5",
        6 => "6",
        7 => "7",
        8 => "8",
        _ => "9",
    }
}

/// Appends the decimal digits of `value`.
pub fn push_decimal(text: &mut String, value: u64)
    ensures
        final(text)@ == old(text)@ + decimal(value as nat),
    decreases value,
{
    if value >= 10 {
        push_decimal(text, value / 10);
    }
    text.append(digit_str(value % 10));
    proof {
        assert(old(text)@ + decimal(value as nat) =~= if value >= 10 {
            old(text)@ + decimal((value / 10) as nat) + seq![digit_char((value % 10) as nat)]
        } else {
            old(text)@ + seq![digit_char((value % 10) as nat)]
        });
    }
}

/// Appends the decimal rendering of a signed value.
pub fn push_signed_decimal(text: &mut String, value: i64)
    requires
        value > i64::MIN,
    ensures
        final(text)@ == old(text)@ + signed_decimal(value as int),
{
    if value < 0 {
        proof {
            reveal_strlit("-");
        }
        text.append("-");
        push_decimal(text, (-value) as u64);
        proof {
            assert(text@ =~= old(text)@ + signed_decimal(value as int));
        }
    } else {
        push_decimal(text, value as u64);
    }
}

} // verus!
