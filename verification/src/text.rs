//! Decimal rendering for diagnostic messages.

use vstd::prelude::*;
use vstd::string::*;

verus! {

/// The character of one decimal digit.
pub open spec fn digit_char(digit: nat) -> char {
    (48 + digit) as char
}

/// The decimal digits of a natural number, without leading zeros.
pub open spec fn natural(value: nat) -> Seq<char>
    decreases value,
{
    if value < 10 {
        seq![digit_char(value)]
    } else {
        natural(value / 10).push(digit_char(value % 10))
    }
}

/// The decimal rendering of an integer, with a leading minus sign where it is
/// negative.
pub open spec fn decimal(value: int) -> Seq<char> {
    if value < 0 {
        seq!['-'] + natural((-value) as nat)
    } else {
        natural(value as nat)
    }
}

fn digit_text(digit: u32) -> (text: &'static str)
    requires
        digit < 10,
    ensures
        text@ == seq![digit_char(digit as nat)],
{
    proof {
        reveal_strlit("0");
        reveal_strlit("1");
        reveal_strlit("2");
        reveal_strlit("3");
        reveal_strlit("4");
        reveal_strlit("5");
        reveal_strlit("6");
        reveal_strlit("7");
        reveal_strlit("8");
        reveal_strlit("9");
    }
    let text = match digit {
        0 => "0",
        1 => "1",
        2 => "2",
        3 => "3",
        4 => "4",
        5 => "5",
        6 => "6",
        7 => "7",
        8 => "8",
        _ => "9",
    };
    assert(text@ =~= seq![digit_char(digit as nat)]);
    text
}

fn push_natural(out: &mut String, value: u32)
    ensures
        final(out)@ == old(out)@ + natural(value as nat),
    decreases value,
{
    if value < 10 {
        out.append(digit_text(value));
    } else {
        push_natural(out, value / 10);
        out.append(digit_text(value % 10));
        assert(out@ =~= old(out)@ + natural(value as nat));
    }
}

/// Append the decimal rendering of `value`.
pub fn push_decimal(out: &mut String, value: i32)
    ensures
        final(out)@ == old(out)@ + decimal(value as int),
{
    if value < 0 {
        proof {
            reveal_strlit("-");
        }
        out.append("-");
        assert("-"@ =~= seq!['-']);
        let magnitude: u32 = (-(value as i64)) as u32;
        push_natural(out, magnitude);
        assert(out@ =~= old(out)@ + decimal(value as int));
    } else {
        push_natural(out, value as u32);
    }
}

/// What a sequence of decimal digits stands for.
pub open spec fn value_of(digits: Seq<char>) -> int
    decreases digits.len(),
{
    if digits.len() == 0 {
        0
    } else {
        10 * value_of(digits.drop_last()) + (digits.last() as int - '0' as int)
    }
}

/// A number is rendered in decimal digits that stand for it, without a zero in
/// front.
pub proof fn law_digits_stand_for_the_number(value: nat)
    ensures
        value_of(natural(value)) == value,
        natural(value).len() > 0,
        forall|i: int| 0 <= i < natural(value).len() ==> '0' <= #[trigger] natural(value)[i] <= '9',
        value > 0 ==> natural(value)[0] != '0',
    decreases value,
{
    let digits = natural(value);
    if value < 10 {
        assert(digits.drop_last() =~= Seq::<char>::empty());
        assert(value_of(Seq::<char>::empty()) == 0);
    } else {
        law_digits_stand_for_the_number(value / 10);
        assert(digits.drop_last() =~= natural(value / 10));
    }
}

/// A rendering is appended to what was there: the digits of the number, behind a
/// minus sign where it is negative.
pub proof fn law_numbers_are_appended(out: &mut String, value: i32)
    requires
        call_ensures(push_decimal, (out, value), ()),
    ensures
        final(out)@.len() > old(out)@.len(),
        final(out)@.take(old(out)@.len() as int) == old(out)@,
        ({
            let text = final(out)@.skip(old(out)@.len() as int);
            if value < 0 {
                text[0] == '-' && value_of(text.skip(1)) == -value
            } else {
                value_of(text) == value
            }
        }),
{
    let text = final(out)@.skip(old(out)@.len() as int);
    assert(final(out)@.take(old(out)@.len() as int) =~= old(out)@);
    if value < 0 {
        law_digits_stand_for_the_number((-value) as nat);
        assert(text.skip(1) =~= natural((-value) as nat));
    } else {
        law_digits_stand_for_the_number(value as nat);
        assert(text =~= natural(value as nat));
    }
}

} // verus!
