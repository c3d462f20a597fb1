//! Writing and reading numbers.

use vstd::prelude::*;

use crate::number::{
    all_digits, decimal, digit_char, digits_value, hex, is_digit, parse_i32, signed_decimal,
    without_sign,
};

verus! {

/// A number is written digit by digit: below ten it is one digit, from ten on the
/// digits of its tenth and then its last digit, and below zero a `-` and its
/// opposite.
pub proof fn numbers_are_written_digit_by_digit(n: int)
    ensures
        0 <= n < 10 ==> signed_decimal(n).len() == 1 && signed_decimal(n)[0] as int == 48 + n,
        n >= 10 ==> signed_decimal(n) == signed_decimal(n / 10) + signed_decimal(n % 10),
        n < 0 ==> signed_decimal(n) == seq!['-'] + signed_decimal(-n),
        n >= 0 ==> decimal(n as nat) == signed_decimal(n),
{
    if n >= 10 {
        assert(decimal((n % 10) as nat) == seq![digit_char((n % 10) as nat)]);
        assert(signed_decimal(n) == signed_decimal(n / 10) + signed_decimal(n % 10));
    }
}

/// A number is written in hexadecimal digit by digit, in lower case.
pub proof fn hexadecimal_is_written_digit_by_digit(n: nat, width: nat, d: nat)
    requires
        d < 16,
    ensures
        hex(n, 0) == Seq::<char>::empty(),
        hex(d, 1).len() == 1,
        d < 10 ==> hex(d, 1)[0] as int == 48 + d,
        d >= 10 ==> hex(d, 1)[0] as int == 87 + d,
        hex(n, width + 1) == hex(n / 16, width) + hex(n % 16, 1),
{
    reveal_with_fuel(hex, 2);
    assert(hex(d, 1) == seq![digit_char(d)]);
    assert(hex(n % 16, 1) == seq![digit_char(n % 16)]);
    assert(hex(n, width + 1) == hex(n / 16, width) + hex(n % 16, 1));
}

/// Whether `c` is one of `0` to `9`.
pub open spec fn digit(c: char) -> bool {
    48 <= c as int <= 57
}

/// What is not digits behind at most one sign is no number: a character that is
/// no digit stands nowhere but in front, is a sign there, and has a digit behind
/// it.
pub proof fn only_digits_and_a_sign_make_a_number(s: Seq<char>, i: int)
    requires
        parse_i32(s) is Some,
        0 <= i < s.len(),
    ensures
        i32::MIN <= parse_i32(s)->0 <= i32::MAX,
        digit(s[i]) || (i == 0 && (s[0] == '-' || s[0] == '+') && s.len() > 1),
{
    let digits = without_sign(s);
    if digits == s {
        assert(is_digit(digits[i]));
    } else if i > 0 {
        assert(digits[i - 1] == s[i]);
        assert(is_digit(digits[i - 1]));
    }
}

/// No text without a character is a number.
pub proof fn nothing_is_no_number()
    ensures
        parse_i32(Seq::empty()) is None,
{
}

/// A digit is read as its value, with or without a sign.
pub proof fn a_digit_is_read(c: char)
    requires
        digit(c),
    ensures
        parse_i32(seq![c]) == Some(c as int - 48),
        parse_i32(seq!['+', c]) == Some(c as int - 48),
        parse_i32(seq!['-', c]) == Some(48 - c as int),
{
    let one = seq![c];
    lemma_one_digit(c);
    assert(seq!['+', c].skip(1) == one);
    assert(seq!['-', c].skip(1) == one);
    assert(without_sign(one) == one);
}

proof fn lemma_one_digit(c: char)
    requires
        digit(c),
    ensures
        all_digits(seq![c]),
        digits_value(seq![c]) == c as int - 48,
{
    assert(seq![c].drop_last() == Seq::<char>::empty());
    reveal_with_fuel(digits_value, 2);
    assert(is_digit(seq![c][0]));
}

/// One digit more makes the number ten times as large and adds the digit, away
/// from zero. A number that is out of range is none.
pub proof fn numbers_are_read_digit_by_digit(s: Seq<char>, c: char)
    requires
        s.len() > 0,
        digit(s.last()),
        digit(c),
    ensures
        parse_i32(s) matches Some(v) ==> {
            let w = if s[0] == '-' {
                10 * v - (c as int - 48)
            } else {
                10 * v + (c as int - 48)
            };
            parse_i32(s.push(c)) == if i32::MIN <= w <= i32::MAX {
                Some(w)
            } else {
                None
            }
        },
        parse_i32(s) is None ==> parse_i32(s.push(c)) is None,
{
    let all = s.push(c);
    let d = without_sign(s);
    let e = without_sign(all);
    assert(all[0] == s[0]);
    assert(e == d.push(c));
    assert(e.drop_last() == d);
    assert(e.last() == c);
    assert(digits_value(e) == digits_value(d) * 10 + (c as int - 48));
    if all_digits(d) {
        assert forall|i: int| 0 <= i < e.len() implies is_digit(#[trigger] e[i]) by {
            if i < d.len() {
                assert(e[i] == d[i]);
            }
        }
    }
    if all_digits(e) {
        assert forall|i: int| 0 <= i < d.len() implies is_digit(#[trigger] d[i]) by {
            assert(e[i] == d[i]);
        }
    }
    if d.len() == 0 {
        assert(s.len() == 1);
        assert(s[0] == s.last());
    }
}

} // verus!
