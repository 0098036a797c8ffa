//! Laws of the numbers that give a span.

use vstd::prelude::*;

use crate::decimal;

verus! {

/// Each digit stands for its place among the digits.
pub proof fn law_digits_count_from_zero(d: int)
    requires
        0 <= d < 10,
    ensures
        decimal::is_digit("0123456789"@[d]),
        decimal::decimal_value(seq!["0123456789"@[d]]) == d,
        decimal::decimal_text(d as nat) == seq!["0123456789"@[d]],
{
    reveal_strlit("0123456789");
    let c = "0123456789"@[d];
    assert(c as u32 == 0x30 + d);
    assert(seq![c].drop_last() =~= Seq::<char>::empty());
    assert(decimal::decimal_value(seq![c].drop_last()) == 0);
    assert(decimal::decimal_text(d as nat) =~= seq![c]);
}

/// Nothing else is a digit.
pub proof fn law_digits_are_ten(c: char)
    ensures
        decimal::is_digit(c) <==> "0123456789"@.contains(c),
{
    reveal_strlit("0123456789");
    let digits = "0123456789"@;
    if decimal::is_digit(c) {
        let d = c as u32 - 0x30;
        assert(digits[d] as u32 == 0x30 + d);
        assert(digits[d] == c);
    }
    if digits.contains(c) {
        let d = choose|d: int| 0 <= d < digits.len() && digits[d] == c;
        assert(digits[d] as u32 == 0x30 + d);
    }
}

/// The digits in front count ten times for each digit behind them.
pub proof fn law_digits_in_front_count_tenfold(front: Seq<char>, back: Seq<char>)
    ensures
        decimal::decimal_value(front + back) == decimal::decimal_value(front) * vstd::arithmetic::power::pow(
            10,
            back.len(),
        ) + decimal::decimal_value(back),
    decreases back.len(),
{
    let a = decimal::decimal_value(front);
    if back.len() == 0 {
        assert(front + back =~= front);
        vstd::arithmetic::power::lemma_pow0(10);
        assert(a * 1 == a);
    } else {
        let shorter = back.drop_last();
        law_digits_in_front_count_tenfold(front, shorter);
        assert((front + back).drop_last() =~= front + shorter);
        assert((front + back).last() == back.last());
        let p = vstd::arithmetic::power::pow(10, shorter.len());
        assert(vstd::arithmetic::power::pow(10, back.len()) == 10 * p) by {
            reveal(vstd::arithmetic::power::pow);
        }
        assert(10 * (a * p) == a * (10 * p)) by (nonlinear_arith);
    }
}

/// Text is read as a number exactly where it is digits, at least one, and the
/// number fits in 32 bits; it is read as that number.
pub proof fn law_number_is_read_from_digits(s: Seq<char>)
    ensures
        decimal::parsed_u32(s) is Some <==> {
            &&& s.len() > 0
            &&& forall|i: int| 0 <= i < s.len() ==> "0123456789"@.contains(#[trigger] s[i])
            &&& decimal::decimal_value(s) <= u32::MAX
        },
        decimal::parsed_u32(s) is Some ==> decimal::parsed_u32(s)->0 == decimal::decimal_value(s),
{
    if decimal::all_digits(s) {
        decimal::lemma_value_grows(s, 0);
        assert forall|i: int| 0 <= i < s.len() implies "0123456789"@.contains(#[trigger] s[i]) by {
            law_digits_are_ten(s[i]);
        }
    }
    if forall|i: int| 0 <= i < s.len() ==> "0123456789"@.contains(#[trigger] s[i]) {
        assert forall|i: int| 0 <= i < s.len() implies decimal::is_digit(#[trigger] s[i]) by {
            law_digits_are_ten(s[i]);
        }
    }
}

/// A number is written as digits that stand for it, without a zero in front.
pub proof fn law_number_is_written_without_leading_zeros(n: nat)
    ensures
        decimal::decimal_text(n).len() > 0,
        decimal::all_digits(decimal::decimal_text(n)),
        decimal::decimal_value(decimal::decimal_text(n)) == n,
        n > 0 ==> decimal::decimal_text(n)[0] != '0',
        n <= u32::MAX ==> decimal::parsed_u32(decimal::decimal_text(n)) == Some(n as u32),
    decreases n,
{
    decimal::lemma_decimal_round_trip(n);
    if n >= 10 {
        law_number_is_written_without_leading_zeros(n / 10);
        decimal::lemma_decimal_round_trip(n / 10);
        assert(decimal::decimal_text(n)[0] == decimal::decimal_text(n / 10)[0]);
    } else {
        assert(decimal::decimal_text(n)[0] as u32 == 0x30 + n);
    }
}

} // verus!
