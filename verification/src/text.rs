//! Small helpers on strings.

use vstd::prelude::*;
use vstd::string::*;

verus! {

/// The strings as plain text.
pub open spec fn texts(strings: Seq<String>) -> Seq<Seq<char>> {
    Seq::new(strings.len(), |i: int| strings[i]@)
}

/// Whether two string slices hold the same characters.
pub(crate) fn same_text(a: &str, b: &str) -> (same: bool)
    ensures
        same == (a@ == b@),
{
    String::from_str(a) == String::from_str(b)
}

/// The character of a digit.
pub open spec fn digit_char(digit: nat) -> char {
    if digit == 0 {
        '0'
    } else if digit == 1 {
        '1'
    } else if digit == 2 {
        '2'
    } else if digit == 3 {
        '3'
    } else if digit == 4 {
        '4'
    } else if digit == 5 {
        '5'
    } else if digit == 6 {
        '6'
    } else if digit == 7 {
        '7'
    } else if digit == 8 {
        '8'
    } else {
        '9'
    }
}

/// A number in decimal digits, without leading zeros.
pub open spec fn decimal(number: nat) -> Seq<char>
    decreases number,
{
    if number < 10 {
        seq![digit_char(number)]
    } else {
        decimal(number / 10).push(digit_char(number % 10))
    }
}

/// The text of a digit.
fn digit_text(digit: usize) -> (text: &'static str)
    requires
        digit < 10,
    ensures
        text@ == seq![digit_char(digit as nat)],
{
    proof {
        reveal_strlit("0");
        reveal_strlit("1");
        reveal_strlit("2");
        reveal_strlit("3");
        reveal_strlit("4");
        reveal_strlit("5");
        reveal_strlit("6");
        reveal_strlit("7");
        reveal_strlit("8");
        reveal_strlit("9");
    }
    let text = if digit == 0 {
        "0"
    } else if digit == 1 {
        "1"
    } else if digit == 2 {
        "2"
    } else if digit == 3 {
        "3"
    } else if digit == 4 {
        "4"
    } else if digit == 5 {
        "5"
    } else if digit == 6 {
        "6"
    } else if digit == 7 {
        "7"
    } else if digit == 8 {
        "8"
    } else {
        "9"
    };
    text
}

/// A number in decimal digits, without leading zeros.
pub(crate) fn decimal_text(number: usize) -> (text: String)
    ensures
        text@ == decimal(number as nat),
    decreases number,
{
    if number < 10 {
        String::from_str(digit_text(number))
    } else {
        let text = decimal_text(number / 10).concat(digit_text(number % 10));
        text
    }
}

/// Each digit of a number's decimal form is a digit character.
pub proof fn lemma_decimal_digits(number: nat, k: int)
    requires
        0 <= k < decimal(number).len(),
    ensures
        decimal(number).len() >= 1,
        decimal(number)[k] != '_',
        decimal(number)[k] != '$',
    decreases number,
{
    if number >= 10 {
        if k < decimal(number / 10).len() {
            lemma_decimal_digits(number / 10, k);
        }
    }
}

/// Two numbers with the same decimal form are the same number.
pub proof fn lemma_decimal_injective(one: nat, other: nat)
    requires
        decimal(one) == decimal(other),
    ensures
        one == other,
    decreases one,
{
    lemma_decimal_digits(one, 0);
    if one < 10 && other < 10 {
    } else if one >= 10 && other >= 10 {
        let a = decimal(one / 10);
        let b = decimal(other / 10);
        assert(a.push(digit_char(one % 10)).drop_last() == a);
        assert(b.push(digit_char(other % 10)).drop_last() == b);
        assert(a.push(digit_char(one % 10)).last() == digit_char(one % 10));
        lemma_decimal_injective(one / 10, other / 10);
    } else if one >= 10 {
        lemma_decimal_digits(one / 10, 0);
    } else {
        lemma_decimal_digits(other / 10, 0);
    }
}

} // verus!
