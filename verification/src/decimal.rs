//! Decimal notation of integers.

use vstd::prelude::*;

verus! {

/// The character of a digit.
pub open spec fn digit(value: nat) -> char
    recommends
        value < 10,
{
    seq!['0', '1', '2', '3', '4', '5', '6', '7', '8', '9'][value as int]
}

/// A natural number in decimal notation, without leading zeros.
pub open spec fn decimal_nat(value: nat) -> Seq<char>
    decreases value,
{
    if value < 10 {
        seq![digit(value)]
    } else {
        decimal_nat(value / 10).push(digit(value % 10))
    }
}

/// An integer in decimal notation, with a minus sign where it is negative.
pub open spec fn decimal(value: int) -> Seq<char> {
    if value < 0 {
        seq!['-'] + decimal_nat((-value) as nat)
    } else {
        decimal_nat(value as nat)
    }
}

fn digit_text(value: u64) -> (text: &'static str)
    requires
        value < 10,
    ensures
        text@ == seq![digit(value as nat)],
{
    proof {
        reveal_strlit("0");
        reveal_strlit("1");
        reveal_strlit("2");
        reveal_strlit("3");
        reveal_strlit("4");
        reveal_strlit("5");
        reveal_strlit("6");
        reveal_strlit("7");
        reveal_strlit("8");
        reveal_strlit("9");
    }
    match value {
        0 => "0",
        1 => "1",
        2 => "2",
        3 => "3",
        4 => "4",
        5 => "5",
        6 => "6",
        7 => "7",
        8 => "8",
        _ => "9",
    }
}

fn decimal_from_u64(value: u64) -> (text: String)
    ensures
        text@ == decimal_nat(value as nat),
    decreases value,
{
    if value < 10 {
        digit_text(value).to_owned()
    } else {
        let mut text = decimal_from_u64(value / 10);
        text.append(digit_text(value % 10));
        text
    }
}

/// Writes an integer in decimal notation.
pub fn decimal_from_i64(value: i64) -> (text: String)
    ensures
        text@ == decimal(value as int),
{
    if value < 0 {
        proof {
            reveal_strlit("-");
        }
        let magnitude: i128 = -(value as i128);
        let mut text = "-".to_owned();
        text.append(decimal_from_u64(magnitude as u64).as_str());
        assert(text@ =~= decimal(value as int));
        text
    } else {
        decimal_from_u64(value as u64)
    }
}

proof fn lemma_digit_injective(a: nat, b: nat)
    requires
        a < 10,
        b < 10,
        digit(a) == digit(b),
    ensures
        a == b,
{
    assert(digit(0) == '0' && digit(1) == '1' && digit(2) == '2' && digit(3) == '3' && digit(4)
        == '4' && digit(5) == '5' && digit(6) == '6' && digit(7) == '7' && digit(8) == '8'
        && digit(9) == '9');
}

proof fn lemma_decimal_nat_starts_with_digit(value: nat)
    ensures
        decimal_nat(value).len() > 0,
        decimal_nat(value)[0] != '-',
    decreases value,
{
    if value >= 10 {
        lemma_decimal_nat_starts_with_digit(value / 10);
    }
}

proof fn lemma_decimal_nat_injective(a: nat, b: nat)
    requires
        decimal_nat(a) == decimal_nat(b),
    ensures
        a == b,
    decreases a,
{
    lemma_decimal_nat_starts_with_digit(a / 10);
    lemma_decimal_nat_starts_with_digit(b / 10);
    if a >= 10 && b >= 10 {
        assert(decimal_nat(a).drop_last() =~= decimal_nat(a / 10));
        assert(decimal_nat(b).drop_last() =~= decimal_nat(b / 10));
        lemma_decimal_nat_injective(a / 10, b / 10);
        assert(digit(a % 10) == decimal_nat(a).last());
        assert(digit(b % 10) == decimal_nat(b).last());
        lemma_digit_injective(a % 10, b % 10);
    } else if a < 10 && b < 10 {
        assert(digit(a) == decimal_nat(a)[0]);
        assert(digit(b) == decimal_nat(b)[0]);
        lemma_digit_injective(a, b);
    } else if a < 10 {
        assert(decimal_nat(b).len() == decimal_nat(b / 10).len() + 1);
    } else {
        assert(decimal_nat(a).len() == decimal_nat(a / 10).len() + 1);
    }
}

/// Different integers have different notations.
pub proof fn law_decimal_is_injective(a: int, b: int)
    requires
        decimal(a) == decimal(b),
    ensures
        a == b,
{
    if a < 0 && b < 0 {
        assert(decimal(a).drop_first() =~= decimal_nat((-a) as nat));
        assert(decimal(b).drop_first() =~= decimal_nat((-b) as nat));
        lemma_decimal_nat_injective((-a) as nat, (-b) as nat);
    } else if a >= 0 && b >= 0 {
        lemma_decimal_nat_injective(a as nat, b as nat);
    } else if a < 0 {
        lemma_decimal_nat_starts_with_digit(b as nat);
        assert(decimal(a)[0] == '-');
    } else {
        lemma_decimal_nat_starts_with_digit(a as nat);
        assert(decimal(b)[0] == '-');
    }
}

/// The number that a row of digits stands for.
pub open spec fn digits_value(digits: Seq<char>) -> int
    decreases digits.len(),
{
    if digits.len() == 0 {
        0
    } else {
        10 * digits_value(digits.drop_last()) + (digits.last() as int - '0' as int)
    }
}

/// Whether a text is a row of digits without a needless zero in front, and
/// stands for this number.
pub open spec fn are_digits_of(text: Seq<char>, value: int) -> bool {
    &&& text.len() > 0
    &&& forall|i: int|
        0 <= i < text.len() ==> '0' as int <= (#[trigger] text[i]) as int <= '9' as int
    &&& text.len() > 1 ==> text[0] != '0'
    &&& digits_value(text) == value
}

/// Whether a text is how an integer is written: a minus sign where it is
/// negative, then the digits of its magnitude.
pub open spec fn is_notation_of(text: Seq<char>, value: int) -> bool {
    if value < 0 {
        text.len() > 0 && text[0] == '-' && are_digits_of(text.skip(1), -value)
    } else {
        are_digits_of(text, value)
    }
}

proof fn lemma_digit_value(value: nat)
    requires
        value < 10,
    ensures
        digit(value) as int - '0' as int == value,
{
    assert(digit(0) == '0' && digit(1) == '1' && digit(2) == '2' && digit(3) == '3' && digit(4)
        == '4' && digit(5) == '5' && digit(6) == '6' && digit(7) == '7' && digit(8) == '8'
        && digit(9) == '9');
}

proof fn lemma_digits_of_nat(value: nat)
    ensures
        are_digits_of(decimal_nat(value), value as int),
        value > 0 ==> decimal_nat(value)[0] != '0',
    decreases value,
{
    let text = decimal_nat(value);
    if value < 10 {
        lemma_digit_value(value);
        assert(text.drop_last() =~= Seq::<char>::empty());
        assert(digits_value(text.drop_last()) == 0);
    } else {
        let front = decimal_nat(value / 10);
        lemma_digits_of_nat(value / 10);
        lemma_digit_value(value % 10);
        assert(text.drop_last() =~= front);
        assert(text[0] == front[0]);
        assert forall|i: int| 0 <= i < text.len() implies '0' as int <= (#[trigger] text[i]) as int
            <= '9' as int by {
            if i < front.len() {
                assert(text[i] == front[i]);
            }
        }
    }
}

/// The notation of an integer is one.
pub proof fn law_decimal_is_notation(value: int)
    ensures
        is_notation_of(decimal(value), value),
{
    if value < 0 {
        lemma_digits_of_nat((-value) as nat);
        assert(decimal(value).skip(1) =~= decimal_nat((-value) as nat));
    } else {
        lemma_digits_of_nat(value as nat);
    }
}

/// An integer can be read back from what is written for it.
pub proof fn law_written_integer_is_read_back(value: i64, text: String)
    requires
        call_ensures(decimal_from_i64, (value,), text),
    ensures
        is_notation_of(text@, value as int),
{
    law_decimal_is_notation(value as int);
}

} // verus!
