//! Counts written in decimal.

use vstd::prelude::*;

verus! {

/// The character of a decimal digit.
pub open spec fn digit_char(digit: nat) -> char
    recommends
        digit < 10,
{
    ('0' as nat + digit) as char
}

/// Whether `c` is one of `0` to `9`.
pub open spec fn is_digit(c: char) -> bool {
    '0' <= c <= '9'
}

/// The number that a decimal digit stands for.
pub open spec fn digit_value(c: char) -> nat
    recommends
        is_digit(c),
{
    (c as nat - '0' as nat) as nat
}

/// The decimal digits of `n`, without leading zeros.
pub open spec fn decimal(n: nat) -> Seq<char>
    decreases n,
{
    if n < 10 {
        seq![digit_char(n)]
    } else {
        decimal(n / 10).push(digit_char(n % 10))
    }
}

/// Whether `text` holds decimal digits only.
pub open spec fn all_digits(text: Seq<char>) -> bool {
    forall|k: int| 0 <= k < text.len() ==> is_digit(#[trigger] text[k])
}

/// The number that a run of decimal digits stands for; leading zeros count for nothing.
pub open spec fn digits_value(text: Seq<char>) -> nat
    decreases text.len(),
{
    if text.len() == 0 {
        0
    } else {
        digits_value(text.drop_last()) * 10 + digit_value(text.last())
    }
}

/// The digits of a count line: the text without a leading plus sign.
pub open spec fn count_digits(text: Seq<char>) -> Seq<char> {
    if text.len() > 0 && text[0] == '+' {
        text.drop_first()
    } else {
        text
    }
}

/// The count that `text` stands for: an optional plus sign and then one or
/// more decimal digits give their value where it fits the machine's word;
/// any other text gives zero.
pub open spec fn count_value(text: Seq<char>) -> nat {
    let digits = count_digits(text);
    if digits.len() > 0 && all_digits(digits) && digits_value(digits) <= usize::MAX {
        digits_value(digits)
    } else {
        0
    }
}

fn digit_text(digit: usize) -> (text: &'static str)
    requires
        digit < 10,
    ensures
        text@ == seq![digit_char(digit as nat)],
{
    proof {
        reveal_strlit("0");
        reveal_strlit("1");
        reveal_strlit("2");
        reveal_strlit("3");
        reveal_strlit("4");
        reveal_strlit("5");
        reveal_strlit("6");
        reveal_strlit("7");
        reveal_strlit("8");
        reveal_strlit("9");
    }
    match digit {
        0 => "0",
        1 => "1",
        2 => "2",
        3 => "3",
        4 => "4",
        5 => "5",
        6 => "6",
        7 => "7",
        8 => "8",
        _ => "9",
    }
}

/// Writes `n` in decimal.
pub fn format_count(n: usize) -> (text: String)
    ensures
        text@ == decimal(n as nat),
{
    let mut text = String::from_str(digit_text(n % 10));
    let mut rest = n / 10;
    while rest > 0
        invariant
            rest > 0 ==> decimal(n as nat) == decimal(rest as nat) + text@,
            rest == 0 ==> decimal(n as nat) == text@,
        decreases rest,
    {
        text = String::from_str(digit_text(rest % 10)).concat(text.as_str());
        rest = rest / 10;
    }
    text
}

/// Reads a count: the value of `text` where it is a count that fits the
/// machine's word, and zero for any other text.
pub fn parse_count(text: &str) -> (count: usize)
    ensures
        count == count_value(text@),
{
    let mut value: usize = 0;
    let mut valid = true;
    let mut any = false;
    let mut i: usize = 0;
    let n = text.unicode_len();
    for c in it: text.chars()
        invariant
            n == text@.len(),
            it.seq() == text@,
            i == it.index(),
            i <= n,
            any == (count_digits(text@.take(i as int)).len() > 0),
            valid == (all_digits(count_digits(text@.take(i as int))) && digits_value(
                count_digits(text@.take(i as int)),
            ) <= usize::MAX),
            valid ==> value == digits_value(count_digits(text@.take(i as int))),
    {
        let ghost before = count_digits(text@.take(i as int));
        let ghost after = count_digits(text@.take(i + 1));
        if i != 0 || c != '+' {
            proof {
                // One more character behind the sign is one more digit of the count.
                assert(after =~= before.push(c));
                assert(after.drop_last() =~= before);
                assert(all_digits(after) ==> all_digits(before)) by {
                    if all_digits(after) {
                        assert forall|k: int| 0 <= k < before.len() implies is_digit(
                            #[trigger] before[k],
                        ) by {}
                    }
                }
            }
            any = true;
            if valid && '0' <= c && c <= '9' {
                let digit = (c as u32 - '0' as u32) as usize;
                match value.checked_mul(10) {
                    Some(tens) => match tens.checked_add(digit) {
                        Some(sum) => {
                            value = sum;
                        },
                        None => {
                            valid = false;
                        },
                    },
                    None => {
                        valid = false;
                    },
                }
            } else {
                valid = false;
            }
        }
        i = i + 1;
    }
    proof {
        assert(text@.take(n as int) =~= text@);
    }
    if valid && any {
        value
    } else {
        0
    }
}

/// Decimal digits are digits, and their value is the number they were written for.
pub proof fn lemma_decimal_value(n: nat)
    ensures
        decimal(n).len() > 0,
        all_digits(decimal(n)),
        digits_value(decimal(n)) == n,
    decreases n,
{
    if n < 10 {
        assert(digits_value(decimal(n).drop_last()) == 0);
    } else {
        lemma_decimal_value(n / 10);
        assert(decimal(n).drop_last() =~= decimal(n / 10));
    }
}

/// A count that fits the machine's word is read back from its decimal digits.
pub proof fn lemma_count_value_decimal(n: nat)
    requires
        n <= usize::MAX,
    ensures
        count_value(decimal(n)) == n,
{
    lemma_decimal_value(n);
}

} // verus!
