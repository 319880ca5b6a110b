//! Whole numbers written in decimal digits: reading and writing them, and that what was
//! written is read back.

use crate::path::push_char;
use vstd::prelude::*;

verus! {

/// `c` is one of the digits `0` to `9`.
pub open spec fn is_digit(c: char) -> bool {
    '0' <= c <= '9'
}

/// The number that the digit `c` stands for.
pub open spec fn digit_value(c: char) -> int {
    c as int - '0' as int
}

/// The digit that stands for `d`, a number from 0 to 9.
pub open spec fn digit_of(d: int) -> char {
    if d == 0 {
        '0'
    } else if d == 1 {
        '1'
    } else if d == 2 {
        '2'
    } else if d == 3 {
        '3'
    } else if d == 4 {
        '4'
    } else if d == 5 {
        '5'
    } else if d == 6 {
        '6'
    } else if d == 7 {
        '7'
    } else if d == 8 {
        '8'
    } else {
        '9'
    }
}

/// Every character of `text` is a digit.
pub open spec fn all_digits(text: Seq<char>) -> bool {
    forall|i: int| 0 <= i < text.len() ==> is_digit(#[trigger] text[i])
}

/// The number that the digits `digits` write, the first digit counting most.
pub open spec fn digits_value(digits: Seq<char>) -> int
    decreases digits.len(),
{
    if digits.len() == 0 {
        0
    } else {
        digits_value(digits.drop_last()) * 10 + digit_value(digits.last())
    }
}

/// The number that `text` writes, if it writes one that fits: an optional `+` or `-`, then
/// one digit or more, and nothing else.
pub open spec fn parsed_i64(text: Seq<char>) -> Option<i64> {
    let negative = text.len() > 0 && text[0] == '-';
    let signed = text.len() > 0 && (text[0] == '-' || text[0] == '+');
    let digits = if signed {
        text.skip(1)
    } else {
        text
    };
    let value = if negative {
        -digits_value(digits)
    } else {
        digits_value(digits)
    };
    if digits.len() > 0 && all_digits(digits) && i64::MIN <= value <= i64::MAX {
        Some(value as i64)
    } else {
        None
    }
}

/// The digits that write the natural number `n`, without leading zeros.
pub open spec fn digits_text(n: nat) -> Seq<char>
    decreases n,
{
    if n < 10 {
        seq![digit_of(n as int)]
    } else {
        digits_text(n / 10).push(digit_of((n % 10) as int))
    }
}

/// The number `n` written in decimal digits, with `-` before a negative one.
pub open spec fn decimal_text(n: int) -> Seq<char> {
    if n < 0 {
        seq!['-'] + digits_text((-n) as nat)
    } else {
        digits_text(n as nat)
    }
}

/// The value of digits does not shrink when digits are put behind them.
pub proof fn lemma_digits_value_grows(digits: Seq<char>, k: int)
    requires
        all_digits(digits),
        0 <= k <= digits.len(),
    ensures
        0 <= digits_value(digits.take(k)) <= digits_value(digits),
    decreases digits.len(),
{
    lemma_digits_value_nonnegative(digits);
    if k == digits.len() {
        assert(digits.take(k) =~= digits);
    } else {
        let front = digits.drop_last();
        assert(all_digits(front)) by {
            assert forall|i: int| 0 <= i < front.len() implies is_digit(#[trigger] front[i]) by {
                assert(front[i] == digits[i]);
            }
        }
        lemma_digits_value_grows(front, k);
        assert(front.take(k) =~= digits.take(k));
        assert(is_digit(digits[digits.len() - 1]));
    }
}

/// Digits write no negative number.
pub proof fn lemma_digits_value_nonnegative(digits: Seq<char>)
    requires
        all_digits(digits),
    ensures
        digits_value(digits) >= 0,
    decreases digits.len(),
{
    if digits.len() > 0 {
        let front = digits.drop_last();
        assert(is_digit(digits[digits.len() - 1]));
        assert forall|i: int| 0 <= i < front.len() implies is_digit(#[trigger] front[i]) by {
            assert(front[i] == digits[i]);
        }
        lemma_digits_value_nonnegative(front);
    }
}

/// The digit of a number from 0 to 9 is a digit and stands for that number.
pub proof fn lemma_digit_of(d: int)
    requires
        0 <= d < 10,
    ensures
        is_digit(digit_of(d)),
        digit_value(digit_of(d)) == d,
{
    assert('0' as int == 48 && '1' as int == 49 && '2' as int == 50 && '3' as int == 51);
    assert('4' as int == 52 && '5' as int == 53 && '6' as int == 54 && '7' as int == 55);
    assert('8' as int == 56 && '9' as int == 57);
}

/// What was written is read back: the digits of `n` are digits, and their value is `n`.
pub proof fn lemma_digits_round_trip(n: nat)
    ensures
        digits_text(n).len() > 0,
        all_digits(digits_text(n)),
        digits_value(digits_text(n)) == n,
    decreases n,
{
    if n < 10 {
        lemma_digit_of(n as int);
        let whole = digits_text(n);
        assert(whole.drop_last() =~= Seq::<char>::empty());
        assert(digits_value(whole.drop_last()) == 0);
        assert(whole.last() == digit_of(n as int));
        assert(digits_value(whole) == digits_value(whole.drop_last()) * 10 + digit_value(
            whole.last(),
        ));
    } else {
        lemma_digits_round_trip(n / 10);
        lemma_digit_of((n % 10) as int);
        let front = digits_text(n / 10);
        let whole = digits_text(n);
        assert(whole.drop_last() =~= front);
        assert(whole.last() == digit_of((n % 10) as int));
        assert(digits_value(whole) == digits_value(whole.drop_last()) * 10 + digit_value(
            whole.last(),
        ));
        assert forall|i: int| 0 <= i < whole.len() implies is_digit(#[trigger] whole[i]) by {
            if i < front.len() {
                assert(whole[i] == front[i]);
            }
        }
    }
}

/// A number written by [`decimal_text`] is read back by [`parsed_i64`].
pub proof fn lemma_decimal_round_trip(n: i64)
    ensures
        parsed_i64(decimal_text(n as int)) == Some(n),
        decimal_text(n as int).len() > 0,
        forall|i: int|
            0 <= i < decimal_text(n as int).len() ==> (#[trigger] decimal_text(n as int)[i]) != '\n'
                && decimal_text(n as int)[i] != '\r',
{
    let text = decimal_text(n as int);
    if n < 0 {
        let digits = digits_text((-n) as nat);
        lemma_digits_round_trip((-n) as nat);
        assert(text.skip(1) =~= digits);
        assert forall|i: int| 0 <= i < text.len() implies (#[trigger] text[i]) != '\n' && text[i]
            != '\r' by {
            if i > 0 {
                assert(is_digit(digits[i - 1]));
            }
        }
    } else {
        lemma_digits_round_trip(n as nat);
        assert(is_digit(text[0]));
        assert forall|i: int| 0 <= i < text.len() implies (#[trigger] text[i]) != '\n' && text[i]
            != '\r' by {
            assert(is_digit(text[i]));
        }
    }
}

/// The digit for a number from 0 to 9.
fn digit_char(d: u8) -> (c: char)
    requires
        d < 10,
    ensures
        c == digit_of(d as int),
{
    match d {
        0 => '0',
        1 => '1',
        2 => '2',
        3 => '3',
        4 => '4',
        5 => '5',
        6 => '6',
        7 => '7',
        8 => '8',
        _ => '9',
    }
}

/// The value of a digit, and `None` for any other character.
fn value_of_digit(c: char) -> (d: Option<u8>)
    ensures
        match d {
            Some(v) => is_digit(c) && v == digit_value(c),
            None => !is_digit(c),
        },
{
    match c {
        '0' => Some(0),
        '1' => Some(1),
        '2' => Some(2),
        '3' => Some(3),
        '4' => Some(4),
        '5' => Some(5),
        '6' => Some(6),
        '7' => Some(7),
        '8' => Some(8),
        '9' => Some(9),
        _ => None,
    }
}

/// Writes the digits of `n` behind `out`.
fn push_digits(out: &mut String, n: u64)
    ensures
        final(out)@ == old(out)@ + digits_text(n as nat),
    decreases n,
{
    if n >= 10 {
        push_digits(out, n / 10);
    }
    let ghost before = out@;
    push_char(out, digit_char((n % 10) as u8));
    if n >= 10 {
        assert(out@ =~= old(out)@ + digits_text(n as nat));
    } else {
        assert(out@ =~= old(out)@ + digits_text(n as nat));
    }
}

/// Writes a number in decimal digits.
pub fn decimal_string(n: i64) -> (r: String)
    ensures
        r@ == decimal_text(n as int),
{
    let mut out = String::new();
    if n < 0 {
        push_char(&mut out, '-');
        let magnitude: u64 = if n == i64::MIN {
            0x8000_0000_0000_0000u64
        } else {
            (-n) as u64
        };
        push_digits(&mut out, magnitude);
        assert(out@ =~= decimal_text(n as int));
    } else {
        push_digits(&mut out, n as u64);
        assert(out@ =~= decimal_text(n as int));
    }
    out
}

/// Reads a number written in decimal digits: an optional sign, then digits only. A text that
/// is empty, holds anything else, or writes a number that does not fit is refused.
pub fn parse_i64(text: &str) -> (r: Option<i64>)
    ensures
        r == parsed_i64(text@),
{
    let n = text.unicode_len();
    if n == 0 {
        return None;
    }
    let first = text.get_char(0);
    let negative = first == '-';
    let begin: usize = if first == '-' || first == '+' {
        1
    } else {
        0
    };
    let ghost digits = if begin == 1 {
        text@.skip(1)
    } else {
        text@
    };
    assert(digits =~= text@.skip(begin as int));
    if begin >= n {
        return None;
    }
    let mut acc: u128 = 0;
    let mut i: usize = begin;
    assert(digits.take(0) =~= Seq::<char>::empty());
    while i < n
        invariant
            begin <= i <= n,
            0 < n == text@.len(),
            negative == (text@[0] == '-'),
            begin == 1 <==> (text@[0] == '-' || text@[0] == '+'),
            begin == 0 || begin == 1,
            digits == (if begin == 1 {
                text@.skip(1)
            } else {
                text@
            }),
            digits == text@.skip(begin as int),
            all_digits(digits.take(i - begin)),
            acc == digits_value(digits.take(i - begin)),
            acc <= 0x8000_0000_0000_0000u128,
        decreases n - i,
    {
        let c = text.get_char(i);
        assert(digits[i - begin] == c);
        let d = match value_of_digit(c) {
            Some(d) => d,
            None => {
                assert(!all_digits(digits));
                return None;
            },
        };
        assert(digits.take(i - begin + 1).drop_last() =~= digits.take(i - begin));
        assert(digits.take(i - begin + 1).last() == c);
        assert(all_digits(digits.take(i - begin + 1))) by {
            assert forall|k: int| 0 <= k < i - begin + 1 implies is_digit(
                #[trigger] digits.take(i - begin + 1)[k],
            ) by {
                if k < i - begin {
                    assert(digits.take(i - begin)[k] == digits[k]);
                }
            }
        }
        let next = acc * 10 + d as u128;
        if next > 0x8000_0000_0000_0000u128 {
            proof {
                if all_digits(digits) {
                    lemma_digits_value_grows(digits, i - begin + 1);
                }
            }
            return None;
        }
        acc = next;
        i += 1;
    }
    assert(digits.take(n - begin) =~= digits);
    if negative {
        if acc == 0x8000_0000_0000_0000u128 {
            Some(i64::MIN)
        } else {
            Some(-(acc as i64))
        }
    } else if acc == 0x8000_0000_0000_0000u128 {
        None
    } else {
        Some(acc as i64)
    }
}

} // verus!
