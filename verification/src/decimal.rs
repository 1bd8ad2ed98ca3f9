//! Decimal digits and the numbers that they spell.
//!
//! Two directions meet here: the lexers read digits into numbers, and the
//! texts of a point in time write numbers as digits.

use vstd::prelude::*;
use crate::text::{CharClass, all_in, is_digit};

verus! {

/// The number that a sequence of decimal digits spells; 0 for none.
pub open spec fn decimal_value(digits: Seq<char>) -> nat
    decreases digits.len(),
{
    if digits.len() == 0 {
        0
    } else {
        (decimal_value(digits.drop_last()) * 10 + (digits.last() as int - '0' as int)) as nat
    }
}

/// Ten to the power `n`.
pub open spec fn pow10(n: nat) -> nat
    decreases n,
{
    if n == 0 {
        1
    } else {
        10 * pow10((n - 1) as nat)
    }
}

/// The character of a decimal digit.
pub open spec fn digit_char(digit: int) -> char {
    if digit == 0 {
        '0'
    } else if digit == 1 {
        '1'
    } else if digit == 2 {
        '2'
    } else if digit == 3 {
        '3'
    } else if digit == 4 {
        '4'
    } else if digit == 5 {
        '5'
    } else if digit == 6 {
        '6'
    } else if digit == 7 {
        '7'
    } else if digit == 8 {
        '8'
    } else {
        '9'
    }
}

/// The last `width` decimal digits of `n`, zeros in front where `n` has
/// fewer.
pub open spec fn fixed_digits(n: int, width: int) -> Seq<char>
    decreases width,
{
    if width <= 0 {
        Seq::empty()
    } else {
        fixed_digits(n / 10, width - 1).push(digit_char(n % 10))
    }
}

/// The decimal digits of `n`, as many as it has.
pub open spec fn digits_of(n: int) -> Seq<char>
    decreases n,
{
    if n < 10 {
        seq![digit_char(n)]
    } else {
        digits_of(n / 10).push(digit_char(n % 10))
    }
}

/// The decimal digits of a fraction of `width` digits, without the zeros
/// at its end.
pub open spec fn fraction_digits(n: int, width: int) -> Seq<char>
    decreases width,
{
    if width <= 0 || n % 10 != 0 {
        fixed_digits(n, width)
    } else {
        fraction_digits(n / 10, width - 1)
    }
}

/// Every power of ten is at least one.
pub proof fn lemma_pow10_positive(n: nat)
    ensures
        pow10(n) >= 1,
    decreases n,
{
    if n > 0 {
        lemma_pow10_positive((n - 1) as nat);
    }
}

/// Ten to the power `a + b` is the product of the two powers.
pub proof fn lemma_pow10_add(a: nat, b: nat)
    ensures
        pow10(a + b) == pow10(a) * pow10(b),
    decreases a,
{
    if a > 0 {
        lemma_pow10_add((a - 1) as nat, b);
        assert(pow10(a + b) == 10 * pow10((a - 1 + b) as nat));
        assert(10 * (pow10((a - 1) as nat) * pow10(b)) == (10 * pow10((a - 1) as nat)) * pow10(b))
            by (nonlinear_arith);
    } else {
        assert(pow10(a) == 1);
        assert(1 * pow10(b) == pow10(b));
    }
}

/// The powers of ten grow with their exponents.
pub proof fn lemma_pow10_grows(a: nat, b: nat)
    requires
        a <= b,
    ensures
        pow10(a) <= pow10(b),
{
    lemma_pow10_add(a, (b - a) as nat);
    lemma_pow10_positive((b - a) as nat);
    lemma_pow10_positive(a);
    assert(pow10(a) * pow10((b - a) as nat) >= pow10(a) * 1) by (nonlinear_arith)
        requires
            pow10((b - a) as nat) >= 1,
            pow10(a) >= 1,
    {
    }
}

/// A run of `n` digits spells a number below ten to the power `n`.
pub proof fn lemma_decimal_below_pow10(digits: Seq<char>)
    requires
        forall|i: int| 0 <= i < digits.len() ==> is_digit(#[trigger] digits[i]),
    ensures
        decimal_value(digits) < pow10(digits.len()),
    decreases digits.len(),
{
    if digits.len() > 0 {
        lemma_decimal_below_pow10(digits.drop_last());
        assert(is_digit(digits[digits.len() - 1]));
    }
}

/// A run of at most `width` digits spells a number below ten to the power
/// `width`.
pub proof fn lemma_decimal_below(digits: Seq<char>, width: nat)
    requires
        forall|i: int| 0 <= i < digits.len() ==> is_digit(#[trigger] digits[i]),
        digits.len() <= width,
    ensures
        decimal_value(digits) < pow10(width),
{
    lemma_decimal_below_pow10(digits);
    lemma_pow10_grows(digits.len(), width);
}

/// The powers of ten that the crate counts with.
pub proof fn lemma_pow10_values()
    ensures
        pow10(0) == 1,
        pow10(1) == 10,
        pow10(2) == 100,
        pow10(3) == 1_000,
        pow10(4) == 10_000,
        pow10(9) == 1_000_000_000,
        pow10(12) == 1_000_000_000_000,
        pow10(18) == 1_000_000_000_000_000_000,
{
    reveal_with_fuel(pow10, 19);
}

/// The character of a digit is a digit and stands for it.
pub proof fn lemma_digit_char(digit: int)
    requires
        0 <= digit <= 9,
    ensures
        is_digit(digit_char(digit)),
        digit_char(digit) as int - '0' as int == digit,
{
}

/// The `width` digits of a number below ten to the power `width` are
/// digits, as many as asked for, and spell the number.
pub proof fn lemma_fixed_digits(n: int, width: int)
    requires
        0 <= width,
        0 <= n < pow10(width as nat),
    ensures
        fixed_digits(n, width).len() == width,
        all_in(fixed_digits(n, width), CharClass::Digit),
        decimal_value(fixed_digits(n, width)) == n,
    decreases width,
{
    if width > 0 {
        let head = fixed_digits(n / 10, width - 1);
        lemma_fixed_digits(n / 10, width - 1);
        lemma_digit_char(n % 10);
        let all = fixed_digits(n, width);
        assert(all == head.push(digit_char(n % 10)));
        assert(all.drop_last() =~= head);
        assert forall|i: int| 0 <= i < all.len() implies CharClass::Digit.contains(
            #[trigger] all[i],
        ) by {
            if i < head.len() {
                assert(CharClass::Digit.contains(head[i]));
            }
        }
    }
}

/// The digits of a number are digits and spell the number, and a number
/// below ten to the power `width` has at most `width` of them.
pub proof fn lemma_digits_of(n: int, width: int)
    requires
        1 <= width,
        0 <= n < pow10(width as nat),
    ensures
        1 <= digits_of(n).len() <= width,
        all_in(digits_of(n), CharClass::Digit),
        decimal_value(digits_of(n)) == n,
        n >= 10000 ==> digits_of(n).len() > 4,
    decreases n,
{
    let all = digits_of(n);
    lemma_digit_char(n % 10);
    if n >= 10 {
        let head = digits_of(n / 10);
        lemma_pow10_values();
        lemma_digits_of(n / 10, width - 1);
        assert(all.drop_last() =~= head);
        assert(all.last() == digit_char(n % 10));
        assert forall|i: int| 0 <= i < all.len() implies CharClass::Digit.contains(
            #[trigger] all[i],
        ) by {
            if i < head.len() {
                assert(CharClass::Digit.contains(head[i]));
            }
        }
        if 10000 <= n < 100000 {
            reveal_with_fuel(digits_of, 5);
        }
    } else {
        assert(all.drop_last() =~= Seq::<char>::empty());
        assert(all.last() == digit_char(n));
        assert(decimal_value(all.drop_last()) == 0);
    }
}

/// Reads the number that the digits of `s` from `from` up to `to` spell, as
/// far as it stays below `limit`: a number at or above it gives `limit`.
pub(crate) fn read_decimal(s: &Vec<char>, from: usize, to: usize, limit: u128) -> (r: u128)
    requires
        from <= to <= s.len(),
        forall|i: int| from <= i < to ==> is_digit(#[trigger] s@[i]),
        limit <= u128::MAX / 16,
    ensures
        r == if decimal_value(s@.subrange(from as int, to as int)) < limit {
            decimal_value(s@.subrange(from as int, to as int))
        } else {
            limit as nat
        },
{
    let mut r: u128 = 0;
    let mut i: usize = from;
    assert(s@.subrange(from as int, from as int) =~= Seq::<char>::empty());
    while i < to
        invariant
            from <= i <= to <= s.len(),
            forall|i: int| from <= i < to ==> is_digit(#[trigger] s@[i]),
            limit <= u128::MAX / 16,
            r == if decimal_value(s@.subrange(from as int, i as int)) < limit {
                decimal_value(s@.subrange(from as int, i as int))
            } else {
                limit as nat
            },
        decreases to - i,
    {
        let c = s[i];
        assert(is_digit(s@[i as int]));
        let d: u128 = (c as u32 - '0' as u32) as u128;
        proof {
            let next = s@.subrange(from as int, i + 1);
            assert(next.drop_last() =~= s@.subrange(from as int, i as int));
            assert(next.last() == c);
        }
        let wide: u128 = r * 10 + d;
        r = if wide >= limit {
            limit
        } else {
            wide
        };
        i += 1;
    }
    assert(s@.subrange(from as int, i as int) =~= s@.subrange(from as int, to as int));
    r
}

/// Puts the character of the decimal digit `digit` behind `text`.
pub(crate) fn push_digit(text: &mut String, digit: u64)
    requires
        digit < 10,
    ensures
        final(text)@ == old(text)@.push(digit_char(digit as int)),
{
    proof {
        reveal_strlit("0");
        reveal_strlit("1");
        reveal_strlit("2");
        reveal_strlit("3");
        reveal_strlit("4");
        reveal_strlit("5");
        reveal_strlit("6");
        reveal_strlit("7");
        reveal_strlit("8");
        reveal_strlit("9");
    }
    let piece = if digit == 0 {
        "0"
    } else if digit == 1 {
        "1"
    } else if digit == 2 {
        "2"
    } else if digit == 3 {
        "3"
    } else if digit == 4 {
        "4"
    } else if digit == 5 {
        "5"
    } else if digit == 6 {
        "6"
    } else if digit == 7 {
        "7"
    } else if digit == 8 {
        "8"
    } else {
        "9"
    };
    assert(piece@ =~= seq![digit_char(digit as int)]);
    text.append(piece);
    assert(text@ =~= old(text)@.push(digit_char(digit as int)));
}

/// Puts the last `width` decimal digits of `n` behind `text`.
pub(crate) fn push_fixed(text: &mut String, n: u64, width: u8)
    ensures
        final(text)@ == old(text)@ + fixed_digits(n as int, width as int),
    decreases width,
{
    if width > 0 {
        push_fixed(text, n / 10, width - 1);
        push_digit(text, n % 10);
        assert(text@ =~= old(text)@ + fixed_digits(n as int, width as int));
    } else {
        assert(text@ =~= old(text)@ + fixed_digits(n as int, width as int));
    }
}

/// Puts the decimal digits of `n` behind `text`.
pub(crate) fn push_number(text: &mut String, n: u64)
    ensures
        final(text)@ == old(text)@ + digits_of(n as int),
    decreases n,
{
    if n >= 10 {
        push_number(text, n / 10);
    }
    push_digit(text, n % 10);
    assert(text@ =~= old(text)@ + digits_of(n as int));
}

/// Puts the digits of a fraction of `width` digits behind `text`, without
/// the zeros at its end.
pub(crate) fn push_fraction(text: &mut String, n: u64, width: u8)
    ensures
        final(text)@ == old(text)@ + fraction_digits(n as int, width as int),
    decreases width,
{
    if width == 0 || n % 10 != 0 {
        push_fixed(text, n, width);
    } else {
        push_fraction(text, n / 10, width - 1);
    }
}

} // verus!
