//! Decimal numerals, padded with zeros on the left to a minimum width.

use vstd::prelude::*;

verus! {

/// The digit zero, `'0'`.
pub const ZERO: u8 = 0x30;

/// The character for the digit `d`, which is below ten.
pub open spec fn digit(d: nat) -> u8
    recommends
        d < 10,
{
    (ZERO + d) as u8
}

/// Whether `byte` is one of the characters `'0'` to `'9'`.
pub open spec fn is_digit(byte: u8) -> bool {
    ZERO <= byte <= ZERO + 9
}

/// The numeral of `n` in base ten, most significant digit first, with no
/// leading zero (the numeral of zero is `"0"`).
pub open spec fn decimal(n: nat) -> Seq<u8>
    decreases n,
{
    if n < 10 {
        seq![digit(n)]
    } else {
        decimal(n / 10).push(digit(n % 10))
    }
}

/// The numeral of `n`, with as many zeros in front as it takes to reach
/// `width` characters. A numeral that is already that wide stays whole.
pub open spec fn zero_padded(n: nat, width: nat) -> Seq<u8> {
    let numeral = decimal(n);
    if numeral.len() >= width {
        numeral
    } else {
        Seq::new((width - numeral.len()) as nat, |i: int| ZERO) + numeral
    }
}

/// The number that a sequence of digit characters denotes in base ten.
pub open spec fn numeral_value(digits: Seq<u8>) -> nat
    decreases digits.len(),
{
    if digits.len() == 0 {
        0
    } else {
        (numeral_value(digits.drop_last()) * 10 + (digits.last() - ZERO)) as nat
    }
}

/// A numeral is made of digit characters, has at least one, and starts with
/// a zero only for the number zero.
pub proof fn lemma_decimal_shape(n: nat)
    ensures
        decimal(n).len() > 0,
        forall|i: int| 0 <= i < decimal(n).len() ==> is_digit(#[trigger] decimal(n)[i]),
        decimal(n)[0] == ZERO <==> n == 0,
    decreases n,
{
    if n >= 10 {
        lemma_decimal_shape(n / 10);
    }
}

/// A numeral denotes the number it was made from.
pub proof fn lemma_decimal_value(n: nat)
    ensures
        numeral_value(decimal(n)) == n,
    decreases n,
{
    let numeral = decimal(n);
    if n < 10 {
        assert(numeral_value(numeral.drop_last()) == 0);
    } else {
        lemma_decimal_value(n / 10);
        assert(numeral.drop_last() =~= decimal(n / 10));
    }
}

/// A run of zeros denotes zero.
proof fn lemma_zeros_value(count: nat)
    ensures
        numeral_value(Seq::new(count, |i: int| ZERO)) == 0,
    decreases count,
{
    if count > 0 {
        let zeros = Seq::new(count, |i: int| ZERO);
        assert(zeros.drop_last() =~= Seq::new((count - 1) as nat, |i: int| ZERO));
        lemma_zeros_value((count - 1) as nat);
    }
}

/// Zeros in front do not change what a numeral denotes.
proof fn lemma_leading_zeros_value(count: nat, digits: Seq<u8>)
    ensures
        numeral_value(Seq::new(count, |i: int| ZERO) + digits) == numeral_value(digits),
    decreases digits.len(),
{
    let zeros = Seq::new(count, |i: int| ZERO);
    if digits.len() == 0 {
        lemma_zeros_value(count);
    } else {
        assert((zeros + digits).drop_last() =~= zeros + digits.drop_last());
        lemma_leading_zeros_value(count, digits.drop_last());
    }
}

/// A padded numeral is at least `width` characters long and no longer than
/// it must be, ends with the numeral itself, holds nothing but zeros in front
/// of it, and denotes `n`.
pub proof fn lemma_zero_padded_shape(n: nat, width: nat)
    ensures
        zero_padded(n, width).len() == if decimal(n).len() >= width {
            decimal(n).len()
        } else {
            width
        },
        zero_padded(n, width).skip(zero_padded(n, width).len() - decimal(n).len()) == decimal(n),
        forall|i: int|
            0 <= i < zero_padded(n, width).len() - decimal(n).len() ==> #[trigger] zero_padded(
                n,
                width,
            )[i] == ZERO,
        numeral_value(zero_padded(n, width)) == n,
{
    let numeral = decimal(n);
    lemma_decimal_value(n);
    if numeral.len() < width {
        lemma_leading_zeros_value((width - numeral.len()) as nat, numeral);
    }
}

/// Formats `number` in base ten, padded with zeros on the left to at least
/// `width` characters.
pub fn format_padded(number: usize, width: usize) -> (text: Vec<u8>)
    ensures
        text@ == zero_padded(number as nat, width as nat),
{
    // The digits of the numeral, last one first.
    let mut reversed: Vec<u8> = Vec::new();
    let mut rest: usize = number;
    reversed.push(ZERO + (rest % 10) as u8);
    rest = rest / 10;
    while rest > 0
        invariant
            reversed@.len() > 0,
            decimal(number as nat) == (if rest > 0 {
                decimal(rest as nat)
            } else {
                Seq::empty()
            }) + reversed@.reverse(),
        decreases rest,
    {
        reversed.push(ZERO + (rest % 10) as u8);
        rest = rest / 10;
    }

    let count: usize = reversed.len();
    let padding: usize = if width > count {
        width - count
    } else {
        0
    };
    // The zeros in front, then the digits in their order.
    let mut text: Vec<u8> = Vec::new();
    let mut i: usize = 0;
    while i < padding
        invariant
            i <= padding,
            text@ == Seq::new(i as nat, |k: int| ZERO),
        decreases padding - i,
    {
        text.push(ZERO);
        i = i + 1;
    }
    let mut j: usize = count;
    while j > 0
        invariant
            j <= count,
            count == reversed@.len(),
            text@ == Seq::new(padding as nat, |k: int| ZERO) + reversed@.reverse().take(
                count - j,
            ),
        decreases j,
    {
        j = j - 1;
        text.push(reversed[j]);
    }
    text
}

} // verus!
