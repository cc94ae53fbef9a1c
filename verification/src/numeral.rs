//! Positional numerals, as they stand in node names.
use vstd::arithmetic::power::{lemma_pow0, lemma_pow1, pow};
use vstd::prelude::*;

verus! {

/// The character of a digit below sixteen, in lower case.
pub open spec fn digit_char(digit: nat) -> char
    recommends
        digit < 16,
{
    if digit < 10 {
        ('0' as nat + digit) as char
    } else {
        ('a' as nat + digit - 10) as char
    }
}

/// The shortest numeral of `n` in base `base`.
pub open spec fn digits(n: nat, base: nat) -> Seq<char>
    recommends
        2 <= base <= 16,
    decreases n,
{
    if n < base || base < 2 {
        seq![digit_char(n)]
    } else {
        proof {
            assert(n / base < n) by (nonlinear_arith)
                requires
                    2 <= base <= n,
            ;
        }
        digits(n / base, base).push(digit_char(n % base))
    }
}

/// `n` in base sixteen, without leading zeros.
pub open spec fn hex(n: nat) -> Seq<char> {
    digits(n, 16)
}

/// `n` in base ten, without leading zeros.
pub open spec fn decimal(n: nat) -> Seq<char> {
    digits(n, 10)
}

/// `count` times the digit zero.
pub open spec fn zeros(count: nat) -> Seq<char> {
    Seq::new(count, |i: int| '0')
}

/// `n` in base sixteen, filled with leading zeros up to `width` digits; longer where `n` needs
/// more digits than that.
pub open spec fn padded_hex(n: nat, width: nat) -> Seq<char> {
    if hex(n).len() < width {
        zeros((width - hex(n).len()) as nat) + hex(n)
    } else {
        hex(n)
    }
}

/// The number that a digit stands for.
pub open spec fn digit_value(c: char) -> nat {
    if '0' <= c <= '9' {
        (c as nat - '0' as nat) as nat
    } else {
        (c as nat - 'a' as nat + 10) as nat
    }
}

/// The number that a numeral stands for, leading zeros included.
pub open spec fn value(numeral: Seq<char>, base: nat) -> nat
    decreases numeral.len(),
{
    if numeral.len() == 0 {
        0
    } else {
        value(numeral.drop_last(), base) * base + digit_value(numeral.last())
    }
}

/// Whether a character is a digit of base sixteen in lower case.
pub open spec fn is_hex_digit(c: char) -> bool {
    '0' <= c <= '9' || 'a' <= c <= 'f'
}

fn digit_text(digit: u64) -> (text: &'static str)
    requires
        digit < 16,
    ensures
        text@ == seq![digit_char(digit as nat)],
{
    proof {
        reveal_strlit("0");
        reveal_strlit("1");
        reveal_strlit("2");
        reveal_strlit("3");
        reveal_strlit("4");
        reveal_strlit("5");
        reveal_strlit("6");
        reveal_strlit("7");
        reveal_strlit("8");
        reveal_strlit("9");
        reveal_strlit("a");
        reveal_strlit("b");
        reveal_strlit("c");
        reveal_strlit("d");
        reveal_strlit("e");
        reveal_strlit("f");
    }
    match digit {
        0 => "0",
        1 => "1",
        2 => "2",
        3 => "3",
        4 => "4",
        5 => "5",
        6 => "6",
        7 => "7",
        8 => "8",
        9 => "9",
        10 => "a",
        11 => "b",
        12 => "c",
        13 => "d",
        14 => "e",
        _ => "f",
    }
}

proof fn lemma_quotient_is_smaller(n: nat, base: nat)
    by (nonlinear_arith)
    requires
        2 <= base <= n,
    ensures
        0 <= n / base < n,
{
}

proof fn lemma_remainder_is_a_digit(n: nat, base: nat)
    by (nonlinear_arith)
    requires
        2 <= base,
    ensures
        0 <= n % base < base,
        n < base ==> n % base == n,
{
}

/// Appends the shortest numeral of `n` to `out`.
pub fn push_digits(out: &mut String, n: u64, base: u64)
    requires
        2 <= base <= 16,
    ensures
        final(out)@ == old(out)@ + digits(n as nat, base as nat),
    decreases n,
{
    if n >= base {
        proof {
            lemma_quotient_is_smaller(n as nat, base as nat);
        }
        push_digits(out, n / base, base);
    }
    proof {
        lemma_remainder_is_a_digit(n as nat, base as nat);
    }
    out.append(digit_text(n % base));
}

proof fn lemma_padded_hex_unfolds(n: nat, width: nat)
    ensures
        n < 16 && width > 0 ==> padded_hex(n, width) == zeros((width - 1) as nat).push(digit_char(n)),
        n < 16 && width == 0 ==> padded_hex(n, width) == seq![digit_char(n)],
        n >= 16 && width > 0 ==> padded_hex(n, width) == padded_hex(n / 16, (width - 1) as nat).push(
            digit_char(n % 16),
        ),
        n >= 16 && width == 0 ==> padded_hex(n, width) == padded_hex(n / 16, 0).push(
            digit_char(n % 16),
        ),
{
    if n < 16 {
        assert(hex(n) == seq![digit_char(n)]);
        if width > 0 {
            assert(padded_hex(n, width) =~= zeros((width - 1) as nat).push(digit_char(n)));
        }
    } else {
        assert(hex(n) == hex(n / 16).push(digit_char(n % 16)));
        if width > 0 {
            assert(padded_hex(n, width) =~= padded_hex(n / 16, (width - 1) as nat).push(
                digit_char(n % 16),
            ));
        }
    }
}

/// Appends `n` in base sixteen to `out`, filled with leading zeros up to `width` digits.
pub fn push_padded_hex(out: &mut String, n: u64, width: usize)
    ensures
        final(out)@ == old(out)@ + padded_hex(n as nat, width as nat),
    decreases n,
{
    proof {
        lemma_padded_hex_unfolds(n as nat, width as nat);
    }
    if n >= 16 {
        push_padded_hex(out, n / 16, if width > 0 { width - 1 } else { 0 });
    } else if width > 1 {
        let mut filled: usize = 0;
        while filled < width - 1
            invariant
                filled <= width - 1,
                out@ == old(out)@ + zeros(filled as nat),
            decreases width - filled,
        {
            proof {
                reveal_strlit("0");
            }
            out.append("0");
            filled = filled + 1;
            assert(out@ =~= old(out)@ + zeros(filled as nat));
        }
    }
    out.append(digit_text(n % 16));
}

/// The character of a digit stands for that digit.
pub proof fn lemma_digit_char(digit: nat)
    requires
        digit < 16,
    ensures
        digit_value(digit_char(digit)) == digit,
        is_hex_digit(digit_char(digit)),
{
}

/// A numeral stands for the number it was made of, and holds digits only.
pub proof fn lemma_digits(n: nat, base: nat)
    requires
        2 <= base <= 16,
    ensures
        value(digits(n, base), base) == n,
        digits(n, base).len() >= 1,
        forall|i: int| 0 <= i < digits(n, base).len() ==> is_hex_digit(#[trigger] digits(n, base)[i]),
    decreases n,
{
    reveal_with_fuel(value, 2);
    if n < base {
        lemma_digit_char(n);
        assert(digits(n, base).drop_last() =~= Seq::<char>::empty());
    } else {
        lemma_quotient_is_smaller(n, base);
        lemma_remainder_is_a_digit(n, base);
        lemma_digits(n / base, base);
        lemma_digit_char(n % base);
        assert(digits(n, base).drop_last() =~= digits(n / base, base));
        assert((n / base) * base + n % base == n) by (nonlinear_arith)
            requires
                base >= 2,
        ;
    }
}

/// The value of two numerals written one behind the other.
pub proof fn lemma_value_of_concatenation(high: Seq<char>, low: Seq<char>, base: nat)
    ensures
        value(high + low, base) == value(high, base) * pow(base as int, low.len()) + value(low, base),
    decreases low.len(),
{
    if low.len() == 0 {
        assert(high + low =~= high);
        lemma_pow0(base as int);
    } else {
        let init = low.drop_last();
        lemma_value_of_concatenation(high, init, base);
        assert((high + low).drop_last() =~= high + init);
        lemma_pow1_step(base, init.len());
        let h = value(high, base) as int;
        let p = pow(base as int, init.len());
        let v = value(init, base) as int;
        assert((h * p + v) * base == h * (base * p) + v * base) by (nonlinear_arith);
    }
}

proof fn lemma_pow1_step(base: nat, exponent: nat)
    ensures
        pow(base as int, exponent + 1) == base * pow(base as int, exponent),
{
    reveal(pow);
}

proof fn lemma_value_of_zeros(count: nat, base: nat)
    ensures
        value(zeros(count), base) == 0,
    decreases count,
{
    if count > 0 {
        assert(zeros(count).drop_last() =~= zeros((count - 1) as nat));
        lemma_value_of_zeros((count - 1) as nat, base);
        assert(0 * base == 0) by (nonlinear_arith);
    }
}

proof fn lemma_digits_len(n: nat, width: nat)
    requires
        width >= 1,
        n < pow(16, width),
    ensures
        hex(n).len() <= width,
    decreases width,
{
    if n >= 16 {
        if width == 1 {
            lemma_pow1(16);
        } else {
            lemma_pow1_step(16, (width - 1) as nat);
            lemma_digits_len(n / 16, (width - 1) as nat);
        }
    }
}

/// A padded numeral stands for the number it was made of and holds digits only; it is exactly
/// `width` digits long where the number has no more digits than that.
pub proof fn lemma_padded_hex(n: nat, width: nat)
    requires
        width >= 1,
    ensures
        value(padded_hex(n, width), 16) == n,
        padded_hex(n, width).len() >= width,
        n < pow(16, width) ==> padded_hex(n, width).len() == width,
        forall|i: int|
            0 <= i < padded_hex(n, width).len() ==> is_hex_digit(#[trigger] padded_hex(n, width)[i]),
{
    lemma_digits(n, 16);
    if n < pow(16, width) {
        lemma_digits_len(n, width);
    }
    if hex(n).len() < width {
        let fill = zeros((width - hex(n).len()) as nat);
        lemma_value_of_zeros(fill.len(), 16);
        lemma_value_of_concatenation(fill, hex(n), 16);
        assert(0 * pow(16, hex(n).len()) == 0) by (nonlinear_arith);
    }
}

/// The digits are written `0` to `9` and `a` to `f`, and each stands for its place in that order.
pub proof fn law_digits_are_written_in_order(digit: nat)
    requires
        digit < 16,
    ensures
        digit_char(digit) == "0123456789abcdef"@[digit as int],
        digit_value("0123456789abcdef"@[digit as int]) == digit,
{
    reveal_strlit("0123456789abcdef");
}

/// Whether a text is how `n` is written in a base with at least `width` digits: it stands for `n`,
/// and leading zeros only fill it up.
pub open spec fn is_numeral(text: Seq<char>, n: nat, base: nat, width: nat) -> bool {
    &&& text.len() >= 1
    &&& text.len() >= width
    &&& value(text, base) == n
    &&& forall|i: int|
        0 <= i < text.len() ==> is_hex_digit(#[trigger] text[i]) && digit_value(text[i]) < base
    &&& text.len() > width && text.len() > 1 ==> text[0] != '0'
}

/// A numeral of as many digits stands for less than the power of the base to that number, and for no
/// less than the power below where it does not begin with a zero.
proof fn lemma_value_bounds(text: Seq<char>, base: nat)
    requires
        2 <= base,
        forall|i: int|
            0 <= i < text.len() ==> is_hex_digit(#[trigger] text[i]) && digit_value(text[i]) < base,
    ensures
        value(text, base) < pow(base as int, text.len()),
        text.len() > 0 && text[0] != '0' ==> value(text, base) >= pow(
            base as int,
            (text.len() - 1) as nat,
        ),
    decreases text.len(),
{
    lemma_pow0(base as int);
    if text.len() > 0 {
        let init = text.drop_last();
        assert forall|i: int| 0 <= i < init.len() implies is_hex_digit(#[trigger] init[i])
            && digit_value(init[i]) < base by {
            assert(init[i] == text[i]);
        }
        lemma_value_bounds(init, base);
        lemma_pow1_step(base, init.len());
        let v = value(init, base) as int;
        let p = pow(base as int, init.len());
        let d = digit_value(text.last()) as int;
        assert(text.last() == text[text.len() - 1]);
        assert(v * base + d < base * p) by (nonlinear_arith)
            requires
                v + 1 <= p,
                0 <= d < base,
                base >= 2,
        ;
        if text[0] != '0' {
            if init.len() == 0 {
                assert(d >= 1);
                assert(value(init, base) == 0);
            } else {
                assert(init[0] == text[0]);
                let q = pow(base as int, (init.len() - 1) as nat);
                lemma_pow1_step(base, (init.len() - 1) as nat);
                assert(v * base + d >= base * q) by (nonlinear_arith)
                    requires
                        v >= q,
                        0 <= d,
                        base >= 2,
                ;
            }
        }
    }
}

/// Two numerals of the same length and value are the same.
proof fn lemma_same_value_same_digits(text: Seq<char>, other: Seq<char>, base: nat)
    requires
        2 <= base,
        text.len() == other.len(),
        value(text, base) == value(other, base),
        forall|i: int|
            0 <= i < text.len() ==> is_hex_digit(#[trigger] text[i]) && digit_value(text[i]) < base,
        forall|i: int|
            0 <= i < other.len() ==> is_hex_digit(#[trigger] other[i]) && digit_value(other[i]) < base,
    ensures
        text == other,
    decreases text.len(),
{
    if text.len() > 0 {
        let init = text.drop_last();
        let other_init = other.drop_last();
        let v = value(init, base) as int;
        let w = value(other_init, base) as int;
        let d = digit_value(text.last()) as int;
        let e = digit_value(other.last()) as int;
        assert(text.last() == text[text.len() - 1]);
        assert(other.last() == other[other.len() - 1]);
        assert(v == w && d == e) by (nonlinear_arith)
            requires
                v * base + d == w * base + e,
                0 <= d < base,
                0 <= e < base,
                base >= 2,
        ;
        lemma_same_value_same_digits(init, other_init, base);
        assert(text =~= init.push(text.last()));
        assert(other =~= other_init.push(other.last()));
    } else {
        assert(text =~= other);
    }
}

/// A longer power is no smaller.
proof fn lemma_pow_grows(base: nat, low: nat, high: nat)
    requires
        2 <= base,
        low <= high,
    ensures
        0 < pow(base as int, low) <= pow(base as int, high),
    decreases high,
{
    if low < high {
        lemma_pow_grows(base, low, (high - 1) as nat);
        lemma_pow1_step(base, (high - 1) as nat);
        let p = pow(base as int, (high - 1) as nat);
        assert(base * p >= p) by (nonlinear_arith)
            requires
                base >= 2,
                p > 0,
        ;
    } else if high > 0 {
        lemma_pow_grows(base, (high - 1) as nat, (high - 1) as nat);
        lemma_pow1_step(base, (high - 1) as nat);
        let p = pow(base as int, (high - 1) as nat);
        assert(base * p > 0) by (nonlinear_arith)
            requires
                base >= 2,
                p > 0,
        ;
    } else {
        lemma_pow0(base as int);
    }
}

proof fn lemma_numeral_is_no_shorter(
    text: Seq<char>,
    other: Seq<char>,
    n: nat,
    base: nat,
    width: nat,
)
    requires
        2 <= base,
        is_numeral(text, n, base, width),
        is_numeral(other, n, base, width),
    ensures
        text.len() >= other.len(),
{
    lemma_value_bounds(text, base);
    lemma_value_bounds(other, base);
    if text.len() < other.len() {
        lemma_pow_grows(base, text.len(), (other.len() - 1) as nat);
    }
}

/// A number is written in one way in a base with at least a given number of digits.
pub proof fn law_numeral_is_unique(
    text: Seq<char>,
    other: Seq<char>,
    n: nat,
    base: nat,
    width: nat,
)
    requires
        2 <= base,
        is_numeral(text, n, base, width),
        is_numeral(other, n, base, width),
    ensures
        text == other,
{
    lemma_numeral_is_no_shorter(text, other, n, base, width);
    lemma_numeral_is_no_shorter(other, text, n, base, width);
    lemma_same_value_same_digits(text, other, base);
}

/// The digits of a number are below the base, and the first is no zero unless it is the only one.
proof fn lemma_digits_are_minimal(n: nat, base: nat)
    requires
        2 <= base <= 16,
    ensures
        forall|i: int|
            0 <= i < digits(n, base).len() ==> digit_value(#[trigger] digits(n, base)[i]) < base,
        n > 0 ==> digits(n, base)[0] != '0',
        n < base ==> digits(n, base).len() == 1,
    decreases n,
{
    if n < base {
        lemma_digit_char(n);
    } else {
        lemma_quotient_is_smaller(n, base);
        lemma_remainder_is_a_digit(n, base);
        lemma_digit_char(n % base);
        lemma_digits_are_minimal(n / base, base);
        lemma_digits(n / base, base);
        assert(n / base > 0) by (nonlinear_arith)
            requires
                2 <= base <= n,
        ;
        let init = digits(n / base, base);
        assert forall|i: int| 0 <= i < digits(n, base).len() implies digit_value(
            #[trigger] digits(n, base)[i],
        ) < base by {
            if i < init.len() {
                assert(digits(n, base)[i] == init[i]);
            }
        }
        assert(digits(n, base)[0] == init[0]);
    }
}

/// The shortest numeral of a number is how it is written with at least one digit.
pub proof fn law_digits_write_the_number(n: nat, base: nat)
    requires
        2 <= base <= 16,
    ensures
        is_numeral(digits(n, base), n, base, 1),
{
    lemma_digits(n, base);
    lemma_digits_are_minimal(n, base);
}

/// A padded numeral is how a number is written with at least that many digits.
pub proof fn law_padding_writes_the_number(n: nat, width: nat)
    requires
        width >= 1,
    ensures
        is_numeral(padded_hex(n, width), n, 16, width),
{
    lemma_padded_hex(n, width);
    lemma_digits_are_minimal(n, 16);
    lemma_digits(n, 16);
    let text = padded_hex(n, width);
    let fill = text.len() - hex(n).len();
    assert forall|i: int| 0 <= i < text.len() implies digit_value(#[trigger] text[i]) < 16 by {
        if i < fill {
            assert(text[i] == '0');
        } else {
            assert(text[i] == hex(n)[i - fill]);
        }
    }
}

}
