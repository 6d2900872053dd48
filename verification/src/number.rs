//! Numbers written in decimal digits.
//!
//! Two readings of a text are defined here: as an unsigned integer, a run
//! of digits and nothing else, and as a non-negative decimal such as
//! `609773.79`, of which only the whole part is kept.

use vstd::prelude::*;
use vstd::string::StringExecFns;

verus! {

/// Whether `c` is one of the digits `0` to `9`.
pub open spec fn is_digit(c: char) -> bool {
    '0' <= c <= '9'
}

/// The number that the digit `c` stands for.
pub open spec fn digit_value(c: char) -> nat {
    if is_digit(c) {
        (c as int - '0' as int) as nat
    } else {
        0
    }
}

/// Whether `s` holds digits only.
pub open spec fn all_digits(s: Seq<char>) -> bool {
    forall|i: int| 0 <= i < s.len() ==> is_digit(#[trigger] s[i])
}

/// The number that the digits of `s` write in base ten.
pub open spec fn digits_value(s: Seq<char>) -> nat
    decreases s.len(),
{
    if s.len() == 0 {
        0
    } else {
        10 * digits_value(s.drop_last()) + digit_value(s.last())
    }
}

/// `s` read as an unsigned integer: a non-empty run of digits whose value
/// fits in 64 bits.
pub open spec fn unsigned_value(s: Seq<char>) -> Option<u64> {
    if s.len() > 0 && all_digits(s) && digits_value(s) <= u64::MAX {
        Some(digits_value(s) as u64)
    } else {
        None
    }
}

/// The number of digits that `s` starts with.
pub open spec fn leading_digits(s: Seq<char>) -> nat
    decreases s.len(),
{
    if s.len() > 0 && is_digit(s[0]) {
        1 + leading_digits(s.drop_first())
    } else {
        0
    }
}

/// Whether `s` writes a non-negative decimal: digits and at most one
/// point, wherever it stands, with at least one digit.
pub open spec fn is_decimal(s: Seq<char>) -> bool {
    &&& forall|i: int| 0 <= i < s.len() ==> is_digit(#[trigger] s[i]) || s[i] == '.'
    &&& forall|i: int, j: int|
        0 <= i < j < s.len() ==> !(#[trigger] s[i] == '.' && #[trigger] s[j] == '.')
    &&& exists|i: int| 0 <= i < s.len() && is_digit(#[trigger] s[i])
}

/// Whether `s` is made of digits that are followed by nothing or by a
/// point and digits, with a digit on one side at least.
pub open spec fn is_whole_and_fraction(s: Seq<char>) -> bool {
    let whole = leading_digits(s) as int;
    if whole == s.len() {
        whole > 0
    } else {
        s[whole] == '.' && all_digits(s.skip(whole + 1)) && s.len() > 1
    }
}

/// The digits that `s` has after its point; none where it has no point.
pub open spec fn fraction_digits(s: Seq<char>) -> Seq<char> {
    if leading_digits(s) < s.len() {
        s.skip(leading_digits(s) as int + 1)
    } else {
        Seq::empty()
    }
}

/// Ten to the power of `n`.
pub open spec fn pow10(n: nat) -> nat
    decreases n,
{
    if n == 0 {
        1
    } else {
        10 * pow10((n - 1) as nat)
    }
}

/// The whole part of the decimal that `s` writes: the value of the digits
/// before the point.
pub open spec fn decimal_floor(s: Seq<char>) -> nat {
    digits_value(s.take(leading_digits(s) as int))
}

/// `n`, or the greatest 64-bit number where `n` is beyond it.
pub open spec fn saturate(n: nat) -> u64 {
    if n <= u64::MAX {
        n as u64
    } else {
        u64::MAX
    }
}

/// `s` read as a non-negative decimal and rounded down to a whole number.
/// A whole part beyond 64 bits gives the greatest 64-bit number.
pub open spec fn floor_value(s: Seq<char>) -> Option<u64> {
    if is_decimal(s) {
        Some(saturate(decimal_floor(s)))
    } else {
        None
    }
}

/// The digit that stands for `d`, a number below ten.
pub open spec fn digit_char(d: nat) -> char {
    ((d + 48) as u8) as char
}

/// `n` written in decimal digits, without leading zeros.
pub open spec fn decimal_text(n: nat) -> Seq<char>
    decreases n,
{
    if n < 10 {
        seq![digit_char(n)]
    } else {
        decimal_text(n / 10).push(digit_char(n % 10))
    }
}

/// Appending a digit multiplies the value by ten and adds the digit.
pub proof fn lemma_digits_value_push(s: Seq<char>, c: char)
    ensures
        digits_value(s.push(c)) == 10 * digits_value(s) + digit_value(c),
{
    assert(s.push(c).drop_last() == s);
}

/// The value of a prefix is no greater than the value of the whole.
pub proof fn lemma_digits_value_prefix(s: Seq<char>, n: int)
    requires
        0 <= n <= s.len(),
    ensures
        digits_value(s.take(n)) <= digits_value(s),
    decreases s.len(),
{
    if n == s.len() {
        assert(s.take(n) == s);
    } else {
        lemma_digits_value_prefix(s.drop_last(), n);
        assert(s.drop_last().take(n) == s.take(n));
    }
}

/// The first `leading_digits(s)` characters of `s` are digits, and the one
/// after them, if there is one, is not.
pub proof fn lemma_leading_digits(s: Seq<char>)
    ensures
        leading_digits(s) <= s.len(),
        all_digits(s.take(leading_digits(s) as int)),
        leading_digits(s) < s.len() ==> !is_digit(s[leading_digits(s) as int]),
    decreases s.len(),
{
    if s.len() > 0 && is_digit(s[0]) {
        let rest = s.drop_first();
        lemma_leading_digits(rest);
        let n = leading_digits(s) as int;
        assert forall|i: int| 0 <= i < n implies is_digit(#[trigger] s.take(n)[i]) by {
            if i > 0 {
                assert(s[i] == rest.take(n - 1)[i - 1]);
            }
        }
        if n < s.len() {
            assert(s[n] == rest[n - 1]);
        }
    }
}

/// A run of `n` digits that ends the text or is followed by another
/// character is all the digits that the text starts with.
pub proof fn lemma_leading_digits_unique(s: Seq<char>, n: nat)
    requires
        n <= s.len(),
        forall|i: int| 0 <= i < n ==> is_digit(#[trigger] s[i]),
        n < s.len() ==> !is_digit(s[n as int]),
    ensures
        leading_digits(s) == n,
    decreases n,
{
    if n > 0 {
        let rest = s.drop_first();
        assert forall|i: int| 0 <= i < n - 1 implies is_digit(#[trigger] rest[i]) by {
            assert(rest[i] == s[i + 1]);
        }
        lemma_leading_digits_unique(rest, (n - 1) as nat);
    }
}

/// A decimal is a run of digits, the whole part, followed by nothing or
/// by a point and another run of digits; and every such text is a decimal.
pub proof fn lemma_decimal_shape(s: Seq<char>)
    ensures
        is_decimal(s) <==> is_whole_and_fraction(s),
{
    lemma_leading_digits(s);
    let whole = leading_digits(s) as int;
    let head = s.take(whole);
    if is_whole_and_fraction(s) {
        if whole == s.len() {
            assert(head == s);
            assert(is_digit(s[0]));
        } else {
            let tail = s.skip(whole + 1);
            assert forall|i: int| 0 <= i < s.len() implies is_digit(#[trigger] s[i]) || s[i]
                == '.' by {
                if i < whole {
                    assert(s[i] == head[i]);
                } else if i > whole {
                    assert(s[i] == tail[i - whole - 1]);
                }
            }
            assert forall|i: int, j: int| 0 <= i < j < s.len() implies !(#[trigger] s[i] == '.'
                && #[trigger] s[j] == '.') by {
                if i < whole {
                    assert(s[i] == head[i]);
                } else {
                    assert(s[j] == tail[j - whole - 1]);
                }
            }
            if whole > 0 {
                assert(s[0] == head[0]);
                assert(is_digit(s[0]));
            } else {
                assert(s[1] == tail[0]);
                assert(is_digit(s[1]));
            }
        }
    }
    if is_decimal(s) {
        if whole < s.len() {
            let tail = s.skip(whole + 1);
            assert(is_digit(s[whole]) || s[whole] == '.');
            assert forall|i: int| 0 <= i < tail.len() implies is_digit(#[trigger] tail[i]) by {
                assert(tail[i] == s[whole + 1 + i]);
                assert(is_digit(s[whole + 1 + i]) || s[whole + 1 + i] == '.');
                assert(!(s[whole] == '.' && s[whole + 1 + i] == '.'));
            }
            let digit = choose|i: int| 0 <= i < s.len() && is_digit(#[trigger] s[i]);
            assert(digit != whole);
        }
    }
}

/// Digits, a point and more digits write a decimal whose whole part is the
/// value of the digits before the point, as long as there is a digit on one
/// side of the point.
pub proof fn lemma_decimal_with_point(whole: Seq<char>, fraction: Seq<char>)
    requires
        all_digits(whole),
        all_digits(fraction),
        whole.len() + fraction.len() > 0,
    ensures
        is_decimal(whole + seq!['.'] + fraction),
        decimal_floor(whole + seq!['.'] + fraction) == digits_value(whole),
        floor_value(whole + seq!['.'] + fraction) == Some(saturate(digits_value(whole))),
{
    let s = whole + seq!['.'] + fraction;
    let n = whole.len();
    assert forall|i: int| 0 <= i < n implies is_digit(#[trigger] s[i]) by {
        assert(s[i] == whole[i]);
    }
    assert(s[n as int] == '.');
    lemma_leading_digits_unique(s, n);
    assert(s.take(n as int) == whole);
    assert(s.skip(n as int + 1) == fraction);
    lemma_decimal_shape(s);
}

/// A non-empty run of digits writes a decimal whose whole part is its
/// value.
pub proof fn lemma_decimal_without_point(whole: Seq<char>)
    requires
        all_digits(whole),
        whole.len() > 0,
    ensures
        is_decimal(whole),
        decimal_floor(whole) == digits_value(whole),
        floor_value(whole) == Some(saturate(digits_value(whole))),
{
    lemma_leading_digits_unique(whole, whole.len());
    assert(whole.take(whole.len() as int) == whole);
    lemma_decimal_shape(whole);
}

/// The value of digits followed by more digits: the first shifted left by
/// the length of the second, plus the second, which is less than one unit
/// of the first.
pub proof fn lemma_digits_value_concat(whole: Seq<char>, fraction: Seq<char>)
    ensures
        digits_value(whole + fraction) == digits_value(whole) * pow10(fraction.len())
            + digits_value(fraction),
        digits_value(fraction) < pow10(fraction.len()),
    decreases fraction.len(),
{
    let w = digits_value(whole);
    if fraction.len() == 0 {
        assert(whole + fraction == whole);
        assert(w * pow10(0) == w) by (nonlinear_arith)
            requires
                pow10(0) == 1,
        ;
    } else {
        let shorter = fraction.drop_last();
        lemma_digits_value_concat(whole, shorter);
        assert((whole + fraction).drop_last() == whole + shorter);
        assert((whole + fraction).last() == fraction.last());
        let unit = pow10(shorter.len());
        let digit = digit_value(fraction.last());
        assert(pow10(fraction.len()) == 10 * unit);
        assert(digits_value(whole + fraction) == 10 * (w * unit + digits_value(shorter)) + digit);
        assert(digits_value(fraction) == 10 * digits_value(shorter) + digit);
        assert(10 * (w * unit + digits_value(shorter)) == w * (10 * unit) + 10 * digits_value(
            shorter,
        )) by (nonlinear_arith);
        assert(digit <= 9);
    }
}

/// The whole part of a decimal is the decimal rounded down.
///
/// A decimal with `k` digits after its point is the number that its
/// digits write without the point, divided by ten to the power of `k`.
/// That number lies between the whole part times that power and the next
/// whole number times that power.
pub proof fn lemma_decimal_floor_rounds_down(s: Seq<char>)
    requires
        is_decimal(s),
    ensures
        decimal_floor(s) * pow10(fraction_digits(s).len()) <= digits_value(
            s.take(leading_digits(s) as int) + fraction_digits(s),
        ),
        digits_value(s.take(leading_digits(s) as int) + fraction_digits(s)) < (decimal_floor(s)
            + 1) * pow10(fraction_digits(s).len()),
{
    let whole = s.take(leading_digits(s) as int);
    let fraction = fraction_digits(s);
    lemma_digits_value_concat(whole, fraction);
    let unit = pow10(fraction.len());
    assert((digits_value(whole) + 1) * unit == digits_value(whole) * unit + unit)
        by (nonlinear_arith);
}

/// What is written by `decimal_text` is read back by `unsigned_value`:
/// the text of a number is a non-empty run of digits with that number as
/// its value.
pub proof fn lemma_decimal_text_reads_back(n: nat)
    ensures
        decimal_text(n).len() > 0,
        all_digits(decimal_text(n)),
        digits_value(decimal_text(n)) == n,
        n <= u64::MAX ==> unsigned_value(decimal_text(n)) == Some(n as u64),
    decreases n,
{
    if n < 10 {
        assert(decimal_text(n).drop_last() == Seq::<char>::empty());
        assert(digits_value(decimal_text(n).drop_last()) == 0);
    } else {
        lemma_decimal_text_reads_back(n / 10);
        lemma_digits_value_push(decimal_text(n / 10), digit_char(n % 10));
    }
}

/// Tells whether `c` is a digit.
pub fn is_decimal_digit(c: char) -> (yes: bool)
    ensures
        yes == is_digit(c),
{
    '0' <= c && c <= '9'
}

/// The number that the digit `c` stands for.
fn digit_of(c: char) -> (d: u64)
    requires
        is_digit(c),
    ensures
        d == digit_value(c),
        d <= 9,
{
    (c as u32 - '0' as u32) as u64
}

/// The digit that stands for `d`, as a text of one character.
fn digit_text(d: u32) -> (text: &'static str)
    requires
        d < 10,
    ensures
        text@ == seq![digit_char(d as nat)],
{
    proof {
        reveal_strlit("0");
        reveal_strlit("1");
        reveal_strlit("2");
        reveal_strlit("3");
        reveal_strlit("4");
        reveal_strlit("5");
        reveal_strlit("6");
        reveal_strlit("7");
        reveal_strlit("8");
        reveal_strlit("9");
    }
    let text = match d {
        0 => "0",
        1 => "1",
        2 => "2",
        3 => "3",
        4 => "4",
        5 => "5",
        6 => "6",
        7 => "7",
        8 => "8",
        _ => "9",
    };
    text
}

/// Writes `n` in decimal digits at the end of `out`.
pub fn append_decimal(out: &mut String, n: u32)
    ensures
        final(out)@ == old(out)@ + decimal_text(n as nat),
    decreases n,
{
    if n >= 10 {
        append_decimal(out, n / 10);
    }
    out.append(digit_text(n % 10));
}

/// Reads `text` as an unsigned integer.
///
/// Returns the number where `text` is a non-empty run of digits whose
/// value fits in 64 bits, and `None` otherwise.
pub fn parse_unsigned(text: &[char]) -> (value: Option<u64>)
    ensures
        value == unsigned_value(text@),
{
    let len = text.len();
    if len == 0 {
        return None;
    }
    let mut acc: u64 = 0;
    let mut i: usize = 0;
    while i < len
        invariant
            len == text@.len(),
            i <= len,
            all_digits(text@.take(i as int)),
            acc == digits_value(text@.take(i as int)),
        decreases len - i,
    {
        let c = text[i];
        if !is_decimal_digit(c) {
            return None;
        }
        let d = digit_of(c);
        proof {
            assert(text@.take(i + 1) == text@.take(i as int).push(c));
            lemma_digits_value_push(text@.take(i as int), c);
        }
        if acc > (u64::MAX - d) / 10 {
            proof {
                lemma_digits_value_prefix(text@, i + 1);
            }
            return None;
        }
        acc = acc * 10 + d;
        i += 1;
    }
    proof {
        assert(text@.take(len as int) == text@);
    }
    Some(acc)
}

/// Reads `text` as a non-negative decimal and rounds it down.
///
/// Returns the whole part where `text` is made of digits with at most one
/// point and holds at least one digit, and `None` otherwise. A whole part
/// beyond 64 bits comes back as the greatest 64-bit number.
pub fn parse_floor(text: &[char]) -> (value: Option<u64>)
    ensures
        value == floor_value(text@),
{
    let len = text.len();
    let mut acc: u64 = 0;
    let mut i: usize = 0;
    while i < len && is_decimal_digit(text[i])
        invariant
            len == text@.len(),
            i <= len,
            forall|j: int| 0 <= j < i ==> is_digit(#[trigger] text@[j]),
            acc == saturate(digits_value(text@.take(i as int))),
        decreases len - i,
    {
        let c = text[i];
        let d = digit_of(c);
        proof {
            assert(text@.take(i + 1) == text@.take(i as int).push(c));
            lemma_digits_value_push(text@.take(i as int), c);
        }
        if acc > (u64::MAX - d) / 10 {
            acc = u64::MAX;
        } else {
            acc = acc * 10 + d;
        }
        i += 1;
    }
    let whole = i;
    proof {
        lemma_leading_digits_unique(text@, whole as nat);
        lemma_decimal_shape(text@);
    }
    if whole == len {
        return if whole > 0 {
            Some(acc)
        } else {
            None
        };
    }
    if text[whole] != '.' {
        return None;
    }
    i = whole + 1;
    while i < len
        invariant
            len == text@.len(),
            whole < i <= len,
            leading_digits(text@) == whole,
            is_decimal(text@) <==> is_whole_and_fraction(text@),
            forall|j: int| whole < j < i ==> is_digit(#[trigger] text@[j]),
        decreases len - i,
    {
        if !is_decimal_digit(text[i]) {
            proof {
                let fraction = text@.skip(whole + 1);
                assert(fraction[i - whole - 1] == text@[i as int]);
            }
            return None;
        }
        i += 1;
    }
    proof {
        assert forall|j: int| 0 <= j < text@.skip(whole + 1).len() implies is_digit(
            #[trigger] text@.skip(whole + 1)[j],
        ) by {
            assert(text@.skip(whole + 1)[j] == text@[whole + 1 + j]);
        }
    }
    if len > 1 {
        Some(acc)
    } else {
        None
    }
}

} // verus!
