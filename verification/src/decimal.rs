//! Decimal text of the fixed-point numbers that prices and amounts are held
//! in: a count of `10^-8` units is written as its whole part, followed,
//! where the fraction is not zero, by a point and the fraction's digits
//! without trailing zeros.

use vstd::prelude::*;

verus! {

/// How many units make one: `10^8`.
pub const UNITS_PER_ONE: u64 = 100_000_000;

/// How many digits the fraction has before trailing zeros are dropped.
pub const FRACTION_DIGITS: u32 = 8;

/// The ASCII digit for `d`, which is below ten.
pub open spec fn digit(d: nat) -> u8 {
    (48 + d) as u8
}

/// The decimal digits of `n`, without leading zeros.
pub open spec fn digits(n: nat) -> Seq<u8>
    decreases n,
{
    if n < 10 {
        seq![digit(n)]
    } else {
        digits(n / 10).push(digit(n % 10))
    }
}

/// The last `width` decimal digits of `n`, with leading zeros.
pub open spec fn padded(n: nat, width: nat) -> Seq<u8>
    decreases width,
{
    if width == 0 {
        Seq::empty()
    } else {
        padded(n / 10, (width - 1) as nat).push(digit(n % 10))
    }
}

/// `text` without the zeros at its end.
pub open spec fn trimmed(text: Seq<u8>) -> Seq<u8>
    decreases text.len(),
{
    if text.len() > 0 && text.last() == 48u8 {
        trimmed(text.drop_last())
    } else {
        text
    }
}

/// The decimal text of a fixed-point number.
pub open spec fn decimal_text(value: u64) -> Seq<u8> {
    let whole = (value / UNITS_PER_ONE) as nat;
    let fraction = (value % UNITS_PER_ONE) as nat;
    if fraction == 0 {
        digits(whole)
    } else {
        digits(whole).push(46u8) + trimmed(padded(fraction, FRACTION_DIGITS as nat))
    }
}

/// Appends the decimal digits of `n`.
pub fn push_digits(out: &mut Vec<u8>, n: u64)
    ensures
        final(out)@ == old(out)@ + digits(n as nat),
    decreases n,
{
    if n >= 10 {
        push_digits(out, n / 10);
    }
    let d: u8 = (n % 10) as u8;
    out.push(48u8 + d);
    proof {
        assert(final(out)@ =~= old(out)@ + digits(n as nat));
    }
}

/// Appends the last `width` decimal digits of `n`, with leading zeros.
pub fn push_padded(out: &mut Vec<u8>, n: u64, width: u32)
    ensures
        final(out)@ == old(out)@ + padded(n as nat, width as nat),
    decreases width,
{
    if width > 0 {
        push_padded(out, n / 10, width - 1);
        let d: u8 = (n % 10) as u8;
        out.push(48u8 + d);
    }
    proof {
        assert(final(out)@ =~= old(out)@ + padded(n as nat, width as nat));
    }
}

/// Appends the decimal text of a fixed-point number.
pub fn push_decimal(out: &mut Vec<u8>, value: u64)
    ensures
        final(out)@ == old(out)@ + decimal_text(value),
{
    let whole: u64 = value / UNITS_PER_ONE;
    let fraction: u64 = value % UNITS_PER_ONE;
    push_digits(out, whole);
    if fraction != 0 {
        out.push(46u8);
        let mut tail: Vec<u8> = Vec::new();
        push_padded(&mut tail, fraction, FRACTION_DIGITS);
        let ghost full = tail@;
        assert(full =~= padded(fraction as nat, FRACTION_DIGITS as nat));
        while tail.len() > 0 && tail[tail.len() - 1] == 48u8
            invariant
                trimmed(tail@) == trimmed(full),
            decreases tail.len(),
        {
            proof {
                assert(tail@.last() == 48u8);
            }
            tail.pop();
        }
        assert(trimmed(tail@) == tail@);
        let ghost head = out@;
        let mut k: usize = 0;
        while k < tail.len()
            invariant
                k <= tail.len(),
                out@ == head + tail@.take(k as int),
            decreases tail.len() - k,
        {
            out.push(tail[k]);
            proof {
                assert(tail@.take(k + 1) =~= tail@.take(k as int).push(tail@[k as int]));
                assert(out@ =~= head + tail@.take(k + 1));
            }
            k += 1;
        }
        proof {
            assert(tail@.take(k as int) =~= tail@);
            assert(out@ =~= old(out)@ + decimal_text(value));
        }
    } else {
        proof {
            assert(out@ =~= old(out)@ + decimal_text(value));
        }
    }
}

/// The decimal text of a fixed-point number.
pub fn decimal_bytes(value: u64) -> (text: Vec<u8>)
    ensures
        text@ == decimal_text(value),
{
    let mut text: Vec<u8> = Vec::new();
    push_decimal(&mut text, value);
    proof {
        assert(text@ =~= decimal_text(value));
    }
    text
}

/// The character for the digit `d`, which is below ten.
pub open spec fn digit_char(d: nat) -> char {
    if d == 0 {
        '0'
    } else if d == 1 {
        '1'
    } else if d == 2 {
        '2'
    } else if d == 3 {
        '3'
    } else if d == 4 {
        '4'
    } else if d == 5 {
        '5'
    } else if d == 6 {
        '6'
    } else if d == 7 {
        '7'
    } else if d == 8 {
        '8'
    } else {
        '9'
    }
}

/// The decimal digits of `n` as characters, without leading zeros.
pub open spec fn nat_text(n: nat) -> Seq<char>
    decreases n,
{
    if n < 10 {
        seq![digit_char(n)]
    } else {
        nat_text(n / 10).push(digit_char(n % 10))
    }
}

/// The decimal text of an integer: a minus sign before a negative one.
pub open spec fn int_text(n: int) -> Seq<char> {
    if n < 0 {
        seq!['-'] + nat_text((-n) as nat)
    } else {
        nat_text(n as nat)
    }
}

/// The digit `d` as text.
fn digit_str(d: u64) -> (text: &'static str)
    requires
        d < 10,
    ensures
        text@ == seq![digit_char(d as nat)],
{
    proof {
        reveal_strlit("0");
        reveal_strlit("1");
        reveal_strlit("2");
        reveal_strlit("3");
        reveal_strlit("4");
        reveal_strlit("5");
        reveal_strlit("6");
        reveal_strlit("7");
        reveal_strlit("8");
        reveal_strlit("9");
    }
    let text = if d == 0 {
        "0"
    } else if d == 1 {
        "1"
    } else if d == 2 {
        "2"
    } else if d == 3 {
        "3"
    } else if d == 4 {
        "4"
    } else if d == 5 {
        "5"
    } else if d == 6 {
        "6"
    } else if d == 7 {
        "7"
    } else if d == 8 {
        "8"
    } else {
        "9"
    };
    assert(text@ =~= seq![digit_char(d as nat)]);
    text
}

/// Appends the decimal digits of `n`.
pub fn push_nat(out: &mut String, n: u64)
    ensures
        final(out)@ == old(out)@ + nat_text(n as nat),
    decreases n,
{
    if n >= 10 {
        push_nat(out, n / 10);
    }
    out.append(digit_str(n % 10));
    proof {
        assert(final(out)@ =~= old(out)@ + nat_text(n as nat));
    }
}

/// Appends the decimal text of `n`.
pub fn push_int(out: &mut String, n: i64)
    ensures
        final(out)@ == old(out)@ + int_text(n as int),
{
    if n < 0 {
        proof {
            reveal_strlit("-");
        }
        out.append("-");
        let magnitude: u64 = ((-(n + 1)) as u64) + 1;
        push_nat(out, magnitude);
        proof {
            assert("-"@ =~= seq!['-']);
            assert(final(out)@ =~= old(out)@ + int_text(n as int));
        }
    } else {
        push_nat(out, n as u64);
    }
}

/// Whether every byte of `text` is an ASCII digit.
pub open spec fn all_digits(text: Seq<u8>) -> bool {
    forall|i: int| 0 <= i < text.len() ==> 48 <= #[trigger] text[i] <= 57
}

/// The digits of a number are digits, and there is at least one.
pub proof fn lemma_digits_are_digits(n: nat)
    ensures
        digits(n).len() >= 1,
        all_digits(digits(n)),
    decreases n,
{
    if n >= 10 {
        lemma_digits_are_digits(n / 10);
    }
}

/// Two numbers with the same digits are the same number.
pub proof fn lemma_digits_injective(a: nat, b: nat)
    requires
        digits(a) == digits(b),
    ensures
        a == b,
    decreases a,
{
    lemma_digits_are_digits(a / 10);
    lemma_digits_are_digits(b / 10);
    if a < 10 && b < 10 {
        assert(digits(a)[0] == digit(a));
        assert(digits(b)[0] == digit(b));
    } else if a >= 10 && b >= 10 {
        let da = digits(a / 10);
        let db = digits(b / 10);
        assert(digits(a) == da.push(digit(a % 10)));
        assert(digits(b) == db.push(digit(b % 10)));
        assert(da.push(digit(a % 10)).last() == digit(a % 10));
        assert(db.push(digit(b % 10)).last() == digit(b % 10));
        assert(da.push(digit(a % 10)).drop_last() =~= da);
        assert(db.push(digit(b % 10)).drop_last() =~= db);
        assert(digit(a % 10) == digit(b % 10));
        assert(a % 10 == b % 10);
        lemma_digits_injective(a / 10, b / 10);
        assert(a == 10 * (a / 10) + a % 10);
        assert(b == 10 * (b / 10) + b % 10);
    } else if a < 10 {
        assert(digits(a).len() == 1);
        assert(digits(b).len() == digits(b / 10).len() + 1);
    } else {
        assert(digits(b).len() == 1);
        assert(digits(a).len() == digits(a / 10).len() + 1);
    }
}

/// Ten to the power of `width`.
pub open spec fn pow10(width: nat) -> nat
    decreases width,
{
    if width == 0 {
        1
    } else {
        10 * pow10((width - 1) as nat)
    }
}

/// Padded digits are digits, `width` of them.
pub proof fn lemma_padded_are_digits(n: nat, width: nat)
    ensures
        padded(n, width).len() == width,
        all_digits(padded(n, width)),
    decreases width,
{
    if width > 0 {
        lemma_padded_are_digits(n / 10, (width - 1) as nat);
    }
}

/// Two numbers that fit `width` digits and have the same padded digits are
/// the same number.
pub proof fn lemma_padded_injective(a: nat, b: nat, width: nat)
    requires
        a < pow10(width),
        b < pow10(width),
        padded(a, width) == padded(b, width),
    ensures
        a == b,
    decreases width,
{
    if width > 0 {
        let pa = padded(a / 10, (width - 1) as nat);
        let pb = padded(b / 10, (width - 1) as nat);
        assert(padded(a, width) == pa.push(digit(a % 10)));
        assert(padded(b, width) == pb.push(digit(b % 10)));
        assert(pa.push(digit(a % 10)).last() == digit(a % 10));
        assert(pb.push(digit(b % 10)).last() == digit(b % 10));
        assert(pa.push(digit(a % 10)).drop_last() =~= pa);
        assert(pb.push(digit(b % 10)).drop_last() =~= pb);
        assert(digit(a % 10) == digit(b % 10));
        assert(a % 10 == b % 10);
        lemma_padded_injective(a / 10, b / 10, (width - 1) as nat);
        assert(a == 10 * (a / 10) + a % 10);
        assert(b == 10 * (b / 10) + b % 10);
    }
}

/// Trimming drops zeros from the end and nothing else: what is left is no
/// longer than the text, holds the text's bytes, and does not end in a
/// zero.
pub proof fn lemma_trimmed(text: Seq<u8>)
    ensures
        trimmed(text).len() <= text.len(),
        forall|i: int| 0 <= i < trimmed(text).len() ==> trimmed(text)[i] == text[i],
        trimmed(text).len() > 0 ==> trimmed(text).last() != 48u8,
        forall|i: int| trimmed(text).len() <= i < text.len() ==> text[i] == 48u8,
    decreases text.len(),
{
    if text.len() > 0 && text.last() == 48u8 {
        let shorter = text.drop_last();
        lemma_trimmed(shorter);
        assert(trimmed(text) == trimmed(shorter));
        assert forall|i: int| 0 <= i < trimmed(text).len() implies trimmed(text)[i] == text[i] by {
            assert(shorter[i] == text[i]);
        }
        assert forall|i: int| trimmed(text).len() <= i < text.len() implies text[i] == 48u8 by {
            if i < shorter.len() {
                assert(shorter[i] == text[i]);
            }
        }
    }
}

/// Two texts of one length that are the same once trimmed are the same.
pub proof fn lemma_trimmed_injective(a: Seq<u8>, b: Seq<u8>)
    requires
        a.len() == b.len(),
        trimmed(a) == trimmed(b),
    ensures
        a == b,
{
    lemma_trimmed(a);
    lemma_trimmed(b);
    assert(a =~= b);
}

/// The text of a number holds digits and at most one point, starts with a
/// digit, and holds a point exactly where the number has a fraction.
pub proof fn lemma_decimal_text_shape(value: u64)
    ensures
        decimal_text(value).len() >= 1,
        forall|i: int|
            0 <= i < decimal_text(value).len() ==> (48 <= #[trigger] decimal_text(value)[i] <= 57
                || decimal_text(value)[i] == 46),
{
    let whole = (value / UNITS_PER_ONE) as nat;
    let fraction = (value % UNITS_PER_ONE) as nat;
    lemma_digits_are_digits(whole);
    if fraction != 0 {
        let tail = padded(fraction, FRACTION_DIGITS as nat);
        lemma_padded_are_digits(fraction, FRACTION_DIGITS as nat);
        lemma_trimmed(tail);
        let head = digits(whole).push(46u8);
        assert forall|i: int| 0 <= i < decimal_text(value).len() implies (48
            <= #[trigger] decimal_text(value)[i] <= 57 || decimal_text(value)[i] == 46) by {
            if i < head.len() {
                assert(decimal_text(value)[i] == head[i]);
                if i < digits(whole).len() {
                    assert(head[i] == digits(whole)[i]);
                }
            } else {
                assert(decimal_text(value)[i] == trimmed(tail)[i - head.len()]);
                assert(trimmed(tail)[i - head.len()] == tail[i - head.len()]);
            }
        }
    }
}

/// Two numbers with the same text are the same number.
pub proof fn lemma_decimal_text_injective(a: u64, b: u64)
    requires
        decimal_text(a) == decimal_text(b),
    ensures
        a == b,
{
    let wa = (a / UNITS_PER_ONE) as nat;
    let fa = (a % UNITS_PER_ONE) as nat;
    let wb = (b / UNITS_PER_ONE) as nat;
    let fb = (b % UNITS_PER_ONE) as nat;
    lemma_digits_are_digits(wa);
    lemma_digits_are_digits(wb);
    let ta = padded(fa, FRACTION_DIGITS as nat);
    let tb = padded(fb, FRACTION_DIGITS as nat);
    lemma_padded_are_digits(fa, FRACTION_DIGITS as nat);
    lemma_padded_are_digits(fb, FRACTION_DIGITS as nat);
    lemma_trimmed(ta);
    lemma_trimmed(tb);
    let text_a = decimal_text(a);
    let text_b = decimal_text(b);
    let la = digits(wa).len() as int;
    let lb = digits(wb).len() as int;
    if fa == 0 && fb == 0 {
        lemma_digits_injective(wa, wb);
    } else if fa != 0 && fb != 0 {
        assert(text_a[la] == 46u8);
        assert(text_b[lb] == 46u8);
        if la < lb {
            assert(text_b[la] == digits(wb)[la]);
        } else if lb < la {
            assert(text_a[lb] == digits(wa)[lb]);
        }
        assert(la == lb);
        assert(digits(wa) =~= digits(wb)) by {
            assert forall|i: int| 0 <= i < la implies digits(wa)[i] == digits(wb)[i] by {
                assert(text_a[i] == digits(wa)[i]);
                assert(text_b[i] == digits(wb)[i]);
            }
        }
        lemma_digits_injective(wa, wb);
        assert(trimmed(ta) =~= trimmed(tb)) by {
            assert(trimmed(ta).len() == text_a.len() - la - 1);
            assert(trimmed(tb).len() == text_b.len() - lb - 1);
            assert forall|i: int| 0 <= i < trimmed(ta).len() implies trimmed(ta)[i] == trimmed(
                tb,
            )[i] by {
                assert(text_a[la + 1 + i] == trimmed(ta)[i]);
                assert(text_b[lb + 1 + i] == trimmed(tb)[i]);
            }
        }
        lemma_trimmed_injective(ta, tb);
        assert(pow10(8) == 100_000_000) by {
            reveal_with_fuel(pow10, 9);
        }
        lemma_padded_injective(fa, fb, FRACTION_DIGITS as nat);
    } else if fa != 0 {
        assert(text_a[la] == 46u8);
        assert(text_b == digits(wb));
        assert(la < text_b.len());
    } else {
        assert(text_b[lb] == 46u8);
        assert(text_a == digits(wa));
        assert(lb < text_a.len());
    }
}

} // verus!
