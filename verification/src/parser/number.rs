//! Reading numbers from their numerals.

use vstd::prelude::*;
use crate::model::datetime::padded;
use crate::model::scalar::{
    decimal_text, lemma_pow10_bound, magnitude, pow10, valid_decimal, Decimal, DecimalModel,
};
use crate::parser::scan::{distance_to_char, find_char};
use crate::text::{chars_of, digit_char, digit_of, digit_value, int_text, is_digit, nat_text};

verus! {

/// The number that a run of digits writes.
pub open spec fn digits_value(s: Seq<char>) -> nat
    decreases s.len(),
{
    if s.len() == 0 {
        0
    } else {
        let d = match digit_value(s.last()) {
            Some(d) => d as nat,
            None => 0,
        };
        digits_value(s.drop_last()) * 10 + d
    }
}

/// Whether `s` holds digits only.
pub open spec fn all_digits(s: Seq<char>) -> bool {
    forall|i: int| 0 <= i < s.len() ==> is_digit(#[trigger] s[i])
}

/// Whether `text` starts with a sign.
pub open spec fn has_sign(text: Seq<char>) -> bool {
    text.len() > 0 && (text[0] == '-' || text[0] == '+')
}

/// The whole number that `text` writes: digits, with or without a sign in
/// front; none where `text` is not of that form or the number does not
/// fit 64 bits.
pub open spec fn integer_of(text: Seq<char>) -> Option<int> {
    let negative = text.len() > 0 && text[0] == '-';
    let digits = if has_sign(text) {
        text.drop_first()
    } else {
        text
    };
    if digits.len() == 0 || !all_digits(digits) {
        None
    } else if negative {
        if digits_value(digits) <= 9_223_372_036_854_775_808 {
            Some(-(digits_value(digits) as int))
        } else {
            None
        }
    } else {
        if digits_value(digits) <= 9_223_372_036_854_775_807 {
            Some(digits_value(digits) as int)
        } else {
            None
        }
    }
}

/// A mantissa and a scale without the zeros at the end of the digits
/// after the point.
pub open spec fn normalized(mantissa: nat, scale: nat) -> (nat, nat)
    decreases scale,
{
    if scale > 0 && mantissa % 10 == 0 {
        normalized(mantissa / 10, (scale - 1) as nat)
    } else {
        (mantissa, scale)
    }
}

/// The fractional number that `text` writes: digits, a point and digits,
/// with or without a sign in front; none where `text` is not of that
/// form, where its digits write a number beyond 64 bits, or where it does
/// not fit a decimal.
pub open spec fn decimal_of(text: Seq<char>) -> Option<DecimalModel> {
    let negative = text.len() > 0 && text[0] == '-';
    let start: int = if has_sign(text) {
        1
    } else {
        0
    };
    match distance_to_char(text, start, '.') {
        None => None,
        Some(d) => {
            let point = start + d;
            let whole = text.subrange(start, point);
            let fraction = text.subrange(point + 1, text.len() as int);
            if whole.len() == 0 || fraction.len() == 0 || !all_digits(whole) || !all_digits(
                fraction,
            ) {
                None
            } else {
                let raw = digits_value(whole + fraction);
                if raw > u64::MAX {
                    None
                } else {
                    let (m, scale) = normalized(raw, fraction.len());
                    let mantissa = if negative {
                        -(m as int)
                    } else {
                        m as int
                    };
                    let d = DecimalModel { mantissa, scale };
                    if valid_decimal(d) {
                        Some(d)
                    } else {
                        None
                    }
                }
            }
        },
    }
}

/// A number, or the bound where the number is beyond it.
pub open spec fn capped(n: nat) -> nat {
    if n > 18_446_744_073_709_551_616 {
        18_446_744_073_709_551_616
    } else {
        n
    }
}

/// Reads the digits `s[from..to]`: the number they write, capped at 2^64,
/// if they are all digits.
pub(crate) fn read_digits(s: &Vec<char>, from: usize, to: usize, start: u128) -> (r: Option<u128>)
    requires
        from <= to <= s@.len(),
        start <= 18_446_744_073_709_551_616,
    ensures
        r is Some == all_digits(s@.subrange(from as int, to as int)),
        r matches Some(v) ==> v <= 18_446_744_073_709_551_616 && forall|prefix: Seq<char>|
            capped(digits_value(prefix)) == start ==> capped(
                digits_value(#[trigger] (prefix + s@.subrange(from as int, to as int))),
            ) == v,
{
    let mut acc: u128 = start;
    let mut i: usize = from;
    assert forall|prefix: Seq<char>| capped(digits_value(prefix)) == start implies capped(
        digits_value(#[trigger] (prefix + s@.subrange(from as int, from as int))),
    ) == acc by {
        assert(prefix + s@.subrange(from as int, from as int) =~= prefix);
    }
    while i < to
        invariant
            from <= i <= to <= s@.len(),
            acc <= 18_446_744_073_709_551_616,
            all_digits(s@.subrange(from as int, i as int)),
            forall|prefix: Seq<char>|
                capped(digits_value(prefix)) == start ==> capped(
                    digits_value(#[trigger] (prefix + s@.subrange(from as int, i as int))),
                ) == acc,
        decreases to - i,
    {
        match digit_of(s[i]) {
            Some(d) => {
                let next: u128 = acc * 10 + d as u128;
                let ghost before = acc;
                acc = if next > 18_446_744_073_709_551_616 {
                    18_446_744_073_709_551_616
                } else {
                    next
                };
                proof {
                    let run = s@.subrange(from as int, i as int);
                    let longer = s@.subrange(from as int, i + 1);
                    assert(longer =~= run.push(s@[i as int]));
                    assert forall|prefix: Seq<char>|
                        capped(digits_value(prefix)) == start implies capped(
                        digits_value(#[trigger] (prefix + longer)),
                    ) == acc by {
                        let whole = prefix + longer;
                        assert(whole.drop_last() =~= prefix + run);
                        assert(whole.last() == s@[i as int]);
                        assert(capped(digits_value(prefix + run)) == before);
                    }
                    assert forall|j: int| 0 <= j < longer.len() implies is_digit(
                        #[trigger] longer[j],
                    ) by {
                        if j < run.len() {
                            assert(longer[j] == run[j]);
                        }
                    }
                }
            },
            None => {
                proof {
                    let all = s@.subrange(from as int, to as int);
                    assert(all[i - from] == s@[i as int]);
                }
                return None;
            },
        }
        i += 1;
    }
    Some(acc)
}

/// The whole number that `text` writes.
pub fn parse_integer(text: &str) -> (r: Option<i64>)
    ensures
        match r {
            Some(v) => integer_of(text@) == Some(v as int),
            None => integer_of(text@) is None,
        },
{
    let s = chars_of(text);
    let negative = s.len() > 0 && s[0] == '-';
    let signed = s.len() > 0 && (s[0] == '-' || s[0] == '+');
    let from: usize = if signed {
        1
    } else {
        0
    };
    if s.len() == from {
        return None;
    }
    let ghost digits = s@.subrange(from as int, s@.len() as int);
    proof {
        if signed {
            assert(digits =~= s@.drop_first());
        } else {
            assert(digits =~= s@);
        }
        assert(capped(digits_value(Seq::empty())) == 0);
        assert(Seq::<char>::empty() + digits =~= digits);
    }
    match read_digits(&s, from, s.len(), 0) {
        None => None,
        Some(v) => {
            if negative {
                if v <= 9_223_372_036_854_775_808 {
                    if v == 9_223_372_036_854_775_808 {
                        Some(i64::MIN)
                    } else {
                        Some(-(v as i64))
                    }
                } else {
                    None
                }
            } else {
                if v <= 9_223_372_036_854_775_807 {
                    Some(v as i64)
                } else {
                    None
                }
            }
        },
    }
}

/// The fractional number that `text` writes.
pub fn parse_decimal(text: &str) -> (r: Option<Decimal>)
    ensures
        match r {
            Some(d) => decimal_of(text@) == Some(d@),
            None => decimal_of(text@) is None,
        },
{
    let s = chars_of(text);
    let negative = s.len() > 0 && s[0] == '-';
    let signed = s.len() > 0 && (s[0] == '-' || s[0] == '+');
    let start: usize = if signed {
        1
    } else {
        0
    };
    let point = match find_char(&s, start, '.') {
        Some(point) => point,
        None => {
            return None;
        },
    };
    if point == start || point + 1 == s.len() {
        return None;
    }
    let ghost whole = s@.subrange(start as int, point as int);
    let ghost fraction = s@.subrange(point + 1, s@.len() as int);
    proof {
        assert(capped(digits_value(Seq::empty())) == 0);
        assert(Seq::<char>::empty() + whole =~= whole);
    }
    let first = match read_digits(&s, start, point, 0) {
        Some(v) => v,
        None => {
            return None;
        },
    };
    let raw = match read_digits(&s, point + 1, s.len(), first) {
        Some(v) => v,
        None => {
            return None;
        },
    };
    assert(capped(digits_value(whole + fraction)) == raw);
    if raw > 18_446_744_073_709_551_615 {
        return None;
    }
    let mut m: u64 = raw as u64;
    let mut scale: usize = s.len() - point - 1;
    while scale > 0 && m % 10 == 0
        invariant
            normalized(raw as nat, fraction.len()) == normalized(m as nat, scale as nat),
        decreases scale,
    {
        m = m / 10;
        scale -= 1;
    }
    if scale > 18 {
        return None;
    }
    if negative {
        if m > 9_223_372_036_854_775_808 {
            None
        } else if m == 9_223_372_036_854_775_808 {
            Decimal::new(i64::MIN, scale as u8)
        } else {
            Decimal::new(-(m as i64), scale as u8)
        }
    } else {
        if m > 9_223_372_036_854_775_807 {
            None
        } else {
            Decimal::new(m as i64, scale as u8)
        }
    }
}

/// The numeral of a natural number holds digits only, at least one, and
/// writes that number.
pub proof fn lemma_nat_text_value(n: nat)
    ensures
        nat_text(n).len() >= 1,
        all_digits(nat_text(n)),
        digits_value(nat_text(n)) == n,
    decreases n,
{
    if n < 10 {
        let s = nat_text(n);
        assert(s.drop_last() =~= Seq::<char>::empty());
        assert(digits_value(s.drop_last()) == 0);
        assert(s.last() == digit_char(n as int));
    } else {
        lemma_nat_text_value(n / 10);
        let front = nat_text(n / 10);
        let s = nat_text(n);
        assert(s == front.push(digit_char((n % 10) as int)));
        assert(s.drop_last() =~= front);
        assert(s.last() == digit_char((n % 10) as int));
        assert forall|i: int| 0 <= i < s.len() implies is_digit(#[trigger] s[i]) by {
            if i < front.len() {
                assert(s[i] == front[i]);
            }
        }
    }
}

/// Reading the numeral of a whole number of 64 bits gives the number
/// back.
pub proof fn lemma_integer_round_trip(n: int)
    requires
        i64::MIN <= n <= i64::MAX,
    ensures
        integer_of(int_text(n)) == Some(n),
{
    if n < 0 {
        let m = (-n) as nat;
        lemma_nat_text_value(m);
        let text = int_text(n);
        assert(text == seq!['-'] + nat_text(m));
        assert(text[0] == '-');
        assert(text.drop_first() =~= nat_text(m));
    } else {
        lemma_nat_text_value(n as nat);
        let text = int_text(n);
        assert(is_digit(text[0]));
    }
}

/// The digits `b` behind the digits `a` write the number of `a`, moved up
/// by the length of `b`, plus the number of `b`.
pub proof fn lemma_digits_concat(a: Seq<char>, b: Seq<char>)
    ensures
        digits_value(a + b) == digits_value(a) * pow10(b.len()) + digits_value(b),
    decreases b.len(),
{
    if b.len() == 0 {
        assert(a + b =~= a);
        assert(pow10(0) == 1);
        assert(digits_value(a) * 1 == digits_value(a)) by (nonlinear_arith);
    } else {
        lemma_digits_concat(a, b.drop_last());
        assert((a + b).drop_last() =~= a + b.drop_last());
        assert((a + b).last() == b.last());
        let x = digits_value(a) as int;
        let y = digits_value(b.drop_last()) as int;
        let p = pow10(b.drop_last().len()) as int;
        assert(pow10(b.len()) == 10 * p);
        assert((x * p + y) * 10 == x * (10 * p) + y * 10) by (nonlinear_arith);
    }
}

/// Zeros in front of digits do not change the number they write.
pub proof fn lemma_leading_zeros(k: nat, t: Seq<char>)
    ensures
        digits_value(Seq::new(k, |i: int| '0') + t) == digits_value(t),
        all_digits(t) ==> all_digits(Seq::new(k, |i: int| '0') + t),
{
    let zeros = Seq::new(k, |i: int| '0');
    lemma_digits_concat(zeros, t);
    lemma_zeros_value(k);
    assert(0 * pow10(t.len()) == 0) by (nonlinear_arith);
    if all_digits(t) {
        assert forall|i: int| 0 <= i < (zeros + t).len() implies is_digit(
            #[trigger] (zeros + t)[i],
        ) by {
            if i >= k {
                assert((zeros + t)[i] == t[i - k]);
            }
        }
    }
}

/// Zeros write the number zero.
pub proof fn lemma_zeros_value(k: nat)
    ensures
        digits_value(Seq::new(k, |i: int| '0')) == 0,
    decreases k,
{
    let zeros = Seq::new(k, |i: int| '0');
    if k > 0 {
        lemma_zeros_value((k - 1) as nat);
        assert(zeros.drop_last() =~= Seq::new((k - 1) as nat, |i: int| '0'));
    }
}

/// A number below ten to the power `k` has a numeral of at most `k`
/// digits.
pub proof fn lemma_nat_text_len(n: nat, k: nat)
    requires
        k >= 1,
        n < pow10(k),
    ensures
        nat_text(n).len() <= k,
    decreases k,
{
    if n >= 10 {
        assert(pow10(k) == 10 * pow10((k - 1) as nat));
        if k == 1 {
            assert(pow10(0) == 1);
        } else {
            lemma_nat_text_len(n / 10, (k - 1) as nat);
        }
    }
}

/// Behind `front` and a run of digits, the first point is the one that
/// follows the digits.
pub proof fn lemma_point_after_digits(front: Seq<char>, digits: Seq<char>, tail: Seq<char>, from: int)
    requires
        front.len() <= from <= front.len() + digits.len(),
        all_digits(digits),
    ensures
        distance_to_char(front + digits + seq!['.'] + tail, from, '.') == Some(
            (front.len() + digits.len() - from) as nat,
        ),
    decreases front.len() + digits.len() - from,
{
    let all = front + digits + seq!['.'] + tail;
    if from == front.len() + digits.len() {
        assert(all[from] == '.');
    } else {
        assert(all[from] == digits[from - front.len()]);
        assert(is_digit(digits[from - front.len()]));
        lemma_point_after_digits(front, digits, tail, from + 1);
    }
}

/// Reading a fractional number as it is shown gives the number back.
pub proof fn lemma_decimal_round_trip(d: DecimalModel)
    requires
        valid_decimal(d),
        d.scale >= 1,
    ensures
        decimal_of(decimal_text(d)) == Some(d),
{
    let p = pow10(d.scale);
    let mag = magnitude(d.mantissa);
    let w = nat_text(mag / p);
    let r = mag % p;
    let f = padded(r, d.scale);
    let sign = if d.mantissa < 0 {
        seq!['-']
    } else {
        Seq::<char>::empty()
    };
    let text = decimal_text(d);
    assert(text == sign + w + seq!['.'] + f);
    lemma_pow10_bound(d.scale);
    lemma_nat_text_value(mag / p);
    lemma_nat_text_value(r);
    assert(r < p) by (nonlinear_arith)
        requires
            r == mag % p,
            p >= 1,
    ;
    lemma_nat_text_len(r, d.scale);
    let zeros = Seq::new((d.scale - nat_text(r).len()) as nat, |i: int| '0');
    if nat_text(r).len() >= d.scale {
        assert(f == nat_text(r));
    } else {
        assert(f == zeros + nat_text(r));
        lemma_leading_zeros((d.scale - nat_text(r).len()) as nat, nat_text(r));
    }
    assert(f.len() == d.scale);
    assert(all_digits(f));
    assert(digits_value(f) == r);
    let start: int = sign.len() as int;
    assert(text[0] == if d.mantissa < 0 {
        '-'
    } else {
        w[0]
    });
    assert(is_digit(w[0]));
    assert((text.len() > 0 && text[0] == '-') == (d.mantissa < 0));
    assert(has_sign(text) == (d.mantissa < 0));
    lemma_point_after_digits(sign, w, f, start);
    let point = start + w.len();
    assert(text.subrange(start, point) =~= w);
    assert(text.subrange(point + 1, text.len() as int) =~= f);
    lemma_digits_concat(w, f);
    assert((mag / p) * p + mag % p == mag) by (nonlinear_arith)
        requires
            p >= 1,
    ;
    assert(digits_value(w + f) == mag);
    assert(mag % 10 != 0);
    assert(normalized(mag, d.scale) == (mag, d.scale));
}

} // verus!
