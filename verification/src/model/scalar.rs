//! Scalars: booleans, whole and fractional numbers, strings, dates.

use vstd::prelude::*;
use crate::model::datetime::{
    date_text, date_time_text, padded, push_padded, Date, DateModel, DateTime, DateTimeModel,
};
use crate::model::val::json_quoted;
use crate::text::{int_text, nat_text, push_int, push_nat};

verus! {

/// A fractional number as plain numbers: `mantissa / 10^scale`.
pub struct DecimalModel {
    pub mantissa: int,
    pub scale: nat,
}

/// Ten to the power `n`.
pub open spec fn pow10(n: nat) -> nat
    decreases n,
{
    if n == 0 {
        1
    } else {
        10 * pow10((n - 1) as nat)
    }
}

/// A decimal is valid when its mantissa fits 64 bits, its scale is at most
/// 18 and it is written with as few digits after the point as its value
/// allows.
pub open spec fn valid_decimal(d: DecimalModel) -> bool {
    &&& i64::MIN <= d.mantissa <= i64::MAX
    &&& d.scale <= 18
    &&& d.scale == 0 || d.mantissa % 10 != 0
}

/// The magnitude of `n`.
pub open spec fn magnitude(n: int) -> nat {
    if n < 0 {
        (-n) as nat
    } else {
        n as nat
    }
}

/// How a fractional number is shown: the numeral of a whole one, else the
/// whole part, a point, and the digits after it.
pub open spec fn decimal_text(d: DecimalModel) -> Seq<char> {
    if d.scale == 0 {
        int_text(d.mantissa)
    } else {
        let sign = if d.mantissa < 0 {
            seq!['-']
        } else {
            Seq::empty()
        };
        sign + nat_text(magnitude(d.mantissa) / pow10(d.scale)) + seq!['.'] + padded(
            magnitude(d.mantissa) % pow10(d.scale),
            d.scale,
        )
    }
}

/// How a fractional number is written inside an array or an object: as it
/// is shown, with `.0` after a whole one.
pub open spec fn decimal_json(d: DecimalModel) -> Seq<char> {
    if d.scale == 0 {
        int_text(d.mantissa) + seq!['.', '0']
    } else {
        decimal_text(d)
    }
}

/// A scalar as mathematical data.
pub enum ScalarModel {
    Bool(bool),
    Integer(int),
    Float(DecimalModel),
    Str(Seq<char>),
    Date(DateModel),
    DateTime(DateTimeModel),
}

/// How a boolean is shown.
pub open spec fn bool_text(b: bool) -> Seq<char> {
    if b {
        seq!['t', 'r', 'u', 'e']
    } else {
        seq!['f', 'a', 'l', 's', 'e']
    }
}

/// How a scalar is shown in rendered output.
pub open spec fn scalar_text(s: ScalarModel) -> Seq<char> {
    match s {
        ScalarModel::Bool(b) => bool_text(b),
        ScalarModel::Integer(i) => int_text(i),
        ScalarModel::Float(d) => decimal_text(d),
        ScalarModel::Str(t) => t,
        ScalarModel::Date(d) => date_text(d),
        ScalarModel::DateTime(t) => date_time_text(t),
    }
}

/// The name of a scalar's kind.
pub open spec fn scalar_kind_name(s: ScalarModel) -> Seq<char> {
    match s {
        ScalarModel::Bool(_) => "boolean"@,
        ScalarModel::Integer(_) => "whole number"@,
        ScalarModel::Float(_) => "fractional number"@,
        ScalarModel::Str(_) => "string"@,
        ScalarModel::Date(_) => "date"@,
        ScalarModel::DateTime(_) => "date time"@,
    }
}

/// Ten to the power `n`.
pub(crate) fn pow10_u64(n: u8) -> (p: u64)
    requires
        n <= 18,
    ensures
        p == pow10(n as nat),
        1 <= p <= 1_000_000_000_000_000_000,
{
    let mut p: u64 = 1;
    let mut i: u8 = 0;
    while i < n
        invariant
            i <= n <= 18,
            p == pow10(i as nat),
            1 <= p,
            p <= 1_000_000_000_000_000_000,
            i < 18 ==> p <= 100_000_000_000_000_000,
        decreases n - i,
    {
        proof {
            lemma_pow10_bound(i as nat);
            lemma_pow10_bound((i + 1) as nat);
        }
        p = p * 10;
        i += 1;
    }
    p
}

/// Ten to a power below 19 stays below ten to the 19th, and the powers grow.
pub proof fn lemma_pow10_bound(n: nat)
    requires
        n <= 18,
    ensures
        1 <= pow10(n) <= 1_000_000_000_000_000_000,
        n < 18 ==> pow10(n) <= 100_000_000_000_000_000,
    decreases n,
{
    reveal_with_fuel(pow10, 20);
}

/// A fractional number, kept as a decimal.
#[derive(Clone, Copy, Debug)]
pub struct Decimal {
    mantissa: i64,
    scale: u8,
}

impl View for Decimal {
    type V = DecimalModel;

    closed spec fn view(&self) -> DecimalModel {
        DecimalModel { mantissa: self.mantissa as int, scale: self.scale as nat }
    }
}

/// The magnitude of `n`.
pub fn magnitude_of(n: i64) -> (m: u64)
    ensures
        m == magnitude(n as int),
{
    if n == i64::MIN {
        9223372036854775808u64
    } else if n < 0 {
        (-n) as u64
    } else {
        n as u64
    }
}

impl Decimal {
    /// What holds of every decimal that exists at run time: it is valid.
    #[verifier::type_invariant]
    pub closed spec fn wf(self) -> bool {
        valid_decimal(self@)
    }

    /// A well-formed decimal is a valid one.
    pub proof fn lemma_valid(self)
        requires
            self.wf(),
        ensures
            valid_decimal(self@),
    {
    }

    /// The decimal `mantissa / 10^scale`, if these two write it with as few
    /// digits after the point as its value allows and `scale` is at most 18.
    pub fn new(mantissa: i64, scale: u8) -> (r: Option<Decimal>)
        ensures
            r is Some == valid_decimal(
                DecimalModel { mantissa: mantissa as int, scale: scale as nat },
            ),
            r matches Some(d) ==> d@ == (DecimalModel {
                mantissa: mantissa as int,
                scale: scale as nat,
            }),
    {
        if scale <= 18 && (scale == 0 || magnitude_of(mantissa) % 10 != 0) {
            Some(Decimal { mantissa, scale })
        } else {
            None
        }
    }

    /// The whole number `n` as a decimal.
    pub fn from_integer(n: i64) -> (d: Decimal)
        ensures
            d@ == (DecimalModel { mantissa: n as int, scale: 0 }),
    {
        Decimal { mantissa: n, scale: 0 }
    }

    /// The mantissa.
    pub fn mantissa(&self) -> (m: i64)
        ensures
            m == self@.mantissa,
    {
        self.mantissa
    }

    /// The number of digits after the point.
    pub fn scale(&self) -> (s: u8)
        ensures
            s == self@.scale,
            s <= 18,
    {
        proof {
            use_type_invariant(self);
        }
        self.scale
    }

    /// Appends the number as it is shown to `out`.
    pub fn render_to(&self, out: &mut String)
        ensures
            final(out)@ == old(out)@ + decimal_text(self@),
    {
        proof {
            use_type_invariant(self);
        }
        if self.scale == 0 {
            push_int(out, self.mantissa);
        } else {
            let mut s = String::new();
            if self.mantissa < 0 {
                s.push('-');
            }
            let ghost sign = s@;
            let m = magnitude_of(self.mantissa);
            let p = pow10_u64(self.scale);
            push_nat(&mut s, m / p);
            s.push('.');
            push_padded(&mut s, m % p, self.scale as usize);
            assert(sign =~= if self@.mantissa < 0 {
                seq!['-']
            } else {
                Seq::empty()
            });
            out.append(s.as_str());
        }
    }

    /// Appends the number as it is written inside an array or an object to
    /// `out`.
    pub fn render_json_to(&self, out: &mut String)
        ensures
            final(out)@ == old(out)@ + decimal_json(self@),
    {
        proof {
            use_type_invariant(self);
        }
        if self.scale == 0 {
            let ghost start = out@;
            push_int(out, self.mantissa);
            out.push('.');
            out.push('0');
            assert(out@ =~= start + (int_text(self@.mantissa) + seq!['.', '0']));
        } else {
            self.render_to(out);
        }
    }
}

/// `serde_json::to_string` on a string slice: the slice as a JSON string,
/// between double quotes and with the quote, the backslash and the
/// control characters escaped. Writing a string into memory cannot fail.
#[verifier::external_body]
pub(crate) fn json_string(s: &str) -> (r: Option<String>)
    ensures
        r is Some,
        r matches Some(t) ==> t@ == json_quoted(s@),
{
    serde_json::to_string(s).ok()
}

/// Appends `s` as a JSON string to `out`.
pub fn push_json_string(out: &mut String, s: &str)
    ensures
        final(out)@ == old(out)@ + json_quoted(s@),
{
    match json_string(s) {
        Some(t) => out.append(t.as_str()),
        None => {},
    }
}

} // verus!
