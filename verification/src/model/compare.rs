//! Equality and order of values.

use vstd::prelude::*;
use vstd::std_specs::cmp::PartialEqSpecImpl;
use crate::model::datetime::{instant_of, midnight_utc, DateTime, DateTimeModel};
use crate::model::object::Object;
use crate::parser::number::{decimal_of, integer_of, parse_decimal, parse_integer};
use crate::model::scalar::{pow10, pow10_u64, Decimal, DecimalModel, ScalarModel};
use crate::model::val::Val;
use crate::model::value::{values_view, Scalar, Value};
use crate::text::{str_eq, str_lt, text_lt};

verus! {

/// How one thing stands to another in an order.
#[derive(Clone, Copy, Debug, PartialEq, Eq, Structural)]
pub enum Order {
    Less,
    Equal,
    Greater,
}

/// How the integer `a` stands to the integer `b`.
pub open spec fn int_order(a: int, b: int) -> Order {
    if a < b {
        Order::Less
    } else if a == b {
        Order::Equal
    } else {
        Order::Greater
    }
}

/// How the number `a` stands to the number `b`: both are brought to the
/// same number of digits after the point.
pub open spec fn num_order(a: DecimalModel, b: DecimalModel) -> Order {
    int_order(a.mantissa * pow10(b.scale), b.mantissa * pow10(a.scale))
}

/// How the string `a` stands to the string `b`.
pub open spec fn text_order(a: Seq<char>, b: Seq<char>) -> Order {
    if a == b {
        Order::Equal
    } else if text_lt(a, b) {
        Order::Less
    } else {
        Order::Greater
    }
}

/// How the boolean `a` stands to the boolean `b`: `false` comes first.
pub open spec fn bool_order(a: bool, b: bool) -> Order {
    if a == b {
        Order::Equal
    } else if b {
        Order::Less
    } else {
        Order::Greater
    }
}

/// The number a scalar is, if it is one.
pub open spec fn number_of(s: ScalarModel) -> Option<DecimalModel> {
    match s {
        ScalarModel::Integer(i) => Some(DecimalModel { mantissa: i, scale: 0 }),
        ScalarModel::Float(d) => Some(d),
        _ => None,
    }
}

/// The number a scalar is read as: a number is itself, and a string is the
/// number that it writes, if it writes one.
pub open spec fn number_read(s: ScalarModel) -> Option<DecimalModel> {
    match s {
        ScalarModel::Str(t) => match integer_of(t) {
            Some(i) => Some(DecimalModel { mantissa: i, scale: 0 }),
            None => decimal_of(t),
        },
        _ => number_of(s),
    }
}

/// The number a scalar is read as where a number is needed: zero where
/// it is read as none.
pub open spec fn number_or_zero(s: ScalarModel) -> DecimalModel {
    match number_read(s) {
        Some(d) => d,
        None => DecimalModel { mantissa: 0, scale: 0 },
    }
}

/// The moment a scalar names, if it names one: a date names midnight UTC
/// at the start of its day.
pub open spec fn moment_of(s: ScalarModel) -> Option<DateTimeModel> {
    match s {
        ScalarModel::Date(d) => Some(midnight_utc(d)),
        ScalarModel::DateTime(t) => Some(t),
        _ => None,
    }
}

/// How the scalar `a` stands to the scalar `b`, if they can be ordered:
/// two numbers by their values, two booleans, two strings, and two
/// moments by their instants.
pub open spec fn scalar_order(a: ScalarModel, b: ScalarModel) -> Option<Order> {
    if number_of(a) is Some && number_of(b) is Some {
        Some(num_order(number_of(a)->0, number_of(b)->0))
    } else if moment_of(a) is Some && moment_of(b) is Some {
        match (instant_of(moment_of(a)->0), instant_of(moment_of(b)->0)) {
            (Some(x), Some(y)) => Some(int_order(x, y)),
            _ => None,
        }
    } else {
        match (a, b) {
            (ScalarModel::Bool(x), ScalarModel::Bool(y)) => Some(bool_order(x, y)),
            (ScalarModel::Str(x), ScalarModel::Str(y)) => Some(text_order(x, y)),
            _ => None,
        }
    }
}

/// Whether two scalars are equal: two numbers of equal value, two equal
/// booleans, two equal strings, or two moments at the same instant.
pub open spec fn scalar_eq(a: ScalarModel, b: ScalarModel) -> bool {
    if number_of(a) is Some && number_of(b) is Some {
        num_order(number_of(a)->0, number_of(b)->0) == Order::Equal
    } else if moment_of(a) is Some && moment_of(b) is Some {
        instant_of(moment_of(a)->0) == instant_of(moment_of(b)->0)
    } else {
        match (a, b) {
            (ScalarModel::Bool(x), ScalarModel::Bool(y)) => x == y,
            (ScalarModel::Str(x), ScalarModel::Str(y)) => x == y,
            _ => false,
        }
    }
}

/// Whether two values are equal: they are of the same kind and hold equal
/// things. Values of different kinds are never equal.
pub open spec fn val_eq(a: Val, b: Val) -> bool
    decreases a,
{
    match (a, b) {
        (Val::Nil, Val::Nil) => true,
        (Val::Scalar(x), Val::Scalar(y)) => scalar_eq(x, y),
        (Val::Array(x), Val::Array(y)) => x.len() == y.len() && forall|i: int|
            0 <= i < x.len() ==> val_eq(#[trigger] x[i], y[i]),
        (Val::Object(x), Val::Object(y)) => x.len() == y.len() && forall|i: int|
            0 <= i < x.len() ==> (#[trigger] x[i]).0 == y[i].0 && val_eq(x[i].1, y[i].1),
        _ => false,
    }
}

/// How the value `a` stands to the value `b`, if they can be ordered: only
/// two scalars can.
pub open spec fn val_order(a: Val, b: Val) -> Option<Order> {
    match (a, b) {
        (Val::Scalar(x), Val::Scalar(y)) => scalar_order(x, y),
        _ => None,
    }
}

/// Every scalar is equal to itself.
pub proof fn lemma_scalar_eq_reflexive(s: ScalarModel)
    ensures
        scalar_eq(s, s),
{
}

/// Every value is equal to itself.
pub proof fn lemma_val_eq_reflexive(v: Val)
    ensures
        val_eq(v, v),
    decreases v,
{
    match v {
        Val::Array(x) => {
            assert forall|i: int| 0 <= i < x.len() implies val_eq(#[trigger] x[i], x[i]) by {
                lemma_val_eq_reflexive(x[i]);
            }
        },
        Val::Object(x) => {
            assert forall|i: int| 0 <= i < x.len() implies (#[trigger] x[i]).0 == x[i].0
                && val_eq(x[i].1, x[i].1) by {
                lemma_val_eq_reflexive(x[i].1);
            }
        },
        Val::Scalar(s) => {
            lemma_scalar_eq_reflexive(s);
        },
        Val::Nil => {},
    }
}

/// How the integer `a` stands to the integer `b`.
pub fn order_of(a: i128, b: i128) -> (o: Order)
    ensures
        o == int_order(a as int, b as int),
{
    if a < b {
        Order::Less
    } else if a == b {
        Order::Equal
    } else {
        Order::Greater
    }
}

impl Decimal {
    /// How this number stands to `other`.
    pub fn order(&self, other: &Decimal) -> (o: Order)
        ensures
            o == num_order(self@, other@),
    {
        let p_other = pow10_u64(other.scale());
        let p_self = pow10_u64(self.scale());
        let a: i128 = self.mantissa() as i128;
        let b: i128 = other.mantissa() as i128;
        let x: i128 = p_other as i128;
        let y: i128 = p_self as i128;
        assert(-170_000_000_000_000_000_000_000_000_000_000_000_000 < a * x
            < 170_000_000_000_000_000_000_000_000_000_000_000_000) by (nonlinear_arith)
            requires
                -9_223_372_036_854_775_808 <= a <= 9_223_372_036_854_775_807,
                1 <= x <= 1_000_000_000_000_000_000,
        ;
        assert(-170_000_000_000_000_000_000_000_000_000_000_000_000 < b * y
            < 170_000_000_000_000_000_000_000_000_000_000_000_000) by (nonlinear_arith)
            requires
                -9_223_372_036_854_775_808 <= b <= 9_223_372_036_854_775_807,
                1 <= y <= 1_000_000_000_000_000_000,
        ;
        order_of(a * x, b * y)
    }
}

impl Scalar {
    /// The number the scalar is, if it is one.
    pub fn number(&self) -> (r: Option<Decimal>)
        ensures
            r is Some == number_of(self@) is Some,
            r matches Some(d) ==> number_of(self@) == Some(d@),
    {
        match self {
            Scalar::Integer(i) => Some(Decimal::from_integer(*i)),
            Scalar::Float(d) => Some(*d),
            _ => None,
        }
    }

    /// The number the scalar is read as: a number is itself, and a string
    /// is the number that it writes, if it writes one.
    pub fn to_number(&self) -> (r: Option<Decimal>)
        ensures
            r is Some == number_read(self@) is Some,
            r matches Some(d) ==> number_read(self@) == Some(d@),
    {
        match self {
            Scalar::Str(t) => match parse_integer(t.as_str()) {
                Some(i) => Some(Decimal::from_integer(i)),
                None => parse_decimal(t.as_str()),
            },
            _ => self.number(),
        }
    }

    /// The number the scalar is read as where a number is needed: zero
    /// where it is read as none.
    pub fn to_number_or_zero(&self) -> (d: Decimal)
        ensures
            d@ == number_or_zero(self@),
    {
        match self.to_number() {
            Some(d) => d,
            None => Decimal::from_integer(0),
        }
    }

    /// The moment the scalar names, if it names one.
    pub fn moment(&self) -> (r: Option<DateTime>)
        ensures
            r is Some == moment_of(self@) is Some,
            r matches Some(t) ==> moment_of(self@) == Some(t@),
    {
        match self {
            Scalar::Date(d) => Some(DateTime::at_midnight_utc(*d)),
            Scalar::DateTime(t) => Some(*t),
            _ => None,
        }
    }

    /// How this scalar stands to `other`, if the two can be ordered.
    pub fn order(&self, other: &Scalar) -> (r: Option<Order>)
        ensures
            r == scalar_order(self@, other@),
    {
        if let (Some(x), Some(y)) = (self.number(), other.number()) {
            return Some(x.order(&y));
        }
        if let (Some(x), Some(y)) = (self.moment(), other.moment()) {
            return match (x.instant(), y.instant()) {
                (Some(a), Some(b)) => Some(order_of(a, b)),
                _ => None,
            };
        }
        match (self, other) {
            (Scalar::Bool(x), Scalar::Bool(y)) => Some(
                if *x == *y {
                    Order::Equal
                } else if *y {
                    Order::Less
                } else {
                    Order::Greater
                },
            ),
            (Scalar::Str(x), Scalar::Str(y)) => Some(
                if str_eq(x.as_str(), y.as_str()) {
                    Order::Equal
                } else if str_lt(x.as_str(), y.as_str()) {
                    Order::Less
                } else {
                    Order::Greater
                },
            ),
            _ => None,
        }
    }

    /// Whether this scalar is equal to `other`.
    pub fn equals(&self, other: &Scalar) -> (b: bool)
        ensures
            b == scalar_eq(self@, other@),
    {
        if let (Some(x), Some(y)) = (self.number(), other.number()) {
            return x.order(&y) == Order::Equal;
        }
        if let (Some(x), Some(y)) = (self.moment(), other.moment()) {
            return match (x.instant(), y.instant()) {
                (Some(a), Some(b)) => a == b,
                (None, None) => true,
                _ => false,
            };
        }
        match (self, other) {
            (Scalar::Bool(x), Scalar::Bool(y)) => *x == *y,
            (Scalar::Str(x), Scalar::Str(y)) => str_eq(x.as_str(), y.as_str()),
            _ => false,
        }
    }
}

/// Whether the values `a` and `b` are equal.
pub fn value_eq(a: &Value, b: &Value) -> (r: bool)
    ensures
        r == val_eq(a@, b@),
    decreases a@, 2nat,
{
    match (a, b) {
        (Value::Nil, Value::Nil) => true,
        (Value::Scalar(x), Value::Scalar(y)) => x.equals(y),
        (Value::Array(x), Value::Array(y)) => {
            assert(a@->Array_0 == values_view(x@));
            assert(decreases_to!(a@ => a@->Array_0));
            items_eq(x, y)
        },
        (Value::Object(x), Value::Object(y)) => {
            assert(a@->Object_0 == x@);
            assert(decreases_to!(a@ => a@->Object_0));
            entries_eq(x, y)
        },
        _ => false,
    }
}

/// Whether two arrays hold equal items at equal places.
pub fn items_eq(x: &Vec<Value>, y: &Vec<Value>) -> (r: bool)
    ensures
        r == val_eq(Val::Array(values_view(x@)), Val::Array(values_view(y@))),
    decreases values_view(x@), 1nat,
{
    if x.len() != y.len() {
        return false;
    }
    let ghost xs = values_view(x@);
    let ghost ys = values_view(y@);
    let mut i: usize = 0;
    while i < x.len()
        invariant
            i <= x@.len(),
            x@.len() == y@.len(),
            xs == values_view(x@),
            ys == values_view(y@),
            forall|j: int| 0 <= j < i ==> val_eq(#[trigger] xs[j], ys[j]),
        decreases x@.len() - i,
    {
        assert(xs[i as int] == x@[i as int]@);
        assert(ys[i as int] == y@[i as int]@);
        assert(decreases_to!(xs => xs[i as int]));
        if !value_eq(&x[i], &y[i]) {
            return false;
        }
        i += 1;
    }
    true
}

/// Whether two objects hold equal values under the same keys.
pub fn entries_eq(x: &Object, y: &Object) -> (r: bool)
    ensures
        r == val_eq(Val::Object(x@), Val::Object(y@)),
    decreases x@, 1nat,
{
    if x.len() != y.len() {
        return false;
    }
    let ghost xs = x@;
    let ghost ys = y@;
    let mut i: usize = 0;
    while i < x.len()
        invariant
            i <= x@.len(),
            x@.len() == y@.len(),
            xs == x@,
            ys == y@,
            forall|j: int|
                0 <= j < i ==> (#[trigger] xs[j]).0 == ys[j].0 && val_eq(xs[j].1, ys[j].1),
        decreases x@.len() - i,
    {
        assert(decreases_to!(xs => xs[i as int]));
        assert(decreases_to!(xs[i as int] => xs[i as int].1));
        if !str_eq(x.key_at(i).as_str(), y.key_at(i).as_str()) {
            return false;
        }
        if !value_eq(x.value_at(i), y.value_at(i)) {
            return false;
        }
        i += 1;
    }
    true
}

/// How the value `a` stands to the value `b`, if the two can be ordered.
pub fn value_order(a: &Value, b: &Value) -> (r: Option<Order>)
    ensures
        r == val_order(a@, b@),
{
    match (a, b) {
        (Value::Scalar(x), Value::Scalar(y)) => x.order(y),
        _ => None,
    }
}

impl PartialEq for Value {
    fn eq(&self, other: &Self) -> (r: bool) {
        value_eq(self, other)
    }
}

impl PartialEqSpecImpl for Value {
    open spec fn obeys_eq_spec() -> bool {
        true
    }

    open spec fn eq_spec(&self, other: &Self) -> bool {
        val_eq(self@, other@)
    }
}

} // verus!
