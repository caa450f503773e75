//! Values: nil, scalars, arrays and objects.

use vstd::prelude::*;
use vstd::std_specs::convert::FromSpecImpl;
use crate::model::datetime::{Date, DateTime};
use crate::model::object::Object;
use crate::model::scalar::{
    bool_text, push_json_string, scalar_text, scalar_kind_name, Decimal, ScalarModel,
};
use crate::model::val::{
    closed_entries_text, element_text, entries_source_text, entries_text, entry_source_text,
    entry_text, in_state, items_text, object_source_text, render_text, scalar_json, Entries, State,
    Val,
};
use crate::model::view::ValueView;
use crate::text::{blank_text, push_int};

verus! {

/// A scalar value.
#[derive(Debug)]
pub enum Scalar {
    Bool(bool),
    Integer(i64),
    Float(Decimal),
    Str(String),
    Date(Date),
    DateTime(DateTime),
}

impl View for Scalar {
    type V = ScalarModel;

    open spec fn view(&self) -> ScalarModel {
        match self {
            Scalar::Bool(b) => ScalarModel::Bool(*b),
            Scalar::Integer(i) => ScalarModel::Integer(*i as int),
            Scalar::Float(d) => ScalarModel::Float(d@),
            Scalar::Str(s) => ScalarModel::Str(s@),
            Scalar::Date(d) => ScalarModel::Date(d@),
            Scalar::DateTime(t) => ScalarModel::DateTime(t@),
        }
    }
}

/// A value of the template language.
#[derive(Debug)]
pub enum Value {
    /// The absence of a value.
    Nil,
    /// A boolean, a number, a string or a date.
    Scalar(Scalar),
    /// A sequence of values, in the order in which they were put in.
    Array(Vec<Value>),
    /// A mapping from string keys to values.
    Object(Object),
}

/// The values that references point to, as mathematical data.
pub open spec fn refs_view(refs: Seq<&Value>) -> Seq<Val> {
    Seq::new(refs.len(), |i: int| refs[i]@)
}

/// The keys that references point to, as mathematical data.
pub open spec fn strs_view(refs: Seq<&str>) -> Seq<Seq<char>> {
    Seq::new(refs.len(), |i: int| refs[i]@)
}

/// The entries that pairs of references point to, as mathematical data.
pub open spec fn pairs_view(refs: Seq<(&str, &Value)>) -> Entries {
    Seq::new(refs.len(), |i: int| (refs[i].0@, refs[i].1@))
}

/// The items of an array as mathematical data.
pub open spec fn values_view(items: Seq<Value>) -> Seq<Val>
    decreases items,
{
    Seq::new(
        items.len(),
        |i: int|
            if 0 <= i < items.len() {
                items[i].view()
            } else {
                Val::Nil
            },
    )
}

impl View for Value {
    type V = Val;

    open spec fn view(&self) -> Val
        decreases self,
    {
        match self {
            Value::Nil => Val::Nil,
            Value::Scalar(s) => Val::Scalar(s@),
            Value::Array(a) => Val::Array(values_view(a@)),
            Value::Object(o) => Val::Object(o.view()),
        }
    }
}

impl From<bool> for Scalar {
    fn from(value: bool) -> (r: Scalar) {
        Scalar::Bool(value)
    }
}

impl FromSpecImpl<bool> for Scalar {
    open spec fn obeys_from_spec() -> bool {
        true
    }

    open spec fn from_spec(value: bool) -> Scalar {
        Scalar::Bool(value)
    }
}

impl<'a> From<&'a str> for Scalar {
    fn from(value: &'a str) -> (r: Scalar)
        ensures
            r@ == ScalarModel::Str(value@),
    {
        Scalar::Str(value.to_owned())
    }
}

impl<'a> FromSpecImpl<&'a str> for Scalar {
    open spec fn obeys_from_spec() -> bool {
        false
    }

    open spec fn from_spec(value: &'a str) -> Scalar {
        arbitrary()
    }
}

impl From<String> for Scalar {
    fn from(value: String) -> (r: Scalar) {
        Scalar::Str(value)
    }
}

impl FromSpecImpl<String> for Scalar {
    open spec fn obeys_from_spec() -> bool {
        true
    }

    open spec fn from_spec(value: String) -> Scalar {
        Scalar::Str(value)
    }
}

impl From<i64> for Scalar {
    fn from(value: i64) -> (r: Scalar) {
        Scalar::Integer(value)
    }
}

impl FromSpecImpl<i64> for Scalar {
    open spec fn obeys_from_spec() -> bool {
        true
    }

    open spec fn from_spec(value: i64) -> Scalar {
        Scalar::Integer(value)
    }
}

impl From<i32> for Scalar {
    fn from(value: i32) -> (r: Scalar) {
        Scalar::Integer(value as i64)
    }
}

impl FromSpecImpl<i32> for Scalar {
    open spec fn obeys_from_spec() -> bool {
        true
    }

    open spec fn from_spec(value: i32) -> Scalar {
        Scalar::Integer(value as i64)
    }
}

impl From<Decimal> for Scalar {
    fn from(value: Decimal) -> (r: Scalar) {
        Scalar::Float(value)
    }
}

impl FromSpecImpl<Decimal> for Scalar {
    open spec fn obeys_from_spec() -> bool {
        true
    }

    open spec fn from_spec(value: Decimal) -> Scalar {
        Scalar::Float(value)
    }
}

impl From<Date> for Scalar {
    fn from(value: Date) -> (r: Scalar) {
        Scalar::Date(value)
    }
}

impl FromSpecImpl<Date> for Scalar {
    open spec fn obeys_from_spec() -> bool {
        true
    }

    open spec fn from_spec(value: Date) -> Scalar {
        Scalar::Date(value)
    }
}

impl From<DateTime> for Scalar {
    fn from(value: DateTime) -> (r: Scalar) {
        Scalar::DateTime(value)
    }
}

impl FromSpecImpl<DateTime> for Scalar {
    open spec fn obeys_from_spec() -> bool {
        true
    }

    open spec fn from_spec(value: DateTime) -> Scalar {
        Scalar::DateTime(value)
    }
}

impl Value {
    /// The scalar value made from `value`: what the conversion of `value`
    /// into a scalar gives.
    pub fn scalar<T: Into<Scalar>>(value: T) -> (v: Value)
        ensures
            v is Scalar,
            call_ensures(T::into, (value,), v->Scalar_0),
    {
        Value::Scalar(value.into())
    }

    /// The scalar, if the value is one.
    pub fn as_scalar(&self) -> (r: Option<&Scalar>)
        ensures
            r is Some == self is Scalar,
            r matches Some(s) ==> *self == Value::Scalar(*s),
    {
        match self {
            Value::Scalar(s) => Some(s),
            _ => None,
        }
    }

    /// The items, if the value is an array.
    pub fn as_array(&self) -> (r: Option<&Vec<Value>>)
        ensures
            r is Some == self is Array,
            r matches Some(a) ==> *self == Value::Array(*a),
    {
        match self {
            Value::Array(a) => Some(a),
            _ => None,
        }
    }

    /// The object, if the value is one.
    pub fn as_object(&self) -> (r: Option<&Object>)
        ensures
            r is Some == self is Object,
            r matches Some(o) ==> *self == Value::Object(*o),
    {
        match self {
            Value::Object(o) => Some(o),
            _ => None,
        }
    }
}

impl ValueView for Scalar {
    open spec fn model(&self) -> Val {
        Val::Scalar(self@)
    }

    fn render(&self) -> (s: String) {
        Scalar::render(self)
    }

    fn source(&self) -> (s: String) {
        match self {
            Scalar::Str(t) => {
                let mut s = String::new();
                s.push('"');
                s.append(t.as_str());
                s.push('"');
                s
            },
            _ => Scalar::render(self),
        }
    }

    fn kind_name(&self) -> (s: &'static str) {
        Scalar::kind_name(self)
    }

    fn query_state(&self, state: State) -> (b: bool) {
        Scalar::query_state(self, state)
    }

    fn to_kstr(&self) -> (s: kstring::KString) {
        crate::text::kstring_from_string(Scalar::render(self))
    }

    fn to_value(&self) -> (v: Value) {
        Value::Scalar(self.to_scalar())
    }

    fn is_nil(&self) -> (b: bool) {
        false
    }

    fn is_scalar(&self) -> (b: bool) {
        true
    }

    fn is_array(&self) -> (b: bool) {
        false
    }

    fn is_object(&self) -> (b: bool) {
        false
    }
}

impl ValueView for Value {
    open spec fn model(&self) -> Val {
        self@
    }

    fn render(&self) -> (s: String) {
        let mut s = String::new();
        render_value_to(self, &mut s);
        assert(Seq::<char>::empty() + render_text(self@) =~= render_text(self@));
        s
    }

    fn source(&self) -> (s: String) {
        match self {
            Value::Nil => {
                proof {
                    reveal_strlit("nil");
                }
                "nil".to_owned()
            },
            Value::Scalar(x) => x.source(),
            Value::Array(a) => {
                let mut s = String::new();
                s.append("ArraySource[");
                render_items_to(a, &mut s);
                s.push(']');
                s
            },
            Value::Object(o) => {
                let pairs = o.iter();
                source_pairs(&pairs)
            },
        }
    }

    fn kind_name(&self) -> (s: &'static str) {
        match self {
            Value::Nil => "nil",
            Value::Scalar(x) => Scalar::kind_name(x),
            Value::Array(_) => "array",
            Value::Object(_) => "object",
        }
    }

    fn query_state(&self, state: State) -> (b: bool) {
        match self {
            Value::Nil => match state {
                State::Truthy => false,
                _ => true,
            },
            Value::Scalar(x) => Scalar::query_state(x, state),
            Value::Array(a) => {
                assert(self@->Array_0 == values_view(a@));
                assert(values_view(a@).len() == a@.len());
                match state {
                    State::Truthy => true,
                    _ => a.len() == 0,
                }
            },
            Value::Object(o) => {
                assert(self@->Object_0 == o@);
                match state {
                    State::Truthy => true,
                    _ => o.is_empty(),
                }
            },
        }
    }

    fn to_kstr(&self) -> (s: kstring::KString) {
        crate::text::kstring_from_string(self.render())
    }

    fn to_value(&self) -> (v: Value) {
        clone_value(self)
    }

    fn is_nil(&self) -> (b: bool) {
        match self {
            Value::Nil => true,
            _ => false,
        }
    }

    fn is_scalar(&self) -> (b: bool) {
        match self {
            Value::Scalar(_) => true,
            _ => false,
        }
    }

    fn is_array(&self) -> (b: bool) {
        match self {
            Value::Array(_) => true,
            _ => false,
        }
    }

    fn is_object(&self) -> (b: bool) {
        match self {
            Value::Object(_) => true,
            _ => false,
        }
    }
}

impl Scalar {
    /// Appends the scalar as it is shown to `out`.
    pub fn render_to(&self, out: &mut String)
        ensures
            final(out)@ == old(out)@ + scalar_text(self@),
    {
        match self {
            Scalar::Bool(b) => {
                if *b {
                    proof {
                        reveal_strlit("true");
                    }
                    out.append("true");
                    assert(out@ =~= old(out)@ + bool_text(true));
                } else {
                    proof {
                        reveal_strlit("false");
                    }
                    out.append("false");
                    assert(out@ =~= old(out)@ + bool_text(false));
                }
            },
            Scalar::Integer(i) => push_int(out, *i),
            Scalar::Float(d) => d.render_to(out),
            Scalar::Str(s) => out.append(s.as_str()),
            Scalar::Date(d) => d.render_to(out),
            Scalar::DateTime(t) => t.render_to(out),
        }
    }

    /// Appends the scalar as it is written inside an array or an object to
    /// `out`.
    pub fn render_json_to(&self, out: &mut String)
        ensures
            final(out)@ == old(out)@ + scalar_json(self@),
    {
        match self {
            Scalar::Float(d) => d.render_json_to(out),
            Scalar::Str(s) => push_json_string(out, s.as_str()),
            Scalar::Date(d) => {
                let text = d.render();
                push_json_string(out, text.as_str());
            },
            Scalar::DateTime(t) => {
                let text = t.render();
                push_json_string(out, text.as_str());
            },
            _ => self.render_to(out),
        }
    }

    /// The scalar as it is shown.
    pub fn render(&self) -> (s: String)
        ensures
            s@ == scalar_text(self@),
    {
        let mut s = String::new();
        self.render_to(&mut s);
        assert(Seq::<char>::empty() + scalar_text(self@) =~= scalar_text(self@));
        s
    }

    /// The name of the scalar's kind.
    pub fn kind_name(&self) -> (s: &'static str)
        ensures
            s@ == scalar_kind_name(self@),
    {
        match self {
            Scalar::Bool(_) => "boolean",
            Scalar::Integer(_) => "whole number",
            Scalar::Float(_) => "fractional number",
            Scalar::Str(_) => "string",
            Scalar::Date(_) => "date",
            Scalar::DateTime(_) => "date time",
        }
    }

    /// Whether the scalar is in the state `state`.
    pub fn query_state(&self, state: State) -> (b: bool)
        ensures
            b == in_state(Val::Scalar(self@), state),
    {
        match state {
            State::Truthy => match self {
                Scalar::Bool(b) => *b,
                _ => true,
            },
            State::DefaultValue => match self {
                Scalar::Bool(b) => !*b,
                Scalar::Str(s) => s.as_str().unicode_len() == 0,
                _ => false,
            },
            State::Empty => match self {
                Scalar::Str(s) => s.as_str().unicode_len() == 0,
                _ => false,
            },
            State::Blank => match self {
                Scalar::Bool(b) => !*b,
                Scalar::Str(s) => blank_text(s.as_str()),
                _ => false,
            },
        }
    }

    /// A copy of the scalar.
    pub fn to_scalar(&self) -> (s: Scalar)
        ensures
            s@ == self@,
    {
        match self {
            Scalar::Bool(b) => Scalar::Bool(*b),
            Scalar::Integer(i) => Scalar::Integer(*i),
            Scalar::Float(d) => Scalar::Float(*d),
            Scalar::Str(s) => Scalar::Str(s.clone()),
            Scalar::Date(d) => Scalar::Date(*d),
            Scalar::DateTime(t) => Scalar::DateTime(*t),
        }
    }
}

/// Appends `v` as it is shown to `out`.
pub fn render_value_to(v: &Value, out: &mut String)
    ensures
        final(out)@ == old(out)@ + render_text(v@),
    decreases v@, 2nat,
{
    match v {
        Value::Nil => {
            assert(out@ =~= old(out)@ + render_text(v@));
        },
        Value::Scalar(s) => s.render_to(out),
        Value::Array(a) => {
            let mut s = String::new();
            s.push('[');
            assert(v@->Array_0 == values_view(a@));
            assert(decreases_to!(v@ => v@->Array_0));
            render_items_to(a, &mut s);
            s.push(']');
            out.append(s.as_str());
        },
        Value::Object(o) => {
            let mut s = String::new();
            s.push('{');
            assert(v@->Object_0 == o@);
            assert(decreases_to!(v@ => v@->Object_0));
            let pairs = o.iter();
            render_pairs_to(&pairs, &mut s);
            s.push('}');
            out.append(s.as_str());
        },
    }
}

/// Appends `v` as it is written inside an array or an object to `out`.
pub fn render_element_to(v: &Value, out: &mut String)
    ensures
        final(out)@ == old(out)@ + element_text(v@),
    decreases v@, 3nat,
{
    match v {
        Value::Nil => {
            proof {
                reveal_strlit("nil");
            }
            out.append("nil");
        },
        Value::Scalar(s) => s.render_json_to(out),
        _ => render_value_to(v, out),
    }
}

/// Appends the items, each as an element, with `, ` between them, to `out`.
pub fn render_items_to(items: &Vec<Value>, out: &mut String)
    ensures
        final(out)@ == old(out)@ + items_text(values_view(items@)),
    decreases values_view(items@), 1nat,
{
    let ghost start = out@;
    let ghost all = values_view(items@);
    let mut i: usize = 0;
    assert(out@ =~= start + items_text(all.take(0)));
    while i < items.len()
        invariant
            i <= items@.len(),
            all == values_view(items@),
            out@ == start + items_text(all.take(i as int)),
        decreases items@.len() - i,
    {
        let ghost done = items_text(all.take(i as int));
        if i > 0 {
            out.push(',');
            out.push(' ');
        }
        assert(all[i as int] == items@[i as int]@);
        render_element_to(&items[i], out);
        proof {
            let next = all.take(i + 1);
            assert(next.drop_last() =~= all.take(i as int));
            assert(next.last() == all[i as int]);
            if i > 0 {
                assert(out@ =~= start + (done + seq![',', ' '] + element_text(all[i as int])));
            } else {
                assert(done =~= Seq::<char>::empty());
                assert(out@ =~= start + element_text(all[i as int]));
            }
        }
        i += 1;
    }
    assert(all.take(items@.len() as int) =~= all);
}

/// Appends the entries, in their order, with `, ` between them, to `out`.
/// Each entry is its key between double quotes, `=>`, and its value as an
/// element.
pub fn render_pairs_to(pairs: &Vec<(&str, &Value)>, out: &mut String)
    ensures
        final(out)@ == old(out)@ + entries_text(pairs_view(pairs@)),
    decreases pairs_view(pairs@), 1nat,
{
    let ghost start = out@;
    let ghost all = pairs_view(pairs@);
    let mut i: usize = 0;
    assert(out@ =~= start + entries_text(all.take(0)));
    while i < pairs.len()
        invariant
            i <= pairs@.len(),
            all == pairs_view(pairs@),
            out@ == start + entries_text(all.take(i as int)),
        decreases pairs@.len() - i,
    {
        let ghost done = entries_text(all.take(i as int));
        if i > 0 {
            out.push(',');
            out.push(' ');
        }
        let ghost mid = out@;
        let (key, value) = pairs[i];
        assert(all[i as int] == (key@, value@));
        out.push('"');
        out.append(key);
        out.push('"');
        out.push('=');
        out.push('>');
        assert(decreases_to!(all => all[i as int]));
        assert(decreases_to!(all[i as int] => all[i as int].1));
        render_element_to(value, out);
        proof {
            let next = all.take(i + 1);
            assert(next.drop_last() =~= all.take(i as int));
            assert(next.last() == all[i as int]);
            assert(out@ =~= mid + entry_text(key@, value@));
            if i > 0 {
                assert(out@ =~= start + (done + seq![',', ' '] + entry_text(key@, value@)));
            } else {
                assert(done =~= Seq::<char>::empty());
                assert(out@ =~= start + entry_text(key@, value@));
            }
        }
        i += 1;
    }
    assert(all.take(pairs@.len() as int) =~= all);
}

/// The object of the given entries as rendered output shows it: the
/// entries between braces.
pub fn render_pairs(pairs: &Vec<(&str, &Value)>) -> (text: String)
    ensures
        text@ == render_text(Val::Object(pairs_view(pairs@))),
{
    let mut text = String::new();
    text.push('{');
    render_pairs_to(pairs, &mut text);
    text.push('}');
    text
}

/// The object of the given entries in its debugging form.
pub fn source_pairs(pairs: &Vec<(&str, &Value)>) -> (text: String)
    ensures
        text@ == object_source_text(pairs_view(pairs@)),
{
    let ghost all = pairs_view(pairs@);
    let mut text = String::new();
    text.append("{ObjectSource");
    let ghost head = text@;
    let n = pairs.len();
    let mut i: usize = 0;
    while i < n
        invariant
            i <= n,
            n == pairs@.len(),
            pairs_view(pairs@) == all,
            n >= 2 && i > 0 && i < n ==> text@ == head + (seq!['{'] + closed_entries_text(
                all.take(i as int),
            )),
            i == 0 ==> text@ == head,
            i == n && n > 0 ==> text@ == head + entries_source_text(all),
        decreases n - i,
    {
        if i == 0 && n > 1 {
            text.push('{');
        }
        let ghost opened = text@;
        let (key, value) = pairs[i];
        assert(all[i as int] == (key@, value@));
        text.push('"');
        text.append(key);
        text.push('"');
        text.push(':');
        text.push(' ');
        render_value_to(value, &mut text);
        text.push(',');
        text.push(' ');
        assert(text@ =~= opened + entry_source_text(key@, value@));
        if i + 1 < n {
            text.push('}');
        } else {
            text.push(',');
        }
        proof {
            let entry = entry_source_text(key@, value@);
            if n == 1 {
                assert(text@ =~= head + (entry + seq![',']));
            } else if i + 1 < n {
                let next = all.take(i + 1);
                assert(next.drop_last() =~= all.take(i as int));
                assert(next.last() == all[i as int]);
                if i == 0 {
                    assert(closed_entries_text(all.take(0)) =~= Seq::<char>::empty());
                }
                assert(text@ =~= head + (seq!['{'] + closed_entries_text(next)));
            } else {
                assert(all.drop_last() =~= all.take(i as int));
                assert(all.last() == all[i as int]);
                assert(text@ =~= head + (seq!['{'] + closed_entries_text(all.drop_last())
                    + entry + seq![',']));
            }
        }
        i += 1;
    }
    proof {
        if n == 0 {
            assert(text@ =~= head + entries_source_text(all));
        }
    }
    text.push('}');
    text
}

/// A copy of `v` that owns all it holds.
pub fn clone_value(v: &Value) -> (r: Value)
    ensures
        r@ == v@,
    decreases v@, 2nat,
{
    match v {
        Value::Nil => Value::Nil,
        Value::Scalar(s) => Value::Scalar(s.to_scalar()),
        Value::Array(a) => {
            assert(v@->Array_0 == values_view(a@));
            assert(decreases_to!(v@ => v@->Array_0));
            Value::Array(clone_items(a))
        },
        Value::Object(o) => {
            assert(v@->Object_0 == o@);
            assert(decreases_to!(v@ => v@->Object_0));
            Value::Object(o.to_object())
        },
    }
}

/// A copy of the items that owns all it holds.
pub fn clone_items(items: &Vec<Value>) -> (r: Vec<Value>)
    ensures
        values_view(r@) == values_view(items@),
    decreases values_view(items@), 1nat,
{
    let mut r: Vec<Value> = Vec::new();
    let mut i: usize = 0;
    while i < items.len()
        invariant
            i <= items@.len(),
            r@.len() == i,
            forall|j: int| 0 <= j < i ==> r@[j]@ == items@[j]@,
        decreases items@.len() - i,
    {
        assert(values_view(items@)[i as int] == items@[i as int]@);
        r.push(clone_value(&items[i]));
        i += 1;
    }
    assert(values_view(r@) =~= values_view(items@));
    r
}

} // verus!
