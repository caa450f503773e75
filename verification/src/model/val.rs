//! The mathematical model of values and what is said of it: how a value is
//! shown, which states it is in, where a key is found.

use vstd::prelude::*;
use crate::model::scalar::{
    bool_text, decimal_json, scalar_text, scalar_kind_name, ScalarModel,
};
use crate::model::datetime::{date_text, date_time_text};
use crate::text::{int_text, is_blank_text, text_lt};

verus! {

/// A value as mathematical data. An object is the sequence of its entries,
/// in the order in which they are iterated.
pub enum Val {
    Nil,
    Scalar(ScalarModel),
    Array(Seq<Val>),
    Object(Seq<(Seq<char>, Val)>),
}

/// The entries of an object, in the order in which they are iterated.
pub type Entries = Seq<(Seq<char>, Val)>;

/// The states a value can be asked about.
#[derive(Clone, Copy, Debug, PartialEq, Eq, Structural)]
pub enum State {
    /// Everything but nil and `false`.
    Truthy,
    /// What the `default` filter replaces: nil, `false`, and what is empty.
    DefaultValue,
    /// Nil, and a string, array or object that holds nothing.
    Empty,
    /// Nil, `false`, a string of whitespace, and an empty array or object.
    Blank,
}

/// Whether the value `v` is in the state `state`.
pub open spec fn in_state(v: Val, state: State) -> bool {
    match v {
        Val::Nil => state != State::Truthy,
        Val::Scalar(s) => match state {
            State::Truthy => s != ScalarModel::Bool(false),
            State::DefaultValue => s == ScalarModel::Bool(false) || (s matches ScalarModel::Str(t)
                && t.len() == 0),
            State::Empty => s matches ScalarModel::Str(t) && t.len() == 0,
            State::Blank => s == ScalarModel::Bool(false) || (s matches ScalarModel::Str(t)
                && is_blank_text(t)),
        },
        Val::Array(a) => state == State::Truthy || a.len() == 0,
        Val::Object(o) => state == State::Truthy || o.len() == 0,
    }
}

/// The name of a value's kind.
pub open spec fn kind_name_of(v: Val) -> Seq<char> {
    match v {
        Val::Nil => "nil"@,
        Val::Scalar(s) => scalar_kind_name(s),
        Val::Array(_) => "array"@,
        Val::Object(_) => "object"@,
    }
}

/// What a character becomes inside a JSON string.
pub open spec fn json_escape(c: char) -> Seq<char> {
    if c == '"' {
        seq!['\\', '"']
    } else if c == '\\' {
        seq!['\\', '\\']
    } else if c == '\x08' {
        seq!['\\', 'b']
    } else if c == '\t' {
        seq!['\\', 't']
    } else if c == '\n' {
        seq!['\\', 'n']
    } else if c == '\x0C' {
        seq!['\\', 'f']
    } else if c == '\r' {
        seq!['\\', 'r']
    } else if (c as u32) < 0x20 {
        seq!['\\', 'u', '0', '0', hex_digit((c as u32) as int / 16), hex_digit((c as u32) as int % 16)]
    } else {
        seq![c]
    }
}

/// The lower-case hexadecimal digit for `d`.
pub open spec fn hex_digit(d: int) -> char {
    if d == 0 {
        '0'
    } else if d == 1 {
        '1'
    } else if d == 2 {
        '2'
    } else if d == 3 {
        '3'
    } else if d == 4 {
        '4'
    } else if d == 5 {
        '5'
    } else if d == 6 {
        '6'
    } else if d == 7 {
        '7'
    } else if d == 8 {
        '8'
    } else if d == 9 {
        '9'
    } else if d == 10 {
        'a'
    } else if d == 11 {
        'b'
    } else if d == 12 {
        'c'
    } else if d == 13 {
        'd'
    } else if d == 14 {
        'e'
    } else {
        'f'
    }
}

/// The characters of `s`, each as it stands inside a JSON string.
pub open spec fn json_body(s: Seq<char>) -> Seq<char>
    decreases s.len(),
{
    if s.len() == 0 {
        Seq::empty()
    } else {
        json_body(s.drop_last()) + json_escape(s.last())
    }
}

/// `s` as a JSON string: between double quotes, with the quote, the
/// backslash and the control characters escaped.
pub open spec fn json_quoted(s: Seq<char>) -> Seq<char> {
    seq!['"'] + json_body(s) + seq!['"']
}

/// How a scalar is written inside an array or an object: as JSON.
pub open spec fn scalar_json(s: ScalarModel) -> Seq<char> {
    match s {
        ScalarModel::Bool(b) => bool_text(b),
        ScalarModel::Integer(i) => int_text(i),
        ScalarModel::Float(d) => decimal_json(d),
        ScalarModel::Str(t) => json_quoted(t),
        ScalarModel::Date(d) => json_quoted(date_text(d)),
        ScalarModel::DateTime(t) => json_quoted(date_time_text(t)),
    }
}

/// How a value is shown in rendered output.
pub open spec fn render_text(v: Val) -> Seq<char>
    decreases v, 2nat,
{
    match v {
        Val::Nil => Seq::empty(),
        Val::Scalar(s) => scalar_text(s),
        Val::Array(a) => seq!['['] + items_text(a) + seq![']'],
        Val::Object(o) => seq!['{'] + entries_text(o) + seq!['}'],
    }
}

/// How a value is written inside an array or an object: `nil` for nil, a
/// scalar as JSON, an array or an object as it is shown.
pub open spec fn element_text(v: Val) -> Seq<char>
    decreases v, 3nat,
{
    match v {
        Val::Nil => "nil"@,
        Val::Scalar(s) => scalar_json(s),
        _ => render_text(v),
    }
}

/// The items of an array, each as an element, with `, ` between them.
pub open spec fn items_text(a: Seq<Val>) -> Seq<char>
    decreases a, 1nat,
{
    if a.len() == 0 {
        Seq::empty()
    } else if a.len() == 1 {
        element_text(a[0])
    } else {
        items_text(a.drop_last()) + seq![',', ' '] + element_text(a.last())
    }
}

/// One entry of an object: the key between double quotes, `=>`, and the
/// value as an element.
pub open spec fn entry_text(key: Seq<char>, v: Val) -> Seq<char>
    decreases v, 4nat,
{
    seq!['"'] + key + seq!['"', '=', '>'] + element_text(v)
}

/// The entries of an object, in their order, with `, ` between them.
pub open spec fn entries_text(o: Entries) -> Seq<char>
    decreases o, 1nat,
{
    if o.len() == 0 {
        Seq::empty()
    } else if o.len() == 1 {
        entry_text(o[0].0, o[0].1)
    } else {
        entries_text(o.drop_last()) + seq![',', ' '] + entry_text(o.last().0, o.last().1)
    }
}

/// The debugging form of a value: `nil` for nil, a string between double
/// quotes, every other scalar as it is shown.
pub open spec fn source_text(v: Val) -> Seq<char> {
    match v {
        Val::Nil => "nil"@,
        Val::Scalar(ScalarModel::Str(t)) => seq!['"'] + t + seq!['"'],
        Val::Scalar(s) => scalar_text(s),
        Val::Array(a) => array_source_text(a),
        Val::Object(o) => object_source_text(o),
    }
}

/// The debugging form of an array.
pub open spec fn array_source_text(a: Seq<Val>) -> Seq<char> {
    "ArraySource["@ + items_text(a) + seq![']']
}

/// One entry in the debugging form of an object.
pub open spec fn entry_source_text(key: Seq<char>, v: Val) -> Seq<char> {
    seq!['"'] + key + seq!['"', ':', ' '] + render_text(v) + seq![',', ' ']
}

/// The entries in front of the last one in the debugging form of an
/// object: each is followed by a closing brace.
pub open spec fn closed_entries_text(o: Entries) -> Seq<char>
    decreases o.len(),
{
    if o.len() == 0 {
        Seq::empty()
    } else {
        closed_entries_text(o.drop_last()) + entry_source_text(o.last().0, o.last().1) + seq!['}']
    }
}

/// The entries in the debugging form of an object. An opening brace stands
/// before the first of several entries, a closing brace after each entry
/// but the last, and a comma after the last.
pub open spec fn entries_source_text(o: Entries) -> Seq<char> {
    if o.len() == 0 {
        Seq::empty()
    } else if o.len() == 1 {
        entry_source_text(o[0].0, o[0].1) + seq![',']
    } else {
        seq!['{'] + closed_entries_text(o.drop_last()) + entry_source_text(
            o.last().0,
            o.last().1,
        ) + seq![',']
    }
}

/// The debugging form of an object.
pub open spec fn object_source_text(o: Entries) -> Seq<char> {
    "{ObjectSource"@ + entries_source_text(o) + seq!['}']
}

/// The keys of the entries, in their order.
pub open spec fn keys_of(o: Entries) -> Seq<Seq<char>> {
    Seq::new(o.len(), |i: int| o[i].0)
}

/// The values of the entries, in their order.
pub open spec fn values_of(o: Entries) -> Seq<Val> {
    Seq::new(o.len(), |i: int| o[i].1)
}

/// Whether each key comes before every later one.
pub open spec fn ascending(keys: Seq<Seq<char>>) -> bool {
    forall|i: int, j: int| 0 <= i < j < keys.len() ==> text_lt(#[trigger] keys[i], #[trigger] keys[j])
}

/// The value under `key`, if an entry has that key.
pub open spec fn lookup(o: Entries, key: Seq<char>) -> Option<Val>
    decreases o.len(),
{
    if o.len() == 0 {
        None
    } else if o.last().0 == key {
        Some(o.last().1)
    } else {
        lookup(o.drop_last(), key)
    }
}

/// The entries with `(key, v)` put in its place in the order of the keys:
/// in place of the entry with that key if there is one.
pub open spec fn inserted(o: Entries, key: Seq<char>, v: Val) -> Entries
    decreases o.len(),
{
    if o.len() == 0 {
        seq![(key, v)]
    } else if o[0].0 == key {
        seq![(key, v)] + o.drop_first()
    } else if text_lt(key, o[0].0) {
        seq![(key, v)] + o
    } else {
        seq![o[0]] + inserted(o.drop_first(), key, v)
    }
}

/// A length as a signed 64-bit number: the largest such number where the
/// length is beyond it.
pub open spec fn clamped_len(len: nat) -> int {
    if len <= i64::MAX {
        len as int
    } else {
        i64::MAX as int
    }
}

/// The position an index names in a sequence of `len` items: a negative
/// index counts from the end.
pub open spec fn normalized_index(index: int, len: int) -> int {
    if 0 <= index {
        index
    } else {
        len + index
    }
}

/// The item of `a` that `index` names, if it names one.
pub open spec fn item_at(a: Seq<Val>, index: int) -> Option<Val> {
    let i = normalized_index(index, a.len() as int);
    if 0 <= i < a.len() {
        Some(a[i])
    } else {
        None
    }
}

/// A negative index that reaches into the array names the item that the
/// index counted from the front names.
pub proof fn lemma_negative_index(a: Seq<Val>, index: int)
    requires
        -a.len() <= index < 0,
    ensures
        item_at(a, index) == item_at(a, a.len() + index),
        item_at(a, index) is Some,
{
}

/// An index at or beyond the length, or further below zero than the
/// length, names no item.
pub proof fn lemma_index_out_of_range(a: Seq<Val>, index: int)
    requires
        index >= a.len() || index < -a.len(),
    ensures
        item_at(a, index) is None,
{
}

/// A value is truthy if and only if it is neither nil nor `false`.
pub proof fn lemma_truthy(v: Val)
    ensures
        in_state(v, State::Truthy) <==> !(v is Nil || v == Val::Scalar(ScalarModel::Bool(false))),
{
}

} // verus!
