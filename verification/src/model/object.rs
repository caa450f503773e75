//! Objects: mappings from string keys to values, iterated in the ascending
//! order of their keys.

use vstd::prelude::*;
use crate::model::array::clamp_len;
use crate::model::val::{
    ascending, clamped_len, inserted, keys_of, lookup, object_source_text, render_text, values_of,
    Entries, State, Val,
};
use crate::model::value::{
    clone_value, pairs_view, refs_view, render_pairs, source_pairs, strs_view, Value,
};
use crate::model::view::ValueView;
use crate::text::{
    lemma_text_lt_asymmetric, lemma_text_lt_total, lemma_text_lt_transitive, str_eq, str_lt,
    text_lt,
};

verus! {

/// A mapping from string keys to values. No key occurs twice, and the
/// entries are kept, and iterated, in the ascending order of their keys.
#[derive(Debug)]
pub struct Object {
    entries: Vec<(String, Value)>,
}

impl View for Object {
    type V = Entries;

    closed spec fn view(&self) -> Entries
        decreases self,
    {
        entries_view(self.entries@)
    }
}

/// The entries as mathematical data.
pub open spec fn entries_view(entries: Seq<(String, Value)>) -> Entries
    decreases entries,
{
    Seq::new(
        entries.len(),
        |i: int|
            if 0 <= i < entries.len() {
                (entries[i].0@, entries[i].1.view())
            } else {
                (Seq::empty(), Val::Nil)
            },
    )
}

/// Read access to an object.
pub trait ObjectView: ValueView {
    /// The entries of the object, in the order in which they are iterated.
    spec fn entries(&self) -> Entries;

    /// As a value, an object is the object of its entries.
    proof fn lemma_object_model(&self)
        ensures
            self.model() == Val::Object(self.entries()),
    ;

    /// The number of entries.
    fn size(&self) -> (n: i64)
        ensures
            n == clamped_len(self.entries().len()),
    ;

    /// The keys, in the order of iteration.
    fn keys(&self) -> (r: Vec<&str>)
        ensures
            strs_view(r@) == keys_of(self.entries()),
    ;

    /// The values, in the order of iteration.
    fn values(&self) -> (r: Vec<&Value>)
        ensures
            refs_view(r@) == values_of(self.entries()),
    ;

    /// The entries, in the order of iteration.
    fn iter(&self) -> (r: Vec<(&str, &Value)>)
        ensures
            pairs_view(r@) == self.entries(),
    ;

    /// Whether an entry has the key `index`.
    fn contains_key(&self, index: &str) -> (b: bool)
        ensures
            b == lookup(self.entries(), index@) is Some,
    ;

    /// The value under `index`, if an entry has that key.
    fn get(&self, index: &str) -> (r: Option<&Value>)
        ensures
            r is Some == lookup(self.entries(), index@) is Some,
            r matches Some(v) ==> lookup(self.entries(), index@) == Some(v@),
    ;
}

/// A key of an object that is owned.
pub trait ObjectIndex {
    /// The key as mathematical data.
    spec fn index_text(&self) -> Seq<char>;

    /// The key as a string slice.
    fn as_index(&self) -> (s: &str)
        ensures
            s@ == self.index_text(),
    ;
}

impl ObjectIndex for String {
    open spec fn index_text(&self) -> Seq<char> {
        self@
    }

    fn as_index(&self) -> (s: &str) {
        self.as_str()
    }
}

impl ObjectIndex for kstring::KString {
    open spec fn index_text(&self) -> Seq<char> {
        crate::text::kstring_text(*self)
    }

    fn as_index(&self) -> (s: &str) {
        crate::text::kstring_as_str(self)
    }
}

/// The value itself: a value is its own view.
pub fn as_view(value: &Value) -> (v: &Value)
    ensures
        v == value,
{
    value
}

/// A key that matches the entry at `at` matches no other entry, so that is
/// the entry a lookup finds.
pub proof fn lemma_lookup_at(o: Entries, at: int)
    requires
        ascending(keys_of(o)),
        0 <= at < o.len(),
    ensures
        lookup(o, o[at].0) == Some(o[at].1),
    decreases o.len(),
{
    if at == o.len() - 1 {
    } else {
        assert(text_lt(keys_of(o)[at], keys_of(o)[o.len() - 1]));
        lemma_text_lt_asymmetric(o[at].0, o.last().0);
        let front = o.drop_last();
        assert forall|i: int, j: int| 0 <= i < j < keys_of(front).len() implies text_lt(
            #[trigger] keys_of(front)[i],
            #[trigger] keys_of(front)[j],
        ) by {
            assert(text_lt(keys_of(o)[i], keys_of(o)[j]));
        }
        lemma_lookup_at(front, at);
    }
}

/// A key that matches no entry is not found.
pub proof fn lemma_lookup_none(o: Entries, key: Seq<char>)
    requires
        forall|i: int| 0 <= i < o.len() ==> (#[trigger] o[i]).0 != key,
    ensures
        lookup(o, key) is None,
    decreases o.len(),
{
    if o.len() > 0 {
        lemma_lookup_none(o.drop_last(), key);
    }
}

/// Where every key before `at` comes before `key`, putting `key` in leaves
/// the entries before `at` as they are.
pub proof fn lemma_inserted_after(o: Entries, at: int, key: Seq<char>, v: Val)
    requires
        0 <= at <= o.len(),
        forall|i: int| 0 <= i < at ==> text_lt((#[trigger] o[i]).0, key),
    ensures
        inserted(o, key, v) == o.take(at) + inserted(o.skip(at), key, v),
    decreases at,
{
    if at == 0 {
        assert(o.skip(0) =~= o);
        assert(o.take(0) + inserted(o, key, v) =~= inserted(o, key, v));
    } else {
        lemma_text_lt_asymmetric(o[0].0, key);
        let rest = o.drop_first();
        assert forall|i: int| 0 <= i < at - 1 implies text_lt((#[trigger] rest[i]).0, key) by {
            assert(rest[i] == o[i + 1]);
        }
        lemma_inserted_after(rest, at - 1, key, v);
        assert(rest.skip(at - 1) =~= o.skip(at));
        assert(seq![o[0]] + (rest.take(at - 1) + inserted(o.skip(at), key, v)) =~= o.take(at)
            + inserted(o.skip(at), key, v));
    }
}

/// A lookup in `a + b` finds what a lookup in `b` finds, and otherwise what
/// a lookup in `a` finds.
pub proof fn lemma_lookup_concat(a: Entries, b: Entries, key: Seq<char>)
    ensures
        lookup(a + b, key) == match lookup(b, key) {
            Some(v) => Some(v),
            None => lookup(a, key),
        },
    decreases b.len(),
{
    if b.len() == 0 {
        assert(a + b =~= a);
    } else {
        assert((a + b).drop_last() =~= a + b.drop_last());
        assert((a + b).last() == b.last());
        lemma_lookup_concat(a, b.drop_last(), key);
    }
}

/// The entries behind the first of ascending entries ascend, and none of
/// them has a key that does not come after the first key.
pub proof fn lemma_ascending_rest(o: Entries)
    requires
        o.len() > 0,
        ascending(keys_of(o)),
    ensures
        ascending(keys_of(o.drop_first())),
        forall|i: int| 0 <= i < o.len() - 1 ==> text_lt(o[0].0, (#[trigger] o.drop_first()[i]).0),
{
    let rest = o.drop_first();
    assert forall|i: int, j: int| 0 <= i < j < keys_of(rest).len() implies text_lt(
        #[trigger] keys_of(rest)[i],
        #[trigger] keys_of(rest)[j],
    ) by {
        assert(text_lt(keys_of(o)[i + 1], keys_of(o)[j + 1]));
    }
    assert forall|i: int| 0 <= i < o.len() - 1 implies text_lt(
        o[0].0,
        (#[trigger] rest[i]).0,
    ) by {
        assert(text_lt(keys_of(o)[0], keys_of(o)[i + 1]));
    }
}

/// A key that comes before all keys is not found.
pub proof fn lemma_lookup_below(o: Entries, key: Seq<char>)
    requires
        forall|i: int| 0 <= i < o.len() ==> text_lt(key, (#[trigger] o[i]).0),
    ensures
        lookup(o, key) is None,
{
    assert forall|i: int| 0 <= i < o.len() implies (#[trigger] o[i]).0 != key by {
        lemma_text_lt_asymmetric(key, o[i].0);
    }
    lemma_lookup_none(o, key);
}

/// A lookup in one entry finds its value under its key, and nothing else.
pub proof fn lemma_lookup_one(entry: (Seq<char>, Val), key: Seq<char>)
    ensures
        lookup(seq![entry], key) == if key == entry.0 {
            Some(entry.1)
        } else {
            None::<Val>
        },
{
    let one = seq![entry];
    assert(one.last() == entry);
    assert(one.drop_last() =~= Entries::empty());
    assert(lookup(Entries::empty(), key) is None);
}

/// After `key` is put in with the value `v`, a lookup of `key` finds `v`,
/// and a lookup of any other key finds what it found before.
pub proof fn lemma_inserted_lookup(o: Entries, key: Seq<char>, v: Val, other: Seq<char>)
    requires
        ascending(keys_of(o)),
    ensures
        lookup(inserted(o, key, v), other) == if other == key {
            Some(v)
        } else {
            lookup(o, other)
        },
    decreases o.len(),
{
    let one = seq![(key, v)];
    lemma_lookup_one((key, v), other);
    if o.len() == 0 {
    } else {
        let first = seq![o[0]];
        let rest = o.drop_first();
        assert(o =~= first + rest);
        lemma_lookup_one(o[0], other);
        lemma_ascending_rest(o);
        lemma_lookup_concat(first, rest, other);
        if o[0].0 == key {
            lemma_lookup_concat(one, rest, other);
            lemma_lookup_below(rest, key);
        } else if text_lt(key, o[0].0) {
            lemma_lookup_concat(one, o, other);
            assert forall|i: int| 0 <= i < o.len() implies text_lt(key, (#[trigger] o[i]).0) by {
                if i > 0 {
                    assert(o[i] == rest[i - 1]);
                    lemma_text_lt_transitive(key, o[0].0, o[i].0);
                }
            }
            lemma_lookup_below(o, key);
        } else {
            lemma_inserted_lookup(rest, key, v, other);
            lemma_lookup_concat(first, inserted(rest, key, v), other);
        }
    }
}

/// Every key after `key` is put in is `key` or was a key before.
pub proof fn lemma_inserted_keys(o: Entries, key: Seq<char>, v: Val, i: int)
    requires
        0 <= i < inserted(o, key, v).len(),
    ensures
        inserted(o, key, v)[i].0 == key || exists|j: int|
            0 <= j < o.len() && (#[trigger] o[j]).0 == inserted(o, key, v)[i].0,
    decreases o.len(),
{
    if o.len() == 0 {
    } else if o[0].0 == key {
        if i > 0 {
            assert(inserted(o, key, v)[i] == o[i]);
        }
    } else if text_lt(key, o[0].0) {
        if i > 0 {
            assert(inserted(o, key, v)[i] == o[i - 1]);
        }
    } else {
        let rest = o.drop_first();
        if i == 0 {
            assert(inserted(o, key, v)[0] == o[0]);
        } else {
            assert(inserted(o, key, v)[i] == inserted(rest, key, v)[i - 1]);
            lemma_inserted_keys(rest, key, v, i - 1);
            if inserted(rest, key, v)[i - 1].0 != key {
                let j = choose|j: int|
                    0 <= j < rest.len() && (#[trigger] rest[j]).0 == inserted(rest, key, v)[i
                        - 1].0;
                assert(o[j + 1] == rest[j]);
            }
        }
    }
}

/// Putting a key into ascending entries leaves them ascending.
pub proof fn lemma_inserted_ascending(o: Entries, key: Seq<char>, v: Val)
    requires
        ascending(keys_of(o)),
    ensures
        ascending(keys_of(inserted(o, key, v))),
    decreases o.len(),
{
    let after = inserted(o, key, v);
    if o.len() == 0 {
    } else {
        lemma_ascending_rest(o);
        let rest = o.drop_first();
        if o[0].0 == key {
            assert forall|a: int, b: int| 0 <= a < b < keys_of(after).len() implies text_lt(
                #[trigger] keys_of(after)[a],
                #[trigger] keys_of(after)[b],
            ) by {
                assert(keys_of(after)[a] == keys_of(o)[a]);
                assert(keys_of(after)[b] == keys_of(o)[b]);
            }
        } else if text_lt(key, o[0].0) {
            assert forall|a: int, b: int| 0 <= a < b < keys_of(after).len() implies text_lt(
                #[trigger] keys_of(after)[a],
                #[trigger] keys_of(after)[b],
            ) by {
                assert(keys_of(after)[b] == keys_of(o)[b - 1]);
                if a == 0 {
                    if b > 1 {
                        assert(text_lt(keys_of(o)[0], keys_of(o)[b - 1]));
                        lemma_text_lt_transitive(key, o[0].0, o[b - 1].0);
                    }
                } else {
                    assert(keys_of(after)[a] == keys_of(o)[a - 1]);
                    assert(text_lt(keys_of(o)[a - 1], keys_of(o)[b - 1]));
                }
            }
        } else {
            lemma_text_lt_total(key, o[0].0);
            lemma_inserted_ascending(rest, key, v);
            let inner = inserted(rest, key, v);
            assert forall|a: int, b: int| 0 <= a < b < keys_of(after).len() implies text_lt(
                #[trigger] keys_of(after)[a],
                #[trigger] keys_of(after)[b],
            ) by {
                assert(keys_of(after)[b] == keys_of(inner)[b - 1]);
                if a == 0 {
                    assert(keys_of(after)[0] == o[0].0);
                    lemma_inserted_keys(rest, key, v, b - 1);
                    if inner[b - 1].0 != key {
                        let j = choose|j: int|
                            0 <= j < rest.len() && (#[trigger] rest[j]).0 == inner[b - 1].0;
                        assert(text_lt(o[0].0, rest[j].0));
                    }
                } else {
                    assert(keys_of(after)[a] == keys_of(inner)[a - 1]);
                    assert(text_lt(keys_of(inner)[a - 1], keys_of(inner)[b - 1]));
                }
            }
        }
    }
}

impl Object {
    /// What holds of every object that exists at run time: each key comes
    /// before every later one.
    #[verifier::type_invariant]
    pub closed spec fn wf(self) -> bool {
        ascending(keys_of(self@))
    }

    /// The keys of a well-formed object ascend.
    pub proof fn lemma_ascending(self)
        requires
            self.wf(),
        ensures
            ascending(keys_of(self@)),
    {
    }

    /// An object without entries.
    pub fn new() -> (o: Object)
        ensures
            o@ == Entries::empty(),
    {
        let o = Object { entries: Vec::new() };
        assert(o@ =~= Entries::empty());
        o
    }

    /// The number of entries.
    pub fn len(&self) -> (n: usize)
        ensures
            n == self@.len(),
    {
        self.entries.len()
    }

    /// Whether the object has no entries.
    pub fn is_empty(&self) -> (b: bool)
        ensures
            b == (self@.len() == 0),
    {
        self.entries.len() == 0
    }

    /// The key of the entry at position `i` in the order of iteration.
    pub fn key_at(&self, i: usize) -> (k: &String)
        requires
            i < self@.len(),
        ensures
            k@ == self@[i as int].0,
    {
        &self.entries[i].0
    }

    /// The value of the entry at position `i` in the order of iteration.
    pub fn value_at(&self, i: usize) -> (v: &Value)
        requires
            i < self@.len(),
        ensures
            v@ == self@[i as int].1,
    {
        &self.entries[i].1
    }

    /// The keys, in ascending order.
    pub fn keys(&self) -> (r: Vec<&str>)
        ensures
            strs_view(r@) == keys_of(self@),
            ascending(strs_view(r@)),
    {
        proof {
            use_type_invariant(self);
        }
        let mut r: Vec<&str> = Vec::new();
        let mut i: usize = 0;
        while i < self.entries.len()
            invariant
                i <= self.entries@.len(),
                r@.len() == i,
                forall|j: int| 0 <= j < i ==> (#[trigger] r@[j])@ == self.entries@[j].0@,
            decreases self.entries@.len() - i,
        {
            r.push(self.entries[i].0.as_str());
            i += 1;
        }
        assert(strs_view(r@) =~= keys_of(self@));
        r
    }

    /// The values, in the ascending order of their keys.
    pub fn values(&self) -> (r: Vec<&Value>)
        ensures
            refs_view(r@) == values_of(self@),
    {
        let mut r: Vec<&Value> = Vec::new();
        let mut i: usize = 0;
        while i < self.entries.len()
            invariant
                i <= self.entries@.len(),
                r@.len() == i,
                forall|j: int| 0 <= j < i ==> (#[trigger] r@[j])@ == self.entries@[j].1@,
            decreases self.entries@.len() - i,
        {
            r.push(&self.entries[i].1);
            i += 1;
        }
        assert(refs_view(r@) =~= values_of(self@));
        r
    }

    /// The entries, in the ascending order of their keys.
    pub fn iter(&self) -> (r: Vec<(&str, &Value)>)
        ensures
            pairs_view(r@) == self@,
            ascending(keys_of(pairs_view(r@))),
    {
        proof {
            use_type_invariant(self);
        }
        let mut r: Vec<(&str, &Value)> = Vec::new();
        let mut i: usize = 0;
        while i < self.entries.len()
            invariant
                i <= self.entries@.len(),
                r@.len() == i,
                forall|j: int|
                    0 <= j < i ==> (#[trigger] r@[j]).0@ == self.entries@[j].0@ && r@[j].1@
                        == self.entries@[j].1@,
            decreases self.entries@.len() - i,
        {
            r.push((self.entries[i].0.as_str(), &self.entries[i].1));
            i += 1;
        }
        assert(pairs_view(r@) =~= self@);
        r
    }

    /// A copy of the object that owns all it holds.
    pub fn to_object(&self) -> (o: Object)
        ensures
            o@ == self@,
        decreases self@, 1nat,
    {
        proof {
            use_type_invariant(self);
        }
        let mut entries: Vec<(String, Value)> = Vec::new();
        let mut i: usize = 0;
        while i < self.entries.len()
            invariant
                i <= self.entries@.len(),
                entries@.len() == i,
                self@ == entries_view(self.entries@),
                forall|j: int|
                    0 <= j < i ==> (#[trigger] entries@[j]).0@ == self.entries@[j].0@
                        && entries@[j].1@ == self.entries@[j].1@,
            decreases self.entries@.len() - i,
        {
            assert(self@[i as int].1 == self.entries@[i as int].1@);
            let key = self.entries[i].0.clone();
            let value = clone_value(&self.entries[i].1);
            entries.push((key, value));
            i += 1;
        }
        assert(entries_view(entries@) =~= self@);
        Object { entries }
    }

    /// The position of the entry with the key `key`, if there is one.
    fn position(&self, key: &str) -> (r: Option<usize>)
        ensures
            match r {
                Some(i) => i < self@.len() && self@[i as int].0 == key@,
                None => forall|i: int| 0 <= i < self@.len() ==> (#[trigger] self@[i]).0 != key@,
            },
    {
        let mut i: usize = 0;
        while i < self.entries.len()
            invariant
                i <= self@.len(),
                self@.len() == self.entries@.len(),
                forall|j: int| 0 <= j < i ==> (#[trigger] self@[j]).0 != key@,
            decreases self.entries@.len() - i,
        {
            if str_eq(self.entries[i].0.as_str(), key) {
                return Some(i);
            }
            i += 1;
        }
        None
    }

    /// The value under `key`, if an entry has that key.
    pub fn get(&self, key: &str) -> (r: Option<&Value>)
        ensures
            r is Some == lookup(self@, key@) is Some,
            r matches Some(v) ==> lookup(self@, key@) == Some(v@),
    {
        proof {
            use_type_invariant(self);
        }
        match self.position(key) {
            Some(i) => {
                proof {
                    lemma_lookup_at(self@, i as int);
                }
                Some(&self.entries[i].1)
            },
            None => {
                proof {
                    lemma_lookup_none(self@, key@);
                }
                None
            },
        }
    }

    /// Whether an entry has the key `key`.
    pub fn contains_key(&self, key: &str) -> (b: bool)
        ensures
            b == lookup(self@, key@) is Some,
    {
        self.get(key).is_some()
    }

    /// Puts `value` under `key`, in place of the value that was there if
    /// there was one, which is then returned.
    pub fn insert(&mut self, key: String, value: Value) -> (r: Option<Value>)
        ensures
            final(self)@ == inserted(old(self)@, key@, value@),
            r is Some == lookup(old(self)@, key@) is Some,
            r matches Some(v) ==> lookup(old(self)@, key@) == Some(v@),
    {
        proof {
            use_type_invariant(&*self);
        }
        let ghost before = self@;
        let mut taken = Object { entries: Vec::new() };
        assert(keys_of(taken@) =~= Seq::empty());
        std::mem::swap(self, &mut taken);
        let mut entries = taken.entries;
        assert(entries_view(entries@) == before);
        let mut i: usize = 0;
        while i < entries.len() && str_lt(entries[i].0.as_str(), key.as_str())
            invariant
                i <= entries@.len(),
                entries_view(entries@) == before,
                forall|j: int| 0 <= j < i ==> text_lt((#[trigger] before[j]).0, key@),
            decreases entries@.len() - i,
        {
            i += 1;
        }
        proof {
            lemma_inserted_after(before, i as int, key@, value@);
        }
        let ghost tail = before.skip(i as int);
        let ghost key_text = key@;
        let ghost value_model = value@;
        if i < entries.len() && str_eq(entries[i].0.as_str(), key.as_str()) {
            proof {
                lemma_lookup_at(before, i as int);
                assert(tail[0] == before[i as int]);
                assert(inserted(tail, key@, value@) == seq![(key@, value@)] + tail.drop_first());
            }
            let previous = entries.remove(i);
            entries.insert(i, (key, value));
            proof {
                let after = entries_view(entries@);
                assert(after =~= before.take(i as int) + (seq![(key_text, value_model)]
                    + tail.drop_first()));
                assert forall|a: int, b: int| 0 <= a < b < keys_of(after).len() implies text_lt(
                    #[trigger] keys_of(after)[a],
                    #[trigger] keys_of(after)[b],
                ) by {
                    assert(keys_of(after)[a] == keys_of(before)[a]);
                    assert(keys_of(after)[b] == keys_of(before)[b]);
                    assert(text_lt(keys_of(before)[a], keys_of(before)[b]));
                }
            }
            *self = Object { entries };
            Some(previous.1)
        } else {
            proof {
                if i < before.len() {
                    assert(tail[0] == before[i as int]);
                    lemma_text_lt_total(key@, before[i as int].0);
                    assert(inserted(tail, key@, value@) == seq![(key@, value@)] + tail);
                } else {
                    assert(tail =~= Entries::empty());
                }
                assert forall|j: int| 0 <= j < before.len() implies (#[trigger] before[j]).0
                    != key@ by {
                    if j < i {
                        lemma_text_lt_asymmetric(before[j].0, key@);
                    } else {
                        if j > i {
                            assert(text_lt(keys_of(before)[i as int], keys_of(before)[j]));
                            lemma_text_lt_transitive(key@, before[i as int].0, before[j].0);
                        }
                        lemma_text_lt_asymmetric(key@, before[j].0);
                    }
                }
                lemma_lookup_none(before, key@);
            }
            entries.insert(i, (key, value));
            proof {
                let after = entries_view(entries@);
                assert(after =~= before.take(i as int) + (seq![(key_text, value_model)] + tail));
                assert forall|a: int, b: int| 0 <= a < b < keys_of(after).len() implies text_lt(
                    #[trigger] keys_of(after)[a],
                    #[trigger] keys_of(after)[b],
                ) by {
                    let a0 = if a < i { a } else { a - 1 };
                    let b0 = if b < i { b } else { b - 1 };
                    if a == i {
                        assert(keys_of(after)[b] == keys_of(before)[b0]);
                        if b0 > i {
                            assert(text_lt(keys_of(before)[i as int], keys_of(before)[b0]));
                            lemma_text_lt_transitive(key_text, before[i as int].0, before[b0].0);
                        }
                    } else if b == i {
                        assert(keys_of(after)[a] == keys_of(before)[a]);
                    } else {
                        assert(keys_of(after)[a] == keys_of(before)[a0]);
                        assert(keys_of(after)[b] == keys_of(before)[b0]);
                        assert(text_lt(keys_of(before)[a0], keys_of(before)[b0]));
                    }
                }
            }
            *self = Object { entries };
            None
        }
    }
}

impl ValueView for Object {
    open spec fn model(&self) -> Val {
        Val::Object(self@)
    }

    fn render(&self) -> (s: String) {
        let pairs = Object::iter(self);
        render_pairs(&pairs)
    }

    fn source(&self) -> (s: String) {
        let pairs = Object::iter(self);
        source_pairs(&pairs)
    }

    fn kind_name(&self) -> (s: &'static str) {
        "object"
    }

    fn query_state(&self, state: State) -> (b: bool) {
        match state {
            State::Truthy => true,
            _ => self.is_empty(),
        }
    }

    fn to_kstr(&self) -> (s: kstring::KString) {
        let pairs = Object::iter(self);
        crate::text::kstring_from_string(render_pairs(&pairs))
    }

    fn to_value(&self) -> (v: Value) {
        Value::Object(self.to_object())
    }

    fn is_nil(&self) -> (b: bool) {
        false
    }

    fn is_scalar(&self) -> (b: bool) {
        false
    }

    fn is_array(&self) -> (b: bool) {
        false
    }

    fn is_object(&self) -> (b: bool) {
        true
    }
}

impl ObjectView for Object {
    open spec fn entries(&self) -> Entries {
        self@
    }

    proof fn lemma_object_model(&self) {
    }

    fn size(&self) -> (n: i64) {
        clamp_len(self.len())
    }

    fn keys(&self) -> (r: Vec<&str>) {
        Object::keys(self)
    }

    fn values(&self) -> (r: Vec<&Value>) {
        Object::values(self)
    }

    fn iter(&self) -> (r: Vec<(&str, &Value)>) {
        Object::iter(self)
    }

    fn contains_key(&self, index: &str) -> (b: bool) {
        Object::contains_key(self, index)
    }

    fn get(&self, index: &str) -> (r: Option<&Value>) {
        match Object::get(self, index) {
            Some(v) => Some(as_view(v)),
            None => None,
        }
    }
}

/// Shows an object in its debugging form.
#[derive(Debug)]
pub struct ObjectSource<'s, O: ObjectView> {
    s: &'s O,
}

impl<'s, O: ObjectView> ObjectSource<'s, O> {
    /// A renderer of `other`.
    pub fn new(other: &'s O) -> (r: Self)
        ensures
            r.entries() == other.entries(),
    {
        Self { s: other }
    }

    /// The entries of the object that is shown.
    pub closed spec fn entries(&self) -> Entries {
        self.s.entries()
    }

    /// The object in its debugging form. After `{ObjectSource` each entry
    /// is written as its key between double quotes, `: `, the rendered
    /// value and `, `. An opening brace stands before the first of several
    /// entries, a closing brace after each entry but the last, a comma
    /// after the last, and a closing brace at the end.
    pub fn render(&self) -> (text: String)
        ensures
            text@ == object_source_text(self.entries()),
    {
        let pairs = self.s.iter();
        source_pairs(&pairs)
    }
}

/// Shows an object as rendered output shows it.
#[derive(Debug)]
pub struct ObjectRender<'s, O: ObjectView> {
    s: &'s O,
}

impl<'s, O: ObjectView> ObjectRender<'s, O> {
    /// A renderer of `other`.
    pub fn new(other: &'s O) -> (r: Self)
        ensures
            r.entries() == other.entries(),
    {
        Self { s: other }
    }

    /// The entries of the object that is shown.
    pub closed spec fn entries(&self) -> Entries {
        self.s.entries()
    }

    /// The object as rendered output shows it: between braces the entries
    /// in the order of iteration, with `, ` between them; each entry is its
    /// key between double quotes, `=>`, and the value, which is written as
    /// `nil` if it is nil, as it is rendered if it is an array or an object,
    /// and as JSON if it is a scalar.
    pub fn render(&self) -> (text: String)
        ensures
            text@ == render_text(Val::Object(self.entries())),
    {
        let pairs = self.s.iter();
        render_pairs(&pairs)
    }
}

} // verus!
