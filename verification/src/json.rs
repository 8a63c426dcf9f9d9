//! JSON values as plain data, with their mathematical model.

use vstd::prelude::*;

verus! {

/// A JSON number.
#[derive(Debug, PartialEq, Eq)]
pub enum Number {
    /// An integer that fits in `i64`.
    Int(i64),
    /// Any other number, as its decimal text.
    Other(String),
}

/// The mathematical content of a JSON number.
pub ghost enum NumberModel {
    Int(i64),
    Other(Seq<char>),
}

impl View for Number {
    type V = NumberModel;

    open spec fn view(&self) -> NumberModel {
        match *self {
            Number::Int(i) => NumberModel::Int(i),
            Number::Other(text) => NumberModel::Other(text@),
        }
    }
}

/// A JSON value as a tree of plain data.
#[derive(Debug, PartialEq, Eq)]
pub enum JsonValue {
    Null,
    Bool(bool),
    Number(Number),
    String(String),
    Array(Vec<JsonValue>),
    Object(Object),
}

/// A JSON object: a list of entries. Where a key occurs more than once, the
/// first entry with that key is the one that counts.
#[derive(Debug, PartialEq, Eq)]
pub struct Object {
    pub entries: Vec<(String, JsonValue)>,
}

/// The mathematical content of a JSON value.
pub ghost enum Json {
    Null,
    Bool(bool),
    Number(NumberModel),
    String(Seq<char>),
    Array(Seq<Json>),
    Object(Seq<(Seq<char>, Json)>),
}

/// The models of a list of entries, in order.
pub open spec fn entries_model(entries: Seq<(String, JsonValue)>) -> Seq<(Seq<char>, Json)>
    decreases entries, 0nat,
{
    if entries.len() == 0 {
        Seq::empty()
    } else {
        entries_model(entries.drop_last()).push(
            (entries.last().0@, value_model(entries.last().1)),
        )
    }
}

/// The models of a list of values, in order.
pub open spec fn values_model(values: Seq<JsonValue>) -> Seq<Json>
    decreases values, 0nat,
{
    if values.len() == 0 {
        Seq::empty()
    } else {
        values_model(values.drop_last()).push(value_model(values.last()))
    }
}

/// The model of one value.
pub open spec fn value_model(v: JsonValue) -> Json
    decreases v, 1nat,
{
    match v {
        JsonValue::Null => Json::Null,
        JsonValue::Bool(b) => Json::Bool(b),
        JsonValue::Number(n) => Json::Number(n@),
        JsonValue::String(s) => Json::String(s@),
        JsonValue::Array(a) => Json::Array(values_model(a@)),
        JsonValue::Object(o) => Json::Object(entries_model(o.entries@)),
    }
}

/// The value that a list of entries holds under `key`: that of the first
/// entry with this key.
pub open spec fn lookup<T>(entries: Seq<(Seq<char>, T)>, key: Seq<char>) -> Option<T>
    decreases entries.len(),
{
    if entries.len() == 0 {
        None
    } else if entries[0].0 == key {
        Some(entries[0].1)
    } else {
        lookup(entries.drop_first(), key)
    }
}

impl View for JsonValue {
    type V = Json;

    open spec fn view(&self) -> Json {
        value_model(*self)
    }
}

impl View for Object {
    type V = Seq<(Seq<char>, Json)>;

    open spec fn view(&self) -> Seq<(Seq<char>, Json)> {
        entries_model(self.entries@)
    }
}

/// The model of an optional value.
pub open spec fn option_model(v: Option<JsonValue>) -> Option<Json> {
    match v {
        Some(v) => Some(v@),
        None => None,
    }
}

/// The model of a value that may have been found.
pub open spec fn found_model(found: Option<&JsonValue>) -> Option<Json> {
    match found {
        Some(v) => Some(v@),
        None => None,
    }
}

/// `values_model` works element by element.
pub proof fn lemma_values_model(values: Seq<JsonValue>)
    ensures
        values_model(values).len() == values.len(),
        forall|i: int| 0 <= i < values.len() ==> #[trigger] values_model(values)[i] == values[i]@,
    decreases values.len(),
{
    if values.len() > 0 {
        lemma_values_model(values.drop_last());
    }
}

/// `entries_model` works entry by entry.
pub proof fn lemma_entries_model(entries: Seq<(String, JsonValue)>)
    ensures
        entries_model(entries).len() == entries.len(),
        forall|i: int|
            0 <= i < entries.len() ==> #[trigger] entries_model(entries)[i] == (
                entries[i].0@,
                entries[i].1@,
            ),
    decreases entries.len(),
{
    if entries.len() > 0 {
        lemma_entries_model(entries.drop_last());
    }
}

/// Appending a value appends its model.
pub proof fn lemma_values_model_push(values: Seq<JsonValue>, v: JsonValue)
    ensures
        values_model(values.push(v)) == values_model(values).push(v@),
{
    assert(values.push(v).drop_last() =~= values);
}

/// Appending an entry appends its model.
pub proof fn lemma_entries_model_push(entries: Seq<(String, JsonValue)>, k: String, v: JsonValue)
    ensures
        entries_model(entries.push((k, v))) == entries_model(entries).push((k@, v@)),
{
    assert(entries.push((k, v)).drop_last() =~= entries);
}

/// Entries that do not have the key may be skipped in a lookup.
pub proof fn lemma_lookup_skip<T>(entries: Seq<(Seq<char>, T)>, key: Seq<char>, n: int)
    requires
        0 <= n <= entries.len(),
        forall|j: int| 0 <= j < n ==> (#[trigger] entries[j]).0 != key,
    ensures
        lookup(entries, key) == lookup(entries.skip(n), key),
    decreases n,
{
    if n == 0 {
        assert(entries.skip(0) =~= entries);
    } else {
        assert(entries[0].0 != key);
        let rest = entries.drop_first();
        assert forall|j: int| 0 <= j < n - 1 implies (#[trigger] rest[j]).0 != key by {
            assert(entries[j + 1].0 != key);
        }
        lemma_lookup_skip(rest, key, n - 1);
        assert(rest.skip(n - 1) =~= entries.skip(n));
    }
}

impl Object {
    /// The value stored under `key`, if the object has that key.
    pub fn get(&self, key: &String) -> (found: Option<&JsonValue>)
        ensures
            match found {
                Some(v) => lookup(self@, key@) == Some(v@),
                None => lookup(self@, key@) is None,
            },
    {
        let mut i: usize = 0;
        proof {
            lemma_entries_model(self.entries@);
        }
        while i < self.entries.len()
            invariant
                i <= self.entries.len(),
                self@.len() == self.entries.len(),
                forall|j: int|
                    0 <= j < self.entries.len() ==> #[trigger] self@[j] == (
                        self.entries[j].0@,
                        self.entries[j].1@,
                    ),
                forall|j: int| 0 <= j < i ==> (#[trigger] self@[j]).0 != key@,
            decreases self.entries.len() - i,
        {
            if self.entries[i].0 == *key {
                proof {
                    lemma_lookup_skip(self@, key@, i as int);
                    assert(self@.skip(i as int)[0] == self@[i as int]);
                }
                return Some(&self.entries[i].1);
            }
            i += 1;
        }
        proof {
            lemma_lookup_skip(self@, key@, i as int);
        }
        None
    }
}

impl JsonValue {
    /// A deep copy of this value.
    pub fn duplicate(&self) -> (copy: JsonValue)
        ensures
            copy@ == self@,
        decreases self,
    {
        match self {
            JsonValue::Null => JsonValue::Null,
            JsonValue::Bool(b) => JsonValue::Bool(*b),
            JsonValue::Number(n) => match n {
                Number::Int(i) => JsonValue::Number(Number::Int(*i)),
                Number::Other(text) => JsonValue::Number(Number::Other(text.clone())),
            },
            JsonValue::String(s) => JsonValue::String(s.clone()),
            JsonValue::Array(items) => {
                let mut out: Vec<JsonValue> = Vec::new();
                let mut i: usize = 0;
                while i < items.len()
                    invariant
                        i <= items.len(),
                        values_model(out@) == values_model(items@.take(i as int)),
                        forall|j: int| 0 <= j < items.len() ==> decreases_to!(self => items[j]),
                    decreases items.len() - i,
                {
                    let item = items[i].duplicate();
                    proof {
                        lemma_values_model_push(out@, item);
                        lemma_values_model_push(items@.take(i as int), items@[i as int]);
                        assert(items@.take(i as int).push(items@[i as int]) =~= items@.take(
                            i + 1,
                        ));
                    }
                    out.push(item);
                    i += 1;
                }
                proof {
                    assert(items@.take(items.len() as int) =~= items@);
                }
                JsonValue::Array(out)
            },
            JsonValue::Object(o) => {
                let mut out: Vec<(String, JsonValue)> = Vec::new();
                let mut i: usize = 0;
                while i < o.entries.len()
                    invariant
                        i <= o.entries.len(),
                        entries_model(out@) == entries_model(o.entries@.take(i as int)),
                        forall|j: int|
                            0 <= j < o.entries.len() ==> decreases_to!(self => o.entries[j]),
                    decreases o.entries.len() - i,
                {
                    let key = o.entries[i].0.clone();
                    let item = o.entries[i].1.duplicate();
                    proof {
                        lemma_entries_model_push(out@, key, item);
                        lemma_entries_model_push(
                            o.entries@.take(i as int),
                            o.entries@[i as int].0,
                            o.entries@[i as int].1,
                        );
                        assert(o.entries@.take(i as int).push(o.entries@[i as int])
                            =~= o.entries@.take(i + 1));
                    }
                    out.push((key, item));
                    i += 1;
                }
                proof {
                    assert(o.entries@.take(o.entries.len() as int) =~= o.entries@);
                }
                JsonValue::Object(Object { entries: out })
            },
        }
    }
}

} // verus!
