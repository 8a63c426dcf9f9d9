//! The nodes of a document, and how they are read off JSON values.

use crate::format::{
    decoded_data, decoded_entries, decoded_items, is_tag, is_transform, outline, FormatError,
};
use crate::json::{
    lemma_entries_model, lemma_lookup_skip, lemma_values_model, lookup, values_model, Json,
    JsonValue, Number, Object,
};
use crate::xforms::{Transform, TransformModel, TransformSource, Transformable};
use vstd::prelude::*;

verus! {

/// A node of a document.
#[derive(Debug, PartialEq)]
pub enum Data {
    String(String),
    Number(i64),
    Bool(bool),
    Object(DataObject),
    Transform(Transform),
    Array(Vec<Data>),
}

/// The entries of an object of a document, in order.
#[derive(Debug, PartialEq)]
pub struct DataObject {
    pub entries: Vec<(String, Data)>,
}

/// The model of a [`Data`].
pub ghost enum DataModel {
    String(Seq<char>),
    Number(i64),
    Bool(bool),
    Object(Seq<(Seq<char>, DataModel)>),
    Transform(TransformModel),
    Array(Seq<DataModel>),
}

/// The models of a list of document entries, in order.
pub open spec fn data_entries_model(entries: Seq<(String, Data)>) -> Seq<(Seq<char>, DataModel)>
    decreases entries, 0nat,
{
    if entries.len() == 0 {
        Seq::empty()
    } else {
        data_entries_model(entries.drop_last()).push(
            (entries.last().0@, data_model(entries.last().1)),
        )
    }
}

/// The models of a list of document nodes, in order.
pub open spec fn data_items_model(items: Seq<Data>) -> Seq<DataModel>
    decreases items, 0nat,
{
    if items.len() == 0 {
        Seq::empty()
    } else {
        data_items_model(items.drop_last()).push(data_model(items.last()))
    }
}

/// The model of one document node.
pub open spec fn data_model(d: Data) -> DataModel
    decreases d, 1nat,
{
    match d {
        Data::String(s) => DataModel::String(s@),
        Data::Number(n) => DataModel::Number(n),
        Data::Bool(b) => DataModel::Bool(b),
        Data::Object(o) => DataModel::Object(data_entries_model(o.entries@)),
        Data::Transform(t) => DataModel::Transform(t@),
        Data::Array(items) => DataModel::Array(data_items_model(items@)),
    }
}

impl View for Data {
    type V = DataModel;

    open spec fn view(&self) -> DataModel {
        data_model(*self)
    }
}

impl View for DataObject {
    type V = Seq<(Seq<char>, DataModel)>;

    open spec fn view(&self) -> Seq<(Seq<char>, DataModel)> {
        data_entries_model(self.entries@)
    }
}

/// The lists of models work element by element.
pub proof fn lemma_data_items_model(items: Seq<Data>)
    ensures
        data_items_model(items).len() == items.len(),
        forall|i: int| 0 <= i < items.len() ==> #[trigger] data_items_model(items)[i] == items[i]@,
    decreases items.len(),
{
    if items.len() > 0 {
        lemma_data_items_model(items.drop_last());
    }
}

/// The lists of entry models work entry by entry.
pub proof fn lemma_data_entries_model(entries: Seq<(String, Data)>)
    ensures
        data_entries_model(entries).len() == entries.len(),
        forall|i: int|
            0 <= i < entries.len() ==> #[trigger] data_entries_model(entries)[i] == (
                entries[i].0@,
                entries[i].1@,
            ),
    decreases entries.len(),
{
    if entries.len() > 0 {
        lemma_data_entries_model(entries.drop_last());
    }
}

/// An error among the first values of a list is the error of the whole list.
pub proof fn lemma_decoded_items_prefix(items: Seq<Json>, n: int)
    requires
        0 <= n <= items.len(),
        decoded_items(items.take(n)) is Err,
    ensures
        decoded_items(items) == decoded_items(items.take(n)),
    decreases items.len(),
{
    if n == items.len() {
        assert(items.take(n) =~= items);
    } else {
        assert(items.drop_last().take(n) =~= items.take(n));
        lemma_decoded_items_prefix(items.drop_last(), n);
    }
}

/// An error among the first entries of a list is the error of the whole
/// list.
pub proof fn lemma_decoded_entries_prefix(entries: Seq<(Seq<char>, Json)>, n: int)
    requires
        0 <= n <= entries.len(),
        decoded_entries(entries.take(n)) is Err,
    ensures
        decoded_entries(entries) == decoded_entries(entries.take(n)),
    decreases entries.len(),
{
    if n == entries.len() {
        assert(entries.take(n) =~= entries);
    } else {
        assert(entries.drop_last().take(n) =~= entries.take(n));
        lemma_decoded_entries_prefix(entries.drop_last(), n);
    }
}

/// Whether an array of a document is a transform rather than a list.
pub fn starts_transform(value: &JsonValue) -> (yes: bool)
    ensures
        yes == is_transform(value@),
{
    match outline(value) {
        Some((tag, _, _)) => is_tag(tag, "xf_map") || is_tag(tag, "xf_pluck"),
        None => false,
    }
}

/// Reads a list of nodes off a list of JSON values. The first value that
/// stands for no node decides the error.
pub fn deserialize_items(items: &Vec<JsonValue>) -> (out: Result<Vec<Data>, FormatError>)
    ensures
        match out {
            Ok(nodes) => decoded_items(values_model(items@)) == Ok::<Seq<DataModel>, FormatError>(
                data_items_model(nodes@),
            ),
            Err(e) => decoded_items(values_model(items@)) == Err::<Seq<DataModel>, FormatError>(e),
        },
    decreases items, 0nat,
{
    let ghost models = values_model(items@);
    let mut nodes: Vec<Data> = Vec::new();
    let mut i: usize = 0;
    proof {
        lemma_values_model(items@);
    }
    while i < items.len()
        invariant
            i <= items.len(),
            models == values_model(items@),
            models.len() == items.len(),
            forall|j: int| 0 <= j < items.len() ==> #[trigger] models[j] == items@[j]@,
            decoded_items(models.take(i as int)) == Ok::<Seq<DataModel>, FormatError>(
                data_items_model(nodes@),
            ),
        decreases items.len() - i,
    {
        proof {
            assert(models.take(i + 1).drop_last() =~= models.take(i as int));
        }
        match Data::deserialize(&items[i]) {
            Ok(node) => {
                proof {
                    assert(nodes@.push(node).drop_last() =~= nodes@);
                }
                nodes.push(node);
            },
            Err(e) => {
                proof {
                    lemma_decoded_items_prefix(models, i + 1);
                }
                return Err(e);
            },
        }
        i += 1;
    }
    proof {
        assert(models.take(items.len() as int) =~= models);
    }
    Ok(nodes)
}

impl Data {
    /// Reads a node off a JSON value. An array that starts with the tag of an
    /// operator has to be a well-formed transform; any other array is a
    /// list.
    pub fn deserialize(value: &JsonValue) -> (out: Result<Data, FormatError>)
        ensures
            match out {
                Ok(d) => decoded_data(value@) == Ok::<DataModel, FormatError>(d@),
                Err(e) => decoded_data(value@) == Err::<DataModel, FormatError>(e),
            },
        decreases value, 1nat,
    {
        match value {
            JsonValue::Null => Err(FormatError::Scalar),
            JsonValue::Bool(b) => Ok(Data::Bool(*b)),
            JsonValue::Number(n) => match n {
                Number::Int(i) => Ok(Data::Number(*i)),
                _ => Err(FormatError::Scalar),
            },
            JsonValue::String(s) => Ok(Data::String(s.clone())),
            JsonValue::Array(items) => {
                if starts_transform(value) {
                    match Transform::deserialize(value) {
                        Ok(t) => Ok(Data::Transform(t)),
                        Err(e) => Err(e),
                    }
                } else {
                    match deserialize_items(items) {
                        Ok(nodes) => Ok(Data::Array(nodes)),
                        Err(e) => Err(e),
                    }
                }
            },
            JsonValue::Object(object) => match DataObject::deserialize(object) {
                Ok(nodes) => Ok(Data::Object(nodes)),
                Err(e) => Err(e),
            },
        }
    }
}

impl DataObject {
    /// Reads the entries of a document object off a JSON object.
    pub fn deserialize(object: &Object) -> (out: Result<DataObject, FormatError>)
        ensures
            match out {
                Ok(d) => decoded_entries(object@) == Ok::<Seq<(Seq<char>, DataModel)>, FormatError>(
                    d@,
                ),
                Err(e) => decoded_entries(object@) == Err::<
                    Seq<(Seq<char>, DataModel)>,
                    FormatError,
                >(e),
            },
        decreases object, 0nat,
    {
        let ghost models = object@;
        let mut nodes: Vec<(String, Data)> = Vec::new();
        let mut i: usize = 0;
        proof {
            lemma_entries_model(object.entries@);
        }
        while i < object.entries.len()
            invariant
                i <= object.entries.len(),
                models == object@,
                models.len() == object.entries.len(),
                forall|j: int|
                    0 <= j < object.entries.len() ==> #[trigger] models[j] == (
                        object.entries@[j].0@,
                        object.entries@[j].1@,
                    ),
                forall|j: int|
                    0 <= j < object.entries.len() ==> decreases_to!(object => object.entries[j]),
                decoded_entries(models.take(i as int)) == Ok::<
                    Seq<(Seq<char>, DataModel)>,
                    FormatError,
                >(data_entries_model(nodes@)),
            decreases object.entries.len() - i,
        {
            proof {
                assert(models.take(i + 1).drop_last() =~= models.take(i as int));
            }
            match Data::deserialize(&object.entries[i].1) {
                Ok(node) => {
                    let key = object.entries[i].0.clone();
                    proof {
                        assert(nodes@.push((key, node)).drop_last() =~= nodes@);
                    }
                    nodes.push((key, node));
                },
                Err(e) => {
                    proof {
                        lemma_decoded_entries_prefix(models, i + 1);
                    }
                    return Err(e);
                },
            }
            i += 1;
        }
        proof {
            assert(models.take(object.entries.len() as int) =~= models);
        }
        Ok(DataObject { entries: nodes })
    }
}

impl DataObject {
    /// The node stored under `key`, if the object has that key: that of the
    /// first entry with this key.
    pub fn get(&self, key: &String) -> (found: Option<&Data>)
        ensures
            match found {
                Some(d) => lookup(self@, key@) == Some(d@),
                None => lookup(self@, key@) is None,
            },
    {
        let mut i: usize = 0;
        proof {
            lemma_data_entries_model(self.entries@);
        }
        while i < self.entries.len()
            invariant
                i <= self.entries.len(),
                self@.len() == self.entries.len(),
                forall|j: int|
                    0 <= j < self.entries.len() ==> #[trigger] self@[j] == (
                        self.entries[j].0@,
                        self.entries[j].1@,
                    ),
                forall|j: int| 0 <= j < i ==> (#[trigger] self@[j]).0 != key@,
            decreases self.entries.len() - i,
        {
            if self.entries[i].0 == *key {
                proof {
                    lemma_lookup_skip(self@, key@, i as int);
                    assert(self@.skip(i as int)[0] == self@[i as int]);
                }
                return Some(&self.entries[i].1);
            }
            i += 1;
        }
        proof {
            lemma_lookup_skip(self@, key@, i as int);
        }
        None
    }
}

impl Transformable for Data {
    open spec fn is_node(&self) -> bool {
        self is Transform
    }

    open spec fn node(&self) -> TransformModel {
        self->Transform_0@
    }

    fn get_source(&mut self) -> (source: &mut Box<TransformSource>) {
        match self {
            Data::Transform(xf) => xf.get_source(),
            _ => unreached(),
        }
    }

    fn get_source_value(&self) -> (held: Option<&JsonValue>) {
        match self {
            Data::Transform(xf) => xf.get_source_value(),
            _ => unreached(),
        }
    }

    fn set_source(&mut self, value: JsonValue) {
        match self {
            Data::Transform(xf) => xf.set_source(value),
            _ => unreached(),
        }
    }

    fn resolve_source(&mut self, variables: &Object) {
        match self {
            Data::Transform(xf) => xf.resolve_source(variables),
            _ => unreached(),
        }
    }

    fn transform(&mut self, variables: &Object) {
        match self {
            Data::Transform(xf) => xf.transform(variables),
            _ => unreached(),
        }
    }
}

} // verus!
