//! Resolution of JSON documents that embed `xf_map` and `xf_pluck`
//! transforms over a table of variables.

use crate::format::{decoded_entries, FormatError};
use crate::json::{Json, JsonValue, Object};
use crate::text::{import_tree, json_text, parse_text};
use crate::xforms::executed;
use vstd::prelude::*;

pub mod data;
pub mod format;
pub mod json;
pub mod text;
pub mod xforms;

use crate::data::{data_items_model, lemma_data_entries_model, lemma_data_items_model};
pub use crate::data::{Data, DataModel, DataObject};

verus! {

/// A list of entries after resolution: the keys stay, each node is resolved.
pub open spec fn resolved_entries(
    entries: Seq<(Seq<char>, DataModel)>,
    variables: Seq<(Seq<char>, Json)>,
) -> Seq<(Seq<char>, DataModel)>
    decreases entries, 0nat,
{
    if entries.len() == 0 {
        Seq::empty()
    } else {
        resolved_entries(entries.drop_last(), variables).push(
            (entries.last().0, resolved(entries.last().1, variables)),
        )
    }
}

/// A list of nodes after resolution: each node is resolved.
pub open spec fn resolved_items(items: Seq<DataModel>, variables: Seq<(Seq<char>, Json)>) -> Seq<
    DataModel,
>
    decreases items, 0nat,
{
    if items.len() == 0 {
        Seq::empty()
    } else {
        resolved_items(items.drop_last(), variables).push(resolved(items.last(), variables))
    }
}

/// A node after resolution: every transform in it that is not inside another
/// transform is executed once, and nothing else changes.
pub open spec fn resolved(d: DataModel, variables: Seq<(Seq<char>, Json)>) -> DataModel
    decreases d, 1nat,
{
    match d {
        DataModel::Transform(t) => DataModel::Transform(executed(t, variables)),
        DataModel::Object(entries) => DataModel::Object(resolved_entries(entries, variables)),
        DataModel::Array(items) => DataModel::Array(resolved_items(items, variables)),
        _ => d,
    }
}

/// Resolves one node in place.
pub fn resolve_data(data: &mut Data, variables: &Object)
    ensures
        final(data)@ == resolved(old(data)@, variables@),
    decreases *old(data), 1nat,
{
    match data {
        Data::Transform(xf) => {
            xf.transform(variables);
        },
        Data::Object(object) => {
            resolve_map(object, variables);
        },
        Data::Array(array) => {
            resolve_array(array, variables);
        },
        Data::Bool(..) => {},
        Data::Number(..) => {},
        Data::String(..) => {},
    }
}

/// Resolution of a list works element by element.
pub proof fn lemma_resolved_items(items: Seq<DataModel>, variables: Seq<(Seq<char>, Json)>)
    ensures
        resolved_items(items, variables).len() == items.len(),
        forall|i: int|
            0 <= i < items.len() ==> #[trigger] resolved_items(items, variables)[i] == resolved(
                items[i],
                variables,
            ),
    decreases items.len(),
{
    if items.len() > 0 {
        lemma_resolved_items(items.drop_last(), variables);
    }
}

/// Resolution of a list of entries works entry by entry.
pub proof fn lemma_resolved_entries(
    entries: Seq<(Seq<char>, DataModel)>,
    variables: Seq<(Seq<char>, Json)>,
)
    ensures
        resolved_entries(entries, variables).len() == entries.len(),
        forall|i: int|
            0 <= i < entries.len() ==> #[trigger] resolved_entries(entries, variables)[i] == (
                entries[i].0,
                resolved(entries[i].1, variables),
            ),
    decreases entries.len(),
{
    if entries.len() > 0 {
        lemma_resolved_entries(entries.drop_last(), variables);
    }
}

/// Resolves every node of a list in place.
pub fn resolve_array(data: &mut Vec<Data>, variables: &Object)
    ensures
        data_items_model(final(data)@) == resolved_items(
            data_items_model(old(data)@),
            variables@,
        ),
    decreases *old(data), 0nat,
{
    let mut i: usize = 0;
    while i < data.len()
        invariant
            i <= data.len(),
            data.len() == old(data).len(),
            forall|j: int| i <= j < data.len() ==> data@[j] == old(data)@[j],
            forall|j: int|
                0 <= j < i ==> (#[trigger] data@[j])@ == resolved(old(data)@[j]@, variables@),
        decreases data.len() - i,
    {
        resolve_data(&mut data[i], variables);
        i += 1;
    }
    proof {
        lemma_data_items_model(data@);
        lemma_data_items_model(old(data)@);
        lemma_resolved_items(data_items_model(old(data)@), variables@);
        assert(data_items_model(data@) =~= resolved_items(
            data_items_model(old(data)@),
            variables@,
        ));
    }
}

/// Resolves the node of every entry of an object in place.
pub fn resolve_map(data: &mut DataObject, variables: &Object)
    ensures
        final(data)@ == resolved_entries(old(data)@, variables@),
    decreases *old(data), 0nat,
{
    let mut i: usize = 0;
    while i < data.entries.len()
        invariant
            i <= data.entries.len(),
            data.entries.len() == old(data).entries.len(),
            forall|j: int|
                i <= j < data.entries.len() ==> data.entries@[j] == old(data).entries@[j],
            forall|j: int|
                0 <= j < i ==> {
                    &&& (#[trigger] data.entries@[j]).0@ == old(data).entries@[j].0@
                    &&& data.entries@[j].1@ == resolved(old(data).entries@[j].1@, variables@)
                },
        decreases data.entries.len() - i,
    {
        resolve_data(&mut data.entries[i].1, variables);
        i += 1;
    }
    proof {
        lemma_data_entries_model(data.entries@);
        lemma_data_entries_model(old(data).entries@);
        lemma_resolved_entries(old(data)@, variables@);
        assert(data@ =~= resolved_entries(old(data)@, variables@));
    }
}

/// Whether a node is plain data: no transform anywhere in it.
pub open spec fn plain(d: DataModel) -> bool
    decreases d,
{
    match d {
        DataModel::Transform(_) => false,
        DataModel::Object(entries) => forall|i: int|
            0 <= i < entries.len() ==> plain(#[trigger] entries[i].1),
        DataModel::Array(items) => forall|i: int|
            0 <= i < items.len() ==> plain(#[trigger] items[i]),
        _ => true,
    }
}

/// Resolution is the identity on plain data: a node without transforms comes
/// out as it went in, whatever the variables.
pub proof fn lemma_resolved_plain(d: DataModel, variables: Seq<(Seq<char>, Json)>)
    requires
        plain(d),
    ensures
        resolved(d, variables) == d,
    decreases d,
{
    match d {
        DataModel::Object(entries) => {
            lemma_resolved_entries(entries, variables);
            assert forall|i: int| 0 <= i < entries.len() implies #[trigger] resolved_entries(
                entries,
                variables,
            )[i] == entries[i] by {
                lemma_resolved_plain(entries[i].1, variables);
            }
            assert(resolved_entries(entries, variables) =~= entries);
        },
        DataModel::Array(items) => {
            lemma_resolved_items(items, variables);
            assert forall|i: int| 0 <= i < items.len() implies #[trigger] resolved_items(
                items,
                variables,
            )[i] == items[i] by {
                lemma_resolved_plain(items[i], variables);
            }
            assert(resolved_items(items, variables) =~= items);
        },
        _ => {},
    }
}

/// The document that a JSON value stands for: the value has to be an object
/// whose entries all stand for nodes.
pub open spec fn decoded_document(document: Json) -> Result<
    Seq<(Seq<char>, DataModel)>,
    FormatError,
> {
    match document {
        Json::Object(entries) => decoded_entries(entries),
        _ => Err(FormatError::Syntax),
    }
}

/// The document that a JSON text stands for.
pub open spec fn decoded_text(text: Seq<char>) -> Result<Seq<(Seq<char>, DataModel)>, FormatError> {
    match json_text(text) {
        Some(document) => decoded_document(document),
        None => Err(FormatError::Syntax),
    }
}

/// What resolution makes of a document, where there is one.
pub open spec fn resolved_if_ok(
    document: Result<Seq<(Seq<char>, DataModel)>, FormatError>,
    variables: Seq<(Seq<char>, Json)>,
) -> Result<Seq<(Seq<char>, DataModel)>, FormatError> {
    match document {
        Ok(nodes) => Ok(resolved_entries(nodes, variables)),
        Err(e) => Err(e),
    }
}

/// The model of a document, or of the error in its place.
pub open spec fn outcome_model(out: Result<DataObject, FormatError>) -> Result<
    Seq<(Seq<char>, DataModel)>,
    FormatError,
> {
    match out {
        Ok(document) => Ok(document@),
        Err(e) => Err(e),
    }
}

/// A document without transforms is resolved to itself, whatever the
/// variables.
pub proof fn lemma_resolved_plain_document(
    document: Seq<(Seq<char>, DataModel)>,
    variables: Seq<(Seq<char>, Json)>,
)
    requires
        forall|i: int| 0 <= i < document.len() ==> plain(#[trigger] document[i].1),
    ensures
        resolved_if_ok(Ok(document), variables) == Ok::<Seq<(Seq<char>, DataModel)>, FormatError>(
            document,
        ),
{
    lemma_resolved_plain(DataModel::Object(document), variables);
}

/// Reads a document off a JSON value, which has to be an object.
pub fn deserialize_document(document: &JsonValue) -> (out: Result<DataObject, FormatError>)
    ensures
        outcome_model(out) == decoded_document(document@),
{
    match document {
        JsonValue::Object(object) => DataObject::deserialize(object),
        _ => Err(FormatError::Syntax),
    }
}

/// Reads a document off a JSON text whose top level is an object. Nothing in
/// it is resolved yet.
pub fn parse(json: &str) -> (out: Result<DataObject, FormatError>)
    ensures
        outcome_model(out) == decoded_text(json@),
{
    match parse_text(json) {
        Ok(tree) => {
            let document = import_tree(&tree);
            deserialize_document(&document)
        },
        Err(_) => Err(FormatError::Syntax),
    }
}

/// Reads a document off a JSON value and resolves every transform in it.
/// Nothing is resolved unless the whole document is well-formed.
pub fn resolve_document(document: &JsonValue, variables: &Object) -> (out: Result<
    DataObject,
    FormatError,
>)
    ensures
        outcome_model(out) == resolved_if_ok(decoded_document(document@), variables@),
{
    match deserialize_document(document) {
        Ok(mut parsed) => {
            resolve_map(&mut parsed, variables);
            Ok(parsed)
        },
        Err(e) => Err(e),
    }
}

/// Parses a JSON text whose top level is an object, and resolves every
/// transform in it against `variables`. A text that is no document is an
/// error, and nothing is resolved.
pub fn resolve(json: &str, variables: &Object) -> (out: Result<DataObject, FormatError>)
    ensures
        outcome_model(out) == resolved_if_ok(decoded_text(json@), variables@),
{
    match parse(json) {
        Ok(mut parsed) => {
            resolve_map(&mut parsed, variables);
            Ok(parsed)
        },
        Err(e) => Err(e),
    }
}

} // verus!
