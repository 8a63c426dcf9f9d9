//! The shape of a document: which JSON values stand for transforms, and
//! which for plain data.

use crate::json::{lemma_values_model, Json, NumberModel, JsonValue};
use crate::xforms::{MapModel, PluckModel, SourceModel, TransformModel};
use crate::data::DataModel;
use vstd::prelude::*;

verus! {

/// Why a JSON text is not a document.
#[derive(Clone, Copy, Debug, PartialEq, Eq)]
pub enum FormatError {
    /// The text is not JSON, or its top level is not an object.
    Syntax,
    /// A transform is required, and the value is not an array of three
    /// elements that starts with a string.
    Shape,
    /// The string that starts a transform is not the tag of the operator
    /// that is required.
    Tag,
    /// The third element of an `xf_pluck` is not an array of strings.
    Path,
    /// The document holds a `null`, or a number that is not an integer that
    /// fits in `i64`.
    Scalar,
}

/// Whether a value has the outline of a transform: an array of three
/// elements that starts with a string.
pub open spec fn transform_outline(j: Json) -> bool {
    &&& j is Array
    &&& j->Array_0.len() == 3
    &&& j->Array_0[0] is String
}

/// The string that starts a value with the outline of a transform.
pub open spec fn outline_tag(j: Json) -> Seq<char> {
    j->Array_0[0]->String_0
}

/// Whether an array in a document is a transform rather than a list: it has
/// the outline of one and starts with the tag of an operator.
pub open spec fn is_transform(j: Json) -> bool {
    transform_outline(j) && (outline_tag(j) == "xf_map"@ || outline_tag(j) == "xf_pluck"@)
}

/// The path that a value stands for: an array of strings.
pub open spec fn decoded_path(j: Json) -> Result<Seq<Seq<char>>, FormatError> {
    match j {
        Json::Array(items) => {
            if forall|i: int| 0 <= i < items.len() ==> #[trigger] items[i] is String {
                Ok(Seq::new(items.len(), |i: int| items[i]->String_0))
            } else {
                Err(FormatError::Path)
            }
        },
        _ => Err(FormatError::Path),
    }
}

/// The source that a value stands for: a string is a variable reference,
/// anything else has to be a transform.
pub open spec fn decoded_source(j: Json) -> Result<SourceModel, FormatError>
    decreases j, 2nat,
{
    match j {
        Json::String(reference) => Ok(SourceModel::Name(reference)),
        _ => match decoded_transform(j) {
            Ok(t) => Ok(SourceModel::Nested(Box::new(t))),
            Err(e) => Err(e),
        },
    }
}

/// The map node that a value stands for: `["xf_map", source, mapper]`, where
/// the mapper is a transform.
pub open spec fn decoded_map(j: Json) -> Result<MapModel, FormatError>
    decreases j, 0nat,
{
    if !transform_outline(j) {
        Err(FormatError::Shape)
    } else if outline_tag(j) != "xf_map"@ {
        Err(FormatError::Tag)
    } else {
        match decoded_source(j->Array_0[1]) {
            Err(e) => Err(e),
            Ok(source) => match decoded_transform(j->Array_0[2]) {
                Err(e) => Err(e),
                Ok(mapper) => Ok(
                    MapModel { source, mapper: Box::new(mapper), value: None, source_value: None },
                ),
            },
        }
    }
}

/// The pluck node that a value stands for: `["xf_pluck", source, path]`,
/// where the path is an array of strings.
pub open spec fn decoded_pluck(j: Json) -> Result<PluckModel, FormatError>
    decreases j, 0nat,
{
    if !transform_outline(j) {
        Err(FormatError::Shape)
    } else if outline_tag(j) != "xf_pluck"@ {
        Err(FormatError::Tag)
    } else {
        match decoded_source(j->Array_0[1]) {
            Err(e) => Err(e),
            Ok(source) => match decoded_path(j->Array_0[2]) {
                Err(e) => Err(e),
                Ok(path) => Ok(PluckModel { source, path, value: None, source_value: None }),
            },
        }
    }
}

/// The transform that a value stands for, where one is required.
pub open spec fn decoded_transform(j: Json) -> Result<TransformModel, FormatError>
    decreases j, 1nat,
{
    if !transform_outline(j) {
        Err(FormatError::Shape)
    } else if outline_tag(j) == "xf_map"@ {
        match decoded_map(j) {
            Ok(m) => Ok(TransformModel::MapOp(m)),
            Err(e) => Err(e),
        }
    } else if outline_tag(j) == "xf_pluck"@ {
        match decoded_pluck(j) {
            Ok(p) => Ok(TransformModel::Pluck(p)),
            Err(e) => Err(e),
        }
    } else {
        Err(FormatError::Tag)
    }
}

/// The nodes that a list of values stands for, or the error of the first
/// value that stands for none.
pub open spec fn decoded_items(items: Seq<Json>) -> Result<Seq<DataModel>, FormatError>
    decreases items, 0nat,
{
    if items.len() == 0 {
        Ok(Seq::empty())
    } else {
        match decoded_items(items.drop_last()) {
            Err(e) => Err(e),
            Ok(front) => match decoded_data(items.last()) {
                Err(e) => Err(e),
                Ok(d) => Ok(front.push(d)),
            },
        }
    }
}

/// The entries that a list of JSON entries stands for, or the error of the
/// first entry whose value stands for no node.
pub open spec fn decoded_entries(entries: Seq<(Seq<char>, Json)>) -> Result<
    Seq<(Seq<char>, DataModel)>,
    FormatError,
>
    decreases entries, 0nat,
{
    if entries.len() == 0 {
        Ok(Seq::empty())
    } else {
        match decoded_entries(entries.drop_last()) {
            Err(e) => Err(e),
            Ok(front) => match decoded_data(entries.last().1) {
                Err(e) => Err(e),
                Ok(d) => Ok(front.push((entries.last().0, d))),
            },
        }
    }
}

/// The node that a value stands for. An array that is a transform has to be
/// a well-formed one; any other array is a list.
pub open spec fn decoded_data(j: Json) -> Result<DataModel, FormatError>
    decreases j, 2nat,
{
    match j {
        Json::Null => Err(FormatError::Scalar),
        Json::Bool(b) => Ok(DataModel::Bool(b)),
        Json::Number(n) => match n {
            NumberModel::Int(i) => Ok(DataModel::Number(i)),
            _ => Err(FormatError::Scalar),
        },
        Json::String(s) => Ok(DataModel::String(s)),
        Json::Array(items) => if is_transform(j) {
            match decoded_transform(j) {
                Ok(t) => Ok(DataModel::Transform(t)),
                Err(e) => Err(e),
            }
        } else {
            match decoded_items(items) {
                Ok(nodes) => Ok(DataModel::Array(nodes)),
                Err(e) => Err(e),
            }
        },
        Json::Object(entries) => match decoded_entries(entries) {
            Ok(nodes) => Ok(DataModel::Object(nodes)),
            Err(e) => Err(e),
        },
    }
}

/// The parts of a value that has the outline of a transform: the string it
/// starts with, and its second and third elements.
pub fn outline(value: &JsonValue) -> (parts: Option<(&String, &JsonValue, &JsonValue)>)
    ensures
        parts is Some <==> transform_outline(value@),
        parts matches Some((tag, second, third)) ==> {
            &&& tag@ == outline_tag(value@)
            &&& second@ == value@->Array_0[1]
            &&& third@ == value@->Array_0[2]
            &&& decreases_to!(value => second)
            &&& decreases_to!(value => third)
        },
{
    match value {
        JsonValue::Array(items) => {
            proof {
                lemma_values_model(items@);
            }
            if items.len() == 3 {
                match &items[0] {
                    JsonValue::String(tag) => Some((tag, &items[1], &items[2])),
                    _ => None,
                }
            } else {
                None
            }
        },
        _ => None,
    }
}

/// Whether `tag` is the string `expected`.
pub fn is_tag(tag: &String, expected: &str) -> (same: bool)
    ensures
        same == (tag@ == expected@),
{
    *tag == expected.to_owned()
}

} // verus!
