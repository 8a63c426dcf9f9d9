//! The pluck operator: follow a path of keys through an object.

use crate::format::{decoded_path, decoded_pluck, is_tag, outline, FormatError};
use crate::json::{found_model, lemma_values_model, lookup, Json, JsonValue, Object};
use crate::xforms::{
    path_model, pluck_executed, pluck_source_resolved, pluck_transform_model, PluckModel,
    TransformModel, TransformSource, Transformable,
};
use vstd::prelude::*;

verus! {

/// A pluck node: its source, the path to follow, and what resolution found.
#[derive(Debug, PartialEq)]
pub struct PluckTransform {
    pub source: Box<TransformSource>,
    pub path: Vec<String>,
    pub value: Option<JsonValue>,
    pub source_value: Option<JsonValue>,
}

impl View for PluckTransform {
    type V = PluckModel;

    open spec fn view(&self) -> PluckModel {
        pluck_transform_model(*self)
    }
}

/// What following `path` gives when `current` is the object to look in and
/// `candidate` the last value found. A key that is missing ends the walk
/// with nothing. A value that is found becomes the candidate; it also
/// becomes the object to look in if it is an object, and otherwise the
/// object to look in stays.
pub open spec fn pluck_from(
    current: Seq<(Seq<char>, Json)>,
    candidate: Option<Json>,
    path: Seq<Seq<char>>,
) -> Option<Json>
    decreases path.len(),
{
    if path.len() == 0 {
        candidate
    } else {
        match lookup(current, path[0]) {
            None => None,
            Some(found) => {
                let next = match found {
                    Json::Object(inner) => inner,
                    _ => current,
                };
                pluck_from(next, Some(found), path.drop_first())
            },
        }
    }
}

/// What following `path` from the object `source` gives.
pub open spec fn pluck_model(source: Seq<(Seq<char>, Json)>, path: Seq<Seq<char>>) -> Option<
    Json,
> {
    pluck_from(source, None, path)
}

/// Follows `path` through `source`, key by key.
///
/// A value found under a key that is not an object does not become the
/// object to look in: the next key is looked up where the last one was.
pub fn pluck<'a>(source: &'a Object, path: &[String]) -> (found: Option<&'a JsonValue>)
    ensures
        found_model(found) == pluck_model(source@, path_model(path@)),
{
    let ghost keys = path_model(path@);
    let mut result: Option<&'a JsonValue> = None;
    let mut current: &'a Object = source;
    let mut i: usize = 0;
    proof {
        assert(keys.skip(0) =~= keys);
    }
    while i < path.len()
        invariant
            i <= path.len(),
            keys == path_model(path@),
            pluck_model(source@, keys) == pluck_from(
                current@,
                found_model(result),
                keys.skip(i as int),
            ),
        decreases path.len() - i,
    {
        proof {
            assert(keys.skip(i as int)[0] == path@[i as int]@);
            assert(keys.skip(i as int).drop_first() =~= keys.skip(i + 1));
        }
        match current.get(&path[i]) {
            Some(value) => {
                result = Some(value);
                if let JsonValue::Object(inner) = value {
                    current = inner;
                }
            },
            None => {
                return None;
            },
        }
        i += 1;
    }
    result
}

impl PluckTransform {
    /// A pluck node that nothing has resolved yet.
    pub fn new(source: TransformSource, path: Vec<String>) -> (node: PluckTransform)
        ensures
            node@ == (PluckModel {
                source: source@,
                path: path_model(path@),
                value: None,
                source_value: None,
            }),
    {
        PluckTransform { source: Box::new(source), path, value: None, source_value: None }
    }

    /// Resolves the source: looks a variable up in `variables`, or executes a
    /// nested transform and takes its result as the source value.
    pub fn resolve_source(&mut self, variables: &Object)
        ensures
            final(self)@ == pluck_source_resolved(old(self)@, variables@),
        decreases old(self)@, 1nat,
    {
        if let Some(fetched) = self.source.resolve(variables) {
            self.source_value = Some(fetched);
        }
    }

    /// Executes the node once: resolves its source unless a source value is
    /// already there, then follows the path through a source value that is
    /// an object.
    pub fn transform(&mut self, variables: &Object)
        ensures
            final(self)@ == pluck_executed(old(self)@, variables@),
        decreases old(self)@, 2nat,
    {
        if self.source_value.is_none() {
            self.resolve_source(variables);
        }
        if let Some(JsonValue::Object(object)) = &self.source_value {
            if let Some(found) = pluck(object, self.path.as_slice()) {
                let copy = found.duplicate();
                self.value = Some(copy);
            }
        }
    }
}

/// Reads a path off a JSON value: an array of strings.
pub fn deserialize_path(value: &JsonValue) -> (out: Result<Vec<String>, FormatError>)
    ensures
        match out {
            Ok(path) => decoded_path(value@) == Ok::<Seq<Seq<char>>, FormatError>(
                path_model(path@),
            ),
            Err(e) => decoded_path(value@) == Err::<Seq<Seq<char>>, FormatError>(e),
        },
{
    match value {
        JsonValue::Array(items) => {
            let mut path: Vec<String> = Vec::new();
            let mut i: usize = 0;
            proof {
                lemma_values_model(items@);
            }
            while i < items.len()
                invariant
                    i <= items.len(),
                    path.len() == i,
                    value@ == Json::Array(value@->Array_0),
                    value@->Array_0.len() == items.len(),
                    forall|j: int|
                        0 <= j < items.len() ==> #[trigger] value@->Array_0[j] == items@[j]@,
                    forall|j: int|
                        0 <= j < i ==> value@->Array_0[j] == Json::String(#[trigger] path@[j]@),
                decreases items.len() - i,
            {
                match &items[i] {
                    JsonValue::String(key) => {
                        path.push(key.clone());
                    },
                    _ => {
                        assert(!(value@->Array_0[i as int] is String));
                        return Err(FormatError::Path);
                    },
                }
                i += 1;
            }
            proof {
                let elements = value@->Array_0;
                assert forall|j: int| 0 <= j < elements.len() implies #[trigger] elements[j]
                    is String by {
                    assert(elements[j] == Json::String(path@[j]@));
                }
                assert(path_model(path@) =~= Seq::new(
                    items.len() as nat,
                    |j: int| elements[j]->String_0,
                ));
            }
            Ok(path)
        },
        _ => Err(FormatError::Path),
    }
}

impl PluckTransform {
    /// Reads a pluck node off a JSON value: `["xf_pluck", source, path]`.
    pub fn deserialize(value: &JsonValue) -> (out: Result<PluckTransform, FormatError>)
        ensures
            match out {
                Ok(p) => decoded_pluck(value@) == Ok::<PluckModel, FormatError>(p@),
                Err(e) => decoded_pluck(value@) == Err::<PluckModel, FormatError>(e),
            },
        decreases value, 0nat,
    {
        match outline(value) {
            None => Err(FormatError::Shape),
            Some((tag, second, third)) => {
                if !is_tag(tag, "xf_pluck") {
                    return Err(FormatError::Tag);
                }
                let source = match TransformSource::deserialize(second) {
                    Ok(source) => source,
                    Err(e) => {
                        return Err(e);
                    },
                };
                let path = match deserialize_path(third) {
                    Ok(path) => path,
                    Err(e) => {
                        return Err(e);
                    },
                };
                Ok(PluckTransform::new(source, path))
            },
        }
    }
}

impl Transformable for PluckTransform {
    open spec fn is_node(&self) -> bool {
        true
    }

    open spec fn node(&self) -> TransformModel {
        TransformModel::Pluck(self@)
    }

    fn get_source(&mut self) -> (source: &mut Box<TransformSource>) {
        &mut self.source
    }

    fn get_source_value(&self) -> (held: Option<&JsonValue>) {
        self.source_value.as_ref()
    }

    fn set_source(&mut self, value: JsonValue) {
        self.source_value = Some(value);
    }

    fn resolve_source(&mut self, variables: &Object) {
        PluckTransform::resolve_source(self, variables);
    }

    fn transform(&mut self, variables: &Object) {
        PluckTransform::transform(self, variables);
    }
}

} // verus!
