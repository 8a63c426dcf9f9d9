//! The map operator: apply an operator to every item of an array.

use crate::format::{decoded_map, is_tag, outline, FormatError};
use crate::json::{
    lemma_values_model, lemma_values_model_push, values_model, Json, JsonValue, Object,
};
use crate::xforms::pluck::{pluck, pluck_model};
use crate::xforms::{
    map_executed, map_source_resolved, map_transform_model, MapModel, Transform, TransformModel,
    TransformSource, Transformable,
};
use vstd::prelude::*;

verus! {

/// A map node: its source, the operator applied to each item, and what
/// resolution found.
#[derive(Debug, PartialEq)]
pub struct MapTransform {
    pub source: Box<TransformSource>,
    pub mapper: Box<Transform>,
    pub value: Option<JsonValue>,
    pub source_value: Option<JsonValue>,
}

impl View for MapTransform {
    type V = MapModel;

    open spec fn view(&self) -> MapModel {
        map_transform_model(*self)
    }
}

/// What `mapper` makes of one item, if anything. A pluck takes its path
/// through an item that is an object; a map maps its own mapper over an item
/// that is an array. Any other item gives nothing.
pub open spec fn map_item(item: Json, mapper: TransformModel) -> Option<Json>
    decreases mapper, 0nat,
{
    match mapper {
        TransformModel::Pluck(p) => match item {
            Json::Object(entries) => pluck_model(entries, p.path),
            _ => None,
        },
        TransformModel::MapOp(m) => match item {
            Json::Array(inner) => Some(Json::Array(map_model(inner, *m.mapper))),
            _ => None,
        },
    }
}

/// What `mapper` makes of a list of items: the results for the items that
/// give one, in order. Items that give nothing leave no trace.
pub open spec fn map_model(items: Seq<Json>, mapper: TransformModel) -> Seq<Json>
    decreases mapper, 1 + items.len(),
{
    if items.len() == 0 {
        Seq::empty()
    } else {
        let front = map_model(items.drop_last(), mapper);
        match map_item(items.last(), mapper) {
            Some(mapped) => front.push(mapped),
            None => front,
        }
    }
}

/// Applies `mapper` to every item of `source` and collects the results in an
/// array. Items of the wrong kind, and objects in which the path leads
/// nowhere, are skipped.
pub fn map(source: &[JsonValue], mapper: &Transform) -> (mapped: JsonValue)
    ensures
        mapped@ == Json::Array(map_model(values_model(source@), mapper@)),
    decreases mapper,
{
    let ghost items = values_model(source@);
    let mut result: Vec<JsonValue> = Vec::new();
    let mut i: usize = 0;
    proof {
        lemma_values_model(source@);
    }
    while i < source.len()
        invariant
            i <= source.len(),
            items == values_model(source@),
            items.len() == source.len(),
            forall|j: int| 0 <= j < source.len() ==> #[trigger] items[j] == source@[j]@,
            values_model(result@) == map_model(items.take(i as int), mapper@),
        decreases source.len() - i,
    {
        proof {
            assert(items.take(i + 1).drop_last() =~= items.take(i as int));
            assert(items.take(i + 1).last() == source@[i as int]@);
            assert(map_model(items.take(i + 1), mapper@) == match map_item(
                source@[i as int]@,
                mapper@,
            ) {
                Some(mapped) => map_model(items.take(i as int), mapper@).push(mapped),
                None => map_model(items.take(i as int), mapper@),
            });
        }
        match mapper {
            Transform::Pluck(xf) => {
                if let JsonValue::Object(obj) = &source[i] {
                    if let Some(v) = pluck(obj, xf.path.as_slice()) {
                        let copy = v.duplicate();
                        proof {
                            lemma_values_model_push(result@, copy);
                        }
                        result.push(copy);
                    }
                }
            },
            Transform::MapOp(xf) => {
                if let JsonValue::Array(inner) = &source[i] {
                    let nested = map(inner.as_slice(), &xf.mapper);
                    proof {
                        lemma_values_model_push(result@, nested);
                    }
                    result.push(nested);
                }
            },
        }
        i += 1;
    }
    proof {
        assert(items.take(source.len() as int) =~= items);
    }
    JsonValue::Array(result)
}

impl MapTransform {
    /// A map node that nothing has resolved yet.
    pub fn new(source: TransformSource, mapper: Box<Transform>) -> (node: MapTransform)
        ensures
            node@ == (MapModel {
                source: source@,
                mapper: Box::new(mapper@),
                value: None,
                source_value: None,
            }),
    {
        MapTransform { source: Box::new(source), mapper, value: None, source_value: None }
    }

    /// Resolves the source: looks a variable up in `variables`, or executes a
    /// nested transform and takes its result as the source value.
    pub fn resolve_source(&mut self, variables: &Object)
        ensures
            final(self)@ == map_source_resolved(old(self)@, variables@),
        decreases old(self)@, 1nat,
    {
        if let Some(fetched) = self.source.resolve(variables) {
            self.source_value = Some(fetched);
        }
    }

    /// Executes the node once: resolves its source unless a source value is
    /// already there, then maps the mapper over a source value that is an
    /// array.
    pub fn transform(&mut self, variables: &Object)
        ensures
            final(self)@ == map_executed(old(self)@, variables@),
        decreases old(self)@, 2nat,
    {
        if self.source_value.is_none() {
            self.resolve_source(variables);
        }
        match &self.source_value {
            Some(JsonValue::Array(items)) => {
                let mapped = map(items.as_slice(), &self.mapper);
                self.value = Some(mapped);
            },
            _ => {},
        }
    }
}

impl MapTransform {
    /// Reads a map node off a JSON value: `["xf_map", source, mapper]`.
    pub fn deserialize(value: &JsonValue) -> (out: Result<MapTransform, FormatError>)
        ensures
            match out {
                Ok(m) => decoded_map(value@) == Ok::<MapModel, FormatError>(m@),
                Err(e) => decoded_map(value@) == Err::<MapModel, FormatError>(e),
            },
        decreases value, 0nat,
    {
        match outline(value) {
            None => Err(FormatError::Shape),
            Some((tag, second, third)) => {
                if !is_tag(tag, "xf_map") {
                    return Err(FormatError::Tag);
                }
                let source = match TransformSource::deserialize(second) {
                    Ok(source) => source,
                    Err(e) => {
                        return Err(e);
                    },
                };
                let mapper = match Transform::deserialize(third) {
                    Ok(mapper) => mapper,
                    Err(e) => {
                        return Err(e);
                    },
                };
                Ok(MapTransform::new(source, Box::new(mapper)))
            },
        }
    }
}

/// Every item leaves at most one entry in the result, so the result is never
/// longer than the source. It is as long where every item gives something,
/// and shorter as soon as one item gives nothing.
pub proof fn lemma_map_skips(items: Seq<Json>, mapper: TransformModel)
    ensures
        map_model(items, mapper).len() <= items.len(),
        map_model(items, mapper).len() == items.len() <==> forall|i: int|
            0 <= i < items.len() ==> map_item(#[trigger] items[i], mapper) is Some,
    decreases items.len(),
{
    if items.len() > 0 {
        let front = items.drop_last();
        lemma_map_skips(front, mapper);
        if map_model(items, mapper).len() == items.len() {
            assert forall|i: int| 0 <= i < items.len() implies map_item(
                #[trigger] items[i],
                mapper,
            ) is Some by {
                if i < front.len() {
                    assert(front[i] == items[i]);
                }
            }
        } else if map_item(items.last(), mapper) is Some {
            let i = choose|i: int|
                0 <= i < front.len() && !(map_item(#[trigger] front[i], mapper) is Some);
            assert(items[i] == front[i]);
        }
    }
}

impl Transformable for MapTransform {
    open spec fn is_node(&self) -> bool {
        true
    }

    open spec fn node(&self) -> TransformModel {
        TransformModel::MapOp(self@)
    }

    fn get_source(&mut self) -> (source: &mut Box<TransformSource>) {
        &mut self.source
    }

    fn get_source_value(&self) -> (held: Option<&JsonValue>) {
        self.source_value.as_ref()
    }

    fn set_source(&mut self, value: JsonValue) {
        self.source_value = Some(value);
    }

    fn resolve_source(&mut self, variables: &Object) {
        MapTransform::resolve_source(self, variables);
    }

    fn transform(&mut self, variables: &Object) {
        MapTransform::transform(self, variables);
    }
}

} // verus!
