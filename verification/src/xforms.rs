//! The transform operators that a document may embed, and their models.

use crate::format::{decoded_source, decoded_transform, is_tag, outline, FormatError};
use crate::json::{found_model, lookup, option_model, Json, JsonValue, Object};
use crate::xforms::map::{map_model, MapTransform};
use crate::xforms::pluck::{pluck_model, PluckTransform};
use vstd::prelude::*;

pub mod map;
pub mod pluck;

verus! {

/// An operator node of a document.
#[derive(Debug, PartialEq)]
pub enum Transform {
    MapOp(MapTransform),
    Pluck(PluckTransform),
}

/// Where a transform takes its input from: a variable reference, kept as
/// written (sigil included), or another transform.
#[derive(Debug, PartialEq)]
pub enum TransformSource {
    String(String),
    Transform(Transform),
}

/// How far resolution got with a node.
#[derive(Clone, Copy, Debug, PartialEq, Eq)]
pub enum Diagnosis {
    /// The node has a result.
    Resolved,
    /// The node has no source value: the variable is missing, the reference
    /// has no `$`, the nested transform has no result, or nothing has
    /// resolved the node yet.
    NoSource,
    /// The source value is not of the kind that the operator works on: not
    /// an array for a map, not an object for a pluck.
    WrongKind,
    /// The source value is of the right kind and there is no result: the
    /// path leads nowhere, or the operator has not run yet.
    NoResult,
}

/// The model of a [`TransformSource`].
pub ghost enum SourceModel {
    Name(Seq<char>),
    Nested(Box<TransformModel>),
}

/// The model of a [`MapTransform`].
pub ghost struct MapModel {
    pub source: SourceModel,
    pub mapper: Box<TransformModel>,
    pub value: Option<Json>,
    pub source_value: Option<Json>,
}

/// The model of a [`PluckTransform`].
pub ghost struct PluckModel {
    pub source: SourceModel,
    pub path: Seq<Seq<char>>,
    pub value: Option<Json>,
    pub source_value: Option<Json>,
}

/// The model of a [`Transform`].
pub ghost enum TransformModel {
    MapOp(MapModel),
    Pluck(PluckModel),
}

impl TransformModel {
    /// The result that the node holds.
    pub open spec fn value(self) -> Option<Json> {
        match self {
            TransformModel::MapOp(m) => m.value,
            TransformModel::Pluck(p) => p.value,
        }
    }

    /// The source value that the node holds.
    pub open spec fn source_value(self) -> Option<Json> {
        match self {
            TransformModel::MapOp(m) => m.source_value,
            TransformModel::Pluck(p) => p.source_value,
        }
    }

    /// The source of the node.
    pub open spec fn source(self) -> SourceModel {
        match self {
            TransformModel::MapOp(m) => m.source,
            TransformModel::Pluck(p) => p.source,
        }
    }

    /// The node with another source.
    pub open spec fn with_source(self, source: SourceModel) -> TransformModel {
        match self {
            TransformModel::MapOp(m) => TransformModel::MapOp(MapModel { source, ..m }),
            TransformModel::Pluck(p) => TransformModel::Pluck(PluckModel { source, ..p }),
        }
    }

    /// The node with another source value.
    pub open spec fn with_source_value(self, source_value: Option<Json>) -> TransformModel {
        match self {
            TransformModel::MapOp(m) => TransformModel::MapOp(MapModel { source_value, ..m }),
            TransformModel::Pluck(p) => TransformModel::Pluck(PluckModel { source_value, ..p }),
        }
    }
}

/// The keys of a path, each as a sequence of characters.
pub open spec fn path_model(path: Seq<String>) -> Seq<Seq<char>> {
    Seq::new(path.len(), |i: int| path[i]@)
}

/// The model of a source.
pub open spec fn source_model(s: TransformSource) -> SourceModel
    decreases s,
{
    match s {
        TransformSource::String(name) => SourceModel::Name(name@),
        TransformSource::Transform(t) => SourceModel::Nested(Box::new(transform_model(t))),
    }
}

/// The model of a map node.
pub open spec fn map_transform_model(m: MapTransform) -> MapModel
    decreases m,
{
    MapModel {
        source: source_model(*m.source),
        mapper: Box::new(transform_model(*m.mapper)),
        value: option_model(m.value),
        source_value: option_model(m.source_value),
    }
}

/// The model of a pluck node.
pub open spec fn pluck_transform_model(p: PluckTransform) -> PluckModel
    decreases p,
{
    PluckModel {
        source: source_model(*p.source),
        path: path_model(p.path@),
        value: option_model(p.value),
        source_value: option_model(p.source_value),
    }
}

/// The model of a transform.
pub open spec fn transform_model(t: Transform) -> TransformModel
    decreases t,
{
    match t {
        Transform::MapOp(m) => TransformModel::MapOp(map_transform_model(m)),
        Transform::Pluck(p) => TransformModel::Pluck(pluck_transform_model(p)),
    }
}

impl View for TransformSource {
    type V = SourceModel;

    open spec fn view(&self) -> SourceModel {
        source_model(*self)
    }
}

impl View for Transform {
    type V = TransformModel;

    open spec fn view(&self) -> TransformModel {
        transform_model(*self)
    }
}

/// The variable that a reference names: what follows the leading `$`. A
/// string that does not begin with `$` names no variable.
pub open spec fn variable_name(reference: Seq<char>) -> Option<Seq<char>> {
    if reference.len() > 0 && reference[0] == '$' {
        Some(reference.subrange(1, reference.len() as int))
    } else {
        None
    }
}

/// The source after its resolution: a nested transform has been executed, a
/// variable reference stays as it is.
pub open spec fn source_resolved(source: SourceModel, variables: Seq<(Seq<char>, Json)>)
    -> SourceModel
    decreases source,
{
    match source {
        SourceModel::Name(_) => source,
        SourceModel::Nested(inner) => SourceModel::Nested(Box::new(executed(*inner, variables))),
    }
}

/// The source value after the resolution of `source`, where `before` was the
/// source value until then. A variable that is found gives its value, one
/// that is not leaves things as they were; a nested transform gives its
/// result, and leaves things as they were where it has none.
pub open spec fn source_fetched(
    source: SourceModel,
    before: Option<Json>,
    variables: Seq<(Seq<char>, Json)>,
) -> Option<Json>
    decreases source,
{
    match source {
        SourceModel::Name(reference) => match variable_name(reference) {
            Some(name) => match lookup(variables, name) {
                Some(found) => Some(found),
                None => before,
            },
            None => before,
        },
        SourceModel::Nested(inner) => match executed(*inner, variables).value() {
            Some(result) => Some(result),
            None => before,
        },
    }
}

/// A map node after the resolution of its source.
pub open spec fn map_source_resolved(m: MapModel, variables: Seq<(Seq<char>, Json)>) -> MapModel
    decreases m, 0nat,
{
    MapModel {
        source: source_resolved(m.source, variables),
        source_value: source_fetched(m.source, m.source_value, variables),
        ..m
    }
}

/// A pluck node after the resolution of its source.
pub open spec fn pluck_source_resolved(p: PluckModel, variables: Seq<(Seq<char>, Json)>)
    -> PluckModel
    decreases p, 0nat,
{
    PluckModel {
        source: source_resolved(p.source, variables),
        source_value: source_fetched(p.source, p.source_value, variables),
        ..p
    }
}

/// A map node after its operator ran on the source value it holds. A source
/// value that is an array gives a result; otherwise the result stays as it
/// was.
pub open spec fn map_applied(m: MapModel) -> MapModel {
    match m.source_value {
        Some(Json::Array(items)) => MapModel {
            value: Some(Json::Array(map_model(items, *m.mapper))),
            ..m
        },
        _ => m,
    }
}

/// A pluck node after its operator ran on the source value it holds. A
/// source value that is an object in which the path leads somewhere gives a
/// result; otherwise the result stays as it was.
pub open spec fn pluck_applied(p: PluckModel) -> PluckModel {
    match p.source_value {
        Some(Json::Object(entries)) => match pluck_model(entries, p.path) {
            Some(found) => PluckModel { value: Some(found), ..p },
            None => p,
        },
        _ => p,
    }
}

/// A map node after one execution: its source is resolved unless a source
/// value is already there, then the operator runs.
pub open spec fn map_executed(m: MapModel, variables: Seq<(Seq<char>, Json)>) -> MapModel
    decreases m, 1nat,
{
    if m.source_value is Some {
        map_applied(m)
    } else {
        map_applied(map_source_resolved(m, variables))
    }
}

/// A pluck node after one execution: its source is resolved unless a source
/// value is already there, then the operator runs.
pub open spec fn pluck_executed(p: PluckModel, variables: Seq<(Seq<char>, Json)>) -> PluckModel
    decreases p, 1nat,
{
    if p.source_value is Some {
        pluck_applied(p)
    } else {
        pluck_applied(pluck_source_resolved(p, variables))
    }
}

/// A transform after one execution.
pub open spec fn executed(t: TransformModel, variables: Seq<(Seq<char>, Json)>) -> TransformModel
    decreases t,
{
    match t {
        TransformModel::MapOp(m) => TransformModel::MapOp(map_executed(m, variables)),
        TransformModel::Pluck(p) => TransformModel::Pluck(pluck_executed(p, variables)),
    }
}

/// A transform after the resolution of its source.
pub open spec fn node_source_resolved(t: TransformModel, variables: Seq<(Seq<char>, Json)>)
    -> TransformModel {
    match t {
        TransformModel::MapOp(m) => TransformModel::MapOp(map_source_resolved(m, variables)),
        TransformModel::Pluck(p) => TransformModel::Pluck(pluck_source_resolved(p, variables)),
    }
}

/// How far resolution got with a node.
pub open spec fn diagnosis(t: TransformModel) -> Diagnosis {
    if t.value() is Some {
        Diagnosis::Resolved
    } else {
        match (t, t.source_value()) {
            (_, None) => Diagnosis::NoSource,
            (TransformModel::MapOp(_), Some(Json::Array(_))) => Diagnosis::NoResult,
            (TransformModel::Pluck(_), Some(Json::Object(_))) => Diagnosis::NoResult,
            _ => Diagnosis::WrongKind,
        }
    }
}

/// Reads the variable name off a reference, where it has one.
pub fn referenced_variable(reference: &String) -> (name: Option<String>)
    ensures
        match name {
            Some(n) => variable_name(reference@) == Some(n@),
            None => variable_name(reference@) is None,
        },
{
    let text = reference.as_str();
    let len = text.unicode_len();
    if len > 0 && text.get_char(0) == '$' {
        Some(text.substring_char(1, len).to_owned())
    } else {
        None
    }
}

/// A copy of a value that may be absent.
pub fn duplicate_option(v: &Option<JsonValue>) -> (copy: Option<JsonValue>)
    ensures
        option_model(copy) == option_model(*v),
{
    match v {
        Some(inner) => Some(inner.duplicate()),
        None => None,
    }
}

impl TransformSource {
    /// Reads a source off a JSON value: a string is a variable reference,
    /// anything else has to be a transform.
    pub fn deserialize(value: &JsonValue) -> (out: Result<TransformSource, FormatError>)
        ensures
            match out {
                Ok(source) => decoded_source(value@) == Ok::<SourceModel, FormatError>(source@),
                Err(e) => decoded_source(value@) == Err::<SourceModel, FormatError>(e),
            },
        decreases value, 2nat,
    {
        match value {
            JsonValue::String(reference) => Ok(TransformSource::String(reference.clone())),
            _ => match Transform::deserialize(value) {
                Ok(t) => Ok(TransformSource::Transform(t)),
                Err(e) => Err(e),
            },
        }
    }

    /// Resolves the source and hands out what it gives: the value of the
    /// variable that a reference names, or the result of a nested transform
    /// after its execution.
    pub fn resolve(&mut self, variables: &Object) -> (fetched: Option<JsonValue>)
        ensures
            final(self)@ == source_resolved(old(self)@, variables@),
            option_model(fetched) == source_fetched(old(self)@, None, variables@),
        decreases old(self)@, 0nat,
    {
        match self {
            TransformSource::String(reference) => match referenced_variable(reference) {
                Some(name) => match variables.get(&name) {
                    Some(found) => Some(found.duplicate()),
                    None => None,
                },
                None => None,
            },
            TransformSource::Transform(inner) => {
                inner.transform(variables);
                match inner {
                    Transform::MapOp(xf) => duplicate_option(&xf.value),
                    Transform::Pluck(xf) => duplicate_option(&xf.value),
                }
            },
        }
    }
}

impl Transform {
    /// Reads a transform off a JSON value, where one is required.
    pub fn deserialize(value: &JsonValue) -> (out: Result<Transform, FormatError>)
        ensures
            match out {
                Ok(t) => decoded_transform(value@) == Ok::<TransformModel, FormatError>(t@),
                Err(e) => decoded_transform(value@) == Err::<TransformModel, FormatError>(e),
            },
        decreases value, 1nat,
    {
        match outline(value) {
            None => Err(FormatError::Shape),
            Some((tag, _, _)) => {
                if is_tag(tag, "xf_map") {
                    match MapTransform::deserialize(value) {
                        Ok(m) => Ok(Transform::MapOp(m)),
                        Err(e) => Err(e),
                    }
                } else if is_tag(tag, "xf_pluck") {
                    match PluckTransform::deserialize(value) {
                        Ok(p) => Ok(Transform::Pluck(p)),
                        Err(e) => Err(e),
                    }
                } else {
                    Err(FormatError::Tag)
                }
            },
        }
    }

    /// Executes the node once: resolves its source unless a source value is
    /// already there, then runs its operator.
    pub fn transform(&mut self, variables: &Object)
        ensures
            final(self)@ == executed(old(self)@, variables@),
        decreases old(self)@, 3nat,
    {
        match self {
            Transform::MapOp(xf) => xf.transform(variables),
            Transform::Pluck(xf) => xf.transform(variables),
        }
    }

    /// Says how far resolution got with this node, so that a caller can tell
    /// why a result is absent.
    pub fn diagnose(&self) -> (found: Diagnosis)
        ensures
            found == diagnosis(self@),
    {
        match self {
            Transform::MapOp(xf) => {
                if xf.value.is_some() {
                    Diagnosis::Resolved
                } else {
                    match &xf.source_value {
                        None => Diagnosis::NoSource,
                        Some(JsonValue::Array(_)) => Diagnosis::NoResult,
                        Some(_) => Diagnosis::WrongKind,
                    }
                }
            },
            Transform::Pluck(xf) => {
                if xf.value.is_some() {
                    Diagnosis::Resolved
                } else {
                    match &xf.source_value {
                        None => Diagnosis::NoSource,
                        Some(JsonValue::Object(_)) => Diagnosis::NoResult,
                        Some(_) => Diagnosis::WrongKind,
                    }
                }
            },
        }
    }
}

/// What takes part in resolution as a transform node.
pub trait Transformable {
    /// Whether this is a transform node at all.
    spec fn is_node(&self) -> bool;

    /// The transform that this is.
    spec fn node(&self) -> TransformModel;

    /// The source, open to change.
    fn get_source(&mut self) -> (source: &mut Box<TransformSource>)
        requires
            old(self).is_node(),
        ensures
            source@ == old(self).node().source(),
            final(self).is_node(),
            final(self).node() == old(self).node().with_source(final(source)@),
    ;

    /// The source value, if the node holds one.
    fn get_source_value(&self) -> (held: Option<&JsonValue>)
        requires
            self.is_node(),
        ensures
            found_model(held) == self.node().source_value(),
    ;

    /// Stores a source value.
    fn set_source(&mut self, value: JsonValue)
        requires
            old(self).is_node(),
        ensures
            final(self).is_node(),
            final(self).node() == old(self).node().with_source_value(Some(value@)),
    ;

    /// Resolves the source: looks a variable up in `variables`, or executes
    /// a nested transform and takes its result as the source value.
    fn resolve_source(&mut self, variables: &Object)
        requires
            old(self).is_node(),
        ensures
            final(self).is_node(),
            final(self).node() == node_source_resolved(old(self).node(), variables@),
    ;

    /// Executes the node once: resolves its source unless a source value is
    /// already there, then runs its operator.
    fn transform(&mut self, variables: &Object)
        requires
            old(self).is_node(),
        ensures
            final(self).is_node(),
            final(self).node() == executed(old(self).node(), variables@),
    ;
}

impl Transformable for Transform {
    open spec fn is_node(&self) -> bool {
        true
    }

    open spec fn node(&self) -> TransformModel {
        self@
    }

    fn get_source(&mut self) -> (source: &mut Box<TransformSource>) {
        match self {
            Transform::MapOp(xf) => &mut xf.source,
            Transform::Pluck(xf) => &mut xf.source,
        }
    }

    fn get_source_value(&self) -> (held: Option<&JsonValue>) {
        match self {
            Transform::MapOp(xf) => xf.source_value.as_ref(),
            Transform::Pluck(xf) => xf.source_value.as_ref(),
        }
    }

    fn set_source(&mut self, value: JsonValue) {
        match self {
            Transform::MapOp(xf) => {
                xf.source_value = Some(value);
            },
            Transform::Pluck(xf) => {
                xf.source_value = Some(value);
            },
        }
    }

    fn resolve_source(&mut self, variables: &Object) {
        match self {
            Transform::MapOp(xf) => MapTransform::resolve_source(xf, variables),
            Transform::Pluck(xf) => PluckTransform::resolve_source(xf, variables),
        }
    }

    fn transform(&mut self, variables: &Object) {
        Transform::transform(self, variables);
    }
}

/// Resolves the source of a node: looks a variable up in `variables`, or
/// executes a nested transform and takes its result as the source value.
pub fn resolve_source<T: Transformable>(xform: &mut T, variables: &Object)
    requires
        old(xform).is_node(),
    ensures
        final(xform).is_node(),
        final(xform).node() == node_source_resolved(old(xform).node(), variables@),
{
    let fetched = xform.get_source().resolve(variables);
    if let Some(value) = fetched {
        xform.set_source(value);
    }
}

/// A node that holds a source value is executed without a look at the
/// variables: any two tables give the same node.
pub proof fn lemma_executed_ignores_variables(
    t: TransformModel,
    first: Seq<(Seq<char>, Json)>,
    second: Seq<(Seq<char>, Json)>,
)
    requires
        t.source_value() is Some,
    ensures
        executed(t, first) == executed(t, second),
{
}

/// Once an execution has left a node with a source value, executing the node
/// again changes nothing in it, whatever the variables are by then: neither
/// the result nor the source value, nor a transform nested in its source.
pub proof fn lemma_executed_twice(
    t: TransformModel,
    first: Seq<(Seq<char>, Json)>,
    second: Seq<(Seq<char>, Json)>,
)
    requires
        executed(t, first).source_value() is Some,
    ensures
        executed(executed(t, first), second) == executed(t, first),
{
}

/// A node without a source value whose source is `$` and a name takes the
/// variable of that name as its source value. Where the table has no such
/// variable, the execution changes nothing: source value and result stay
/// absent if they were.
pub proof fn lemma_variable_reference(
    t: TransformModel,
    name: Seq<char>,
    variables: Seq<(Seq<char>, Json)>,
)
    requires
        t.source() == SourceModel::Name(seq!['$'] + name),
        t.source_value() is None,
    ensures
        executed(t, variables).source_value() == lookup(variables, name),
        lookup(variables, name) is None ==> executed(t, variables) == t,
{
    let reference = seq!['$'] + name;
    assert(reference.subrange(1, reference.len() as int) =~= name);
}

/// A node without a source value whose source is a transform executes that
/// transform first and takes its result as the source value.
pub proof fn lemma_nested_source(
    t: TransformModel,
    inner: TransformModel,
    variables: Seq<(Seq<char>, Json)>,
)
    requires
        t.source() == SourceModel::Nested(Box::new(inner)),
        t.source_value() is None,
    ensures
        executed(t, variables).source() == SourceModel::Nested(
            Box::new(executed(inner, variables)),
        ),
        executed(t, variables).source_value() == executed(inner, variables).value(),
{
}

/// An execution leaves the operator of a node alone: the same kind of node
/// comes out, with the same mapper or path, and a source of the same kind.
pub proof fn lemma_executed_keeps_operator(t: TransformModel, variables: Seq<(Seq<char>, Json)>)
    ensures
        match (t, executed(t, variables)) {
            (TransformModel::MapOp(before), TransformModel::MapOp(after)) => {
                &&& after.mapper == before.mapper
                &&& after.source is Name ==> after.source == before.source
                &&& after.source is Nested <==> before.source is Nested
            },
            (TransformModel::Pluck(before), TransformModel::Pluck(after)) => {
                &&& after.path == before.path
                &&& after.source is Name ==> after.source == before.source
                &&& after.source is Nested <==> before.source is Nested
            },
            _ => false,
        },
{
}

/// A source value is written once: an execution leaves the one that a node
/// holds as it is.
pub proof fn lemma_source_value_kept(t: TransformModel, variables: Seq<(Seq<char>, Json)>)
    requires
        t.source_value() is Some,
    ensures
        executed(t, variables).source_value() == t.source_value(),
{
}

/// A result comes only with a source value: where that holds of a node, it
/// holds of the node after an execution.
pub proof fn lemma_result_needs_source(t: TransformModel, variables: Seq<(Seq<char>, Json)>)
    requires
        t.value() is Some ==> t.source_value() is Some,
    ensures
        executed(t, variables).value() is Some ==> executed(t, variables).source_value() is Some,
{
}

/// A map node whose source value is an array has a result after its
/// execution, also where no item gave anything.
pub proof fn lemma_map_always_collects(m: MapModel, variables: Seq<(Seq<char>, Json)>)
    ensures
        diagnosis(executed(TransformModel::MapOp(m), variables)) != Diagnosis::NoResult,
{
}

} // verus!
