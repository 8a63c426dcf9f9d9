use json_resolve::format::FormatError;
use json_resolve::json::{JsonValue, Number, Object};
use json_resolve::xforms::map::MapTransform;
use json_resolve::xforms::pluck::{deserialize_path, PluckTransform};
use json_resolve::xforms::{Transform, TransformSource, Transformable};
use json_resolve::data::starts_transform;
use json_resolve::{
    deserialize_document, parse, resolve, resolve_array, resolve_data, resolve_document,
    resolve_map, Data, DataObject,
};

fn s(text: &str) -> JsonValue {
    JsonValue::String(text.to_string())
}

fn n(i: i64) -> JsonValue {
    JsonValue::Number(Number::Int(i))
}

fn list(items: Vec<JsonValue>) -> JsonValue {
    JsonValue::Array(items)
}

fn fields(entries: Vec<(&str, JsonValue)>) -> Object {
    Object { entries: entries.into_iter().map(|(k, v)| (k.to_string(), v)).collect() }
}

fn nodes(entries: Vec<(&str, Data)>) -> DataObject {
    DataObject { entries: entries.into_iter().map(|(k, v)| (k.to_string(), v)).collect() }
}

fn key(name: &str) -> String {
    name.to_string()
}

fn path(keys: &[&str]) -> Vec<String> {
    keys.iter().map(|k| k.to_string()).collect()
}

fn name(reference: &str) -> TransformSource {
    TransformSource::String(reference.to_string())
}

fn pluck_of(node: &Data) -> &PluckTransform {
    match node {
        Data::Transform(Transform::Pluck(xf)) => xf,
        other => panic!("not a pluck node: {:?}", other),
    }
}

fn map_of(node: &Data) -> &MapTransform {
    match node {
        Data::Transform(Transform::MapOp(xf)) => xf,
        other => panic!("not a map node: {:?}", other),
    }
}

#[test]
fn plain_document_comes_back_unchanged() {
    let json = r#"{
        "array": [1, "one", true, { "obj": "testing" }, [1, 2, 3]],
        "bool": false,
        "num": -98,
        "obj": { "nest": "string", "num": 42 },
        "string": "testing"
    }"#;
    let expected = nodes(vec![
        (
            "array",
            Data::Array(vec![
                Data::Number(1),
                Data::String("one".to_string()),
                Data::Bool(true),
                Data::Object(nodes(vec![("obj", Data::String("testing".to_string()))])),
                Data::Array(vec![Data::Number(1), Data::Number(2), Data::Number(3)]),
            ]),
        ),
        ("bool", Data::Bool(false)),
        ("num", Data::Number(-98)),
        (
            "obj",
            Data::Object(nodes(vec![
                ("nest", Data::String("string".to_string())),
                ("num", Data::Number(42)),
            ])),
        ),
        ("string", Data::String("testing".to_string())),
    ]);
    let variables = fields(vec![("array", list(vec![n(7)])), ("obj", n(1))]);
    assert_eq!(resolve(json, &variables), Ok(expected));
}

#[test]
fn plain_nodes_are_left_alone_in_place() {
    let mut node = Data::Array(vec![
        Data::Number(1),
        Data::Object(nodes(vec![("k", Data::Bool(true))])),
        Data::String("s".to_string()),
    ]);
    resolve_data(&mut node, &fields(vec![("k", n(1))]));
    assert_eq!(
        node,
        Data::Array(vec![
            Data::Number(1),
            Data::Object(nodes(vec![("k", Data::Bool(true))])),
            Data::String("s".to_string()),
        ])
    );
}

#[test]
fn empty_document_resolves_to_nothing() {
    assert_eq!(resolve("{}", &fields(vec![])), Ok(nodes(vec![])));
}

#[test]
fn sample_document() {
    let json = r#"
    {
        "obj": {
            "nest": "string",
            "map": ["xf_map", "$src", ["xf_pluck", "$", ["lookup", "my", "data"]]],
            "pluck": ["xf_pluck", "$data", ["lookup", "my", "data"]],
            "bool": true,
            "num": 42,
            "more_nest": {
                "mapper": ["xf_pluck", "$data", ["not_found_prop"]]
            }
        },
        "array": [
            1,
            "one",
            true,
            { "obj": "testing" },
            [1, 2, 3],
            ["xf_map", "$src", ["xf_pluck", "$", ["prop"]]],
            ["xf_pluck", "$plk", ["plk_prop"]]
        ],
        "num": -98,
        "string": "testing",
        "bool": false,
        "map": ["xf_map", "$src", ["xf_pluck", "$", ["map_property"]]],
        "pluck": ["xf_pluck", "$not_found_object", ["pluck_property"]],
        "transform_as_source": ["xf_map", ["xf_pluck", "$data", ["nested_array"]], ["xf_pluck", "$", ["prop"]]]
    }"#;
    let nested_array = list(vec![
        JsonValue::Object(fields(vec![("prop", n(1))])),
        JsonValue::Object(fields(vec![("prop", n(2))])),
    ]);
    let data = JsonValue::Object(fields(vec![
        (
            "lookup",
            JsonValue::Object(fields(vec![(
                "my",
                JsonValue::Object(fields(vec![("data", s("my_data"))])),
            )])),
        ),
        ("nested_array", nested_array.duplicate()),
    ]));
    let variables = fields(vec![
        ("data", data.duplicate()),
        ("source", list(vec![s("one"), s("two"), s("three")])),
    ]);

    let result = resolve(json, &variables).expect("the sample is a document");

    assert_eq!(result.entries.len(), 8);
    assert_eq!(result.get(&key("num")), Some(&Data::Number(-98)));
    assert_eq!(result.get(&key("string")), Some(&Data::String("testing".to_string())));
    assert_eq!(result.get(&key("bool")), Some(&Data::Bool(false)));
    assert_eq!(result.get(&key("absent")), None);

    let top_map = map_of(result.get(&key("map")).unwrap());
    assert_eq!(top_map.source_value, None);
    assert_eq!(top_map.value, None);

    let top_pluck = pluck_of(result.get(&key("pluck")).unwrap());
    assert_eq!(top_pluck.source_value, None);
    assert_eq!(top_pluck.value, None);
    assert_eq!(top_pluck.path, path(&["pluck_property"]));

    let obj = match result.get(&key("obj")).unwrap() {
        Data::Object(obj) => obj,
        other => panic!("not an object: {:?}", other),
    };
    assert_eq!(obj.get(&key("nest")), Some(&Data::String("string".to_string())));
    let found = pluck_of(obj.get(&key("pluck")).unwrap());
    assert_eq!(found.source_value, Some(data.duplicate()));
    assert_eq!(found.value, Some(s("my_data")));
    let more = match obj.get(&key("more_nest")).unwrap() {
        Data::Object(more) => more,
        other => panic!("not an object: {:?}", other),
    };
    let missing = pluck_of(more.get(&key("mapper")).unwrap());
    assert_eq!(missing.source_value, Some(data.duplicate()));
    assert_eq!(missing.value, None);

    let array = match result.get(&key("array")).unwrap() {
        Data::Array(items) => items,
        other => panic!("not an array: {:?}", other),
    };
    assert_eq!(array.len(), 7);
    assert_eq!(array[0], Data::Number(1));
    assert_eq!(array[4], Data::Array(vec![Data::Number(1), Data::Number(2), Data::Number(3)]));
    assert_eq!(map_of(&array[5]).value, None);
    assert_eq!(pluck_of(&array[6]).value, None);

    let composed = map_of(result.get(&key("transform_as_source")).unwrap());
    assert_eq!(composed.source_value, Some(nested_array.duplicate()));
    assert_eq!(composed.value, Some(list(vec![n(1), n(2)])));
    match &*composed.source {
        TransformSource::Transform(Transform::Pluck(inner)) => {
            assert_eq!(inner.source_value, Some(data));
            assert_eq!(inner.value, Some(nested_array));
        }
        other => panic!("not a nested pluck: {:?}", other),
    }
}

#[test]
fn variable_values_of_every_kind_are_copied() {
    let json = r#"{ "a": ["xf_pluck", "$v", ["null"]], "b": ["xf_pluck", "$v", ["real"]], "c": ["xf_pluck", "$v", ["flag"]] }"#;
    let variables = fields(vec![(
        "v",
        JsonValue::Object(fields(vec![
            ("null", JsonValue::Null),
            ("real", JsonValue::Number(Number::Other("1.5".to_string()))),
            ("flag", JsonValue::Bool(true)),
        ])),
    )]);
    let result = resolve(json, &variables).unwrap();
    assert_eq!(pluck_of(result.get(&key("a")).unwrap()).value, Some(JsonValue::Null));
    assert_eq!(
        pluck_of(result.get(&key("b")).unwrap()).value,
        Some(JsonValue::Number(Number::Other("1.5".to_string())))
    );
    assert_eq!(pluck_of(result.get(&key("c")).unwrap()).value, Some(JsonValue::Bool(true)));
}

#[test]
fn text_is_read_as_json() {
    // escapes are decoded, white space is dropped, and a key that comes
    // twice keeps its last value
    let json = "{\n\t\"k\\u0041\" : \"line\\nbreak\", \"n\": 0, \"n\": -12 }";
    let result = resolve(json, &fields(vec![])).unwrap();
    assert_eq!(result.get(&key("kA")), Some(&Data::String("line\nbreak".to_string())));
    assert_eq!(result.get(&key("n")), Some(&Data::Number(-12)));
    assert_eq!(result.entries.len(), 2);
}

#[test]
fn largest_and_smallest_integers() {
    let json = r#"{ "max": 9223372036854775807, "min": -9223372036854775808 }"#;
    let result = resolve(json, &fields(vec![])).unwrap();
    assert_eq!(result.get(&key("max")), Some(&Data::Number(i64::MAX)));
    assert_eq!(result.get(&key("min")), Some(&Data::Number(i64::MIN)));
}

#[test]
fn malformed_text_is_a_syntax_error() {
    let none = fields(vec![]);
    assert_eq!(resolve("", &none), Err(FormatError::Syntax));
    assert_eq!(resolve("{", &none), Err(FormatError::Syntax));
    assert_eq!(resolve(r#"{ "a": 1, }"#, &none), Err(FormatError::Syntax));
    assert_eq!(resolve(r#"{ "a": 1 } x"#, &none), Err(FormatError::Syntax));
    assert_eq!(resolve(r#"{ a: 1 }"#, &none), Err(FormatError::Syntax));
}

#[test]
fn top_level_must_be_an_object() {
    let none = fields(vec![]);
    assert_eq!(resolve("[1, 2]", &none), Err(FormatError::Syntax));
    assert_eq!(resolve("\"text\"", &none), Err(FormatError::Syntax));
    assert_eq!(resolve("null", &none), Err(FormatError::Syntax));
    assert_eq!(resolve(r#"["xf_pluck", "$v", ["p"]]"#, &none), Err(FormatError::Syntax));
    assert_eq!(resolve_document(&list(vec![n(1)]), &none), Err(FormatError::Syntax));
}

#[test]
fn null_and_other_numbers_are_scalar_errors() {
    let none = fields(vec![]);
    assert_eq!(resolve(r#"{ "a": null }"#, &none), Err(FormatError::Scalar));
    assert_eq!(resolve(r#"{ "a": 1.5 }"#, &none), Err(FormatError::Scalar));
    assert_eq!(resolve(r#"{ "a": 1.0 }"#, &none), Err(FormatError::Scalar));
    assert_eq!(resolve(r#"{ "a": 9223372036854775808 }"#, &none), Err(FormatError::Scalar));
    assert_eq!(resolve(r#"{ "a": [1, [null]] }"#, &none), Err(FormatError::Scalar));
    assert_eq!(resolve(r#"{ "a": { "b": null } }"#, &none), Err(FormatError::Scalar));
}

#[test]
fn source_that_is_no_transform_is_a_shape_error() {
    let none = fields(vec![]);
    assert_eq!(resolve(r#"{ "a": ["xf_pluck", 5, ["p"]] }"#, &none), Err(FormatError::Shape));
    assert_eq!(
        resolve(r#"{ "a": ["xf_pluck", ["xf_pluck", "$v"], ["p"]] }"#, &none),
        Err(FormatError::Shape)
    );
    assert_eq!(
        resolve(r#"{ "a": ["xf_map", "$v", { "xf_pluck": 1 }] }"#, &none),
        Err(FormatError::Shape)
    );
    assert_eq!(
        resolve(r#"{ "a": ["xf_map", "$v", [1, "$", ["p"]]] }"#, &none),
        Err(FormatError::Shape)
    );
}

#[test]
fn unknown_operator_is_a_tag_error() {
    let none = fields(vec![]);
    assert_eq!(
        resolve(r#"{ "a": ["xf_map", "$v", ["xf_filter", "$", ["p"]]] }"#, &none),
        Err(FormatError::Tag)
    );
    assert_eq!(
        resolve(r#"{ "a": ["xf_pluck", ["XF_PLUCK", "$v", ["p"]], ["p"]] }"#, &none),
        Err(FormatError::Tag)
    );
}

#[test]
fn path_must_be_an_array_of_strings() {
    let none = fields(vec![]);
    assert_eq!(resolve(r#"{ "a": ["xf_pluck", "$v", "p"] }"#, &none), Err(FormatError::Path));
    assert_eq!(resolve(r#"{ "a": ["xf_pluck", "$v", ["p", 1]] }"#, &none), Err(FormatError::Path));
    assert_eq!(
        resolve(r#"{ "a": ["xf_map", "$v", ["xf_pluck", "$", [["p"]]]] }"#, &none),
        Err(FormatError::Path)
    );
    assert_eq!(deserialize_path(&list(vec![s("a"), s("b")])), Ok(path(&["a", "b"])));
    assert_eq!(deserialize_path(&list(vec![])), Ok(path(&[])));
    assert_eq!(deserialize_path(&n(1)), Err(FormatError::Path));
}

#[test]
fn first_error_in_order_is_reported() {
    let none = fields(vec![]);
    assert_eq!(
        resolve(r#"{ "a": null, "b": ["xf_pluck", "$v", "p"] }"#, &none),
        Err(FormatError::Scalar)
    );
    assert_eq!(
        resolve(r#"{ "a": ["xf_pluck", "$v", "p"], "b": null }"#, &none),
        Err(FormatError::Path)
    );
    assert_eq!(
        resolve(r#"{ "a": [["xf_map", 1, 2], null] }"#, &none),
        Err(FormatError::Shape)
    );
}

#[test]
fn errors_stop_resolution_entirely() {
    let variables = fields(vec![("v", JsonValue::Object(fields(vec![("p", n(1))])))]);
    let json = r#"{ "a": ["xf_pluck", "$v", ["p"]], "z": null }"#;
    assert_eq!(resolve(json, &variables), Err(FormatError::Scalar));
}

#[test]
fn arrays_without_operator_tag_are_lists() {
    let none = fields(vec![]);
    let json = r#"{
        "a": ["xf_other", "$v", ["p"]],
        "b": ["xf_map", "$v"],
        "c": ["xf_pluck", "$v", ["p"], 4],
        "d": [["xf_pluck"], "$v", ["p"]],
        "e": []
    }"#;
    let text = |t: &str| Data::String(t.to_string());
    let expected = nodes(vec![
        ("a", Data::Array(vec![text("xf_other"), text("$v"), Data::Array(vec![text("p")])])),
        ("b", Data::Array(vec![text("xf_map"), text("$v")])),
        (
            "c",
            Data::Array(vec![
                text("xf_pluck"),
                text("$v"),
                Data::Array(vec![text("p")]),
                Data::Number(4),
            ]),
        ),
        (
            "d",
            Data::Array(vec![
                Data::Array(vec![text("xf_pluck")]),
                text("$v"),
                Data::Array(vec![text("p")]),
            ]),
        ),
        ("e", Data::Array(vec![])),
    ]);
    assert_eq!(resolve(json, &none), Ok(expected));
}

#[test]
fn starts_transform_reads_the_head() {
    assert!(starts_transform(&list(vec![s("xf_map"), n(1), n(2)])));
    assert!(starts_transform(&list(vec![s("xf_pluck"), n(1), n(2)])));
    assert!(!starts_transform(&list(vec![s("xf_map"), n(1)])));
    assert!(!starts_transform(&list(vec![s("xf_fold"), n(1), n(2)])));
    assert!(!starts_transform(&list(vec![n(0), n(1), n(2)])));
    assert!(!starts_transform(&s("xf_map")));
}

#[test]
fn deserialize_builds_unresolved_nodes() {
    let value = list(vec![
        s("xf_map"),
        list(vec![s("xf_pluck"), s("$data"), list(vec![s("items")])]),
        list(vec![s("xf_map"), s("$"), list(vec![s("xf_pluck"), s("$"), list(vec![s("n")])])]),
    ]);
    let inner_source = Transform::Pluck(PluckTransform::new(name("$data"), path(&["items"])));
    let innermost = Transform::Pluck(PluckTransform::new(name("$"), path(&["n"])));
    let mapper = Transform::MapOp(MapTransform::new(name("$"), Box::new(innermost)));
    let expected = MapTransform::new(TransformSource::Transform(inner_source), Box::new(mapper));
    assert_eq!(MapTransform::deserialize(&value), Ok(expected));
    assert_eq!(Transform::deserialize(&value).map(|t| matches!(t, Transform::MapOp(_))), Ok(true));
    assert_eq!(Data::deserialize(&value).map(|d| matches!(d, Data::Transform(_))), Ok(true));
}

#[test]
fn deserialize_checks_the_expected_operator() {
    let pluck = list(vec![s("xf_pluck"), s("$v"), list(vec![s("p")])]);
    let map = list(vec![s("xf_map"), s("$v"), pluck.duplicate()]);
    assert_eq!(MapTransform::deserialize(&pluck), Err(FormatError::Tag));
    assert_eq!(PluckTransform::deserialize(&map), Err(FormatError::Tag));
    assert_eq!(
        PluckTransform::deserialize(&pluck),
        Ok(PluckTransform::new(name("$v"), path(&["p"])))
    );
    assert_eq!(MapTransform::deserialize(&n(1)), Err(FormatError::Shape));
    assert_eq!(PluckTransform::deserialize(&list(vec![])), Err(FormatError::Shape));
    assert_eq!(Transform::deserialize(&s("xf_map")), Err(FormatError::Shape));
    assert_eq!(TransformSource::deserialize(&s("anything")), Ok(name("anything")));
    assert_eq!(TransformSource::deserialize(&JsonValue::Null), Err(FormatError::Shape));
    assert_eq!(
        TransformSource::deserialize(&pluck),
        Ok(TransformSource::Transform(Transform::Pluck(PluckTransform::new(
            name("$v"),
            path(&["p"])
        ))))
    );
}

#[test]
fn data_object_deserialize_keeps_entries_in_order() {
    let object = fields(vec![("z", n(1)), ("a", s("x")), ("z", JsonValue::Bool(true))]);
    let expected = nodes(vec![
        ("z", Data::Number(1)),
        ("a", Data::String("x".to_string())),
        ("z", Data::Bool(true)),
    ]);
    let parsed = DataObject::deserialize(&object).unwrap();
    assert_eq!(parsed, expected);
    assert_eq!(parsed.get(&key("z")), Some(&Data::Number(1)));
}

#[test]
fn resolve_document_matches_resolve() {
    let variables = fields(vec![("v", JsonValue::Object(fields(vec![("p", n(3))])))]);
    let document = JsonValue::Object(fields(vec![(
        "k",
        list(vec![s("xf_pluck"), s("$v"), list(vec![s("p")])]),
    )]));
    let by_value = resolve_document(&document, &variables);
    let by_text = resolve(r#"{ "k": ["xf_pluck", "$v", ["p"]] }"#, &variables);
    assert_eq!(by_value, by_text);
    assert_eq!(pluck_of(by_value.unwrap().get(&key("k")).unwrap()).value, Some(n(3)));
}

#[test]
fn resolve_array_and_map_reach_every_node() {
    let variables = fields(vec![("v", JsonValue::Object(fields(vec![("p", n(3))])))]);
    let node = || Data::Transform(Transform::Pluck(PluckTransform::new(name("$v"), path(&["p"]))));
    let mut items = vec![node(), Data::Number(1), Data::Array(vec![node()])];
    resolve_array(&mut items, &variables);
    assert_eq!(pluck_of(&items[0]).value, Some(n(3)));
    assert_eq!(items[1], Data::Number(1));
    match &items[2] {
        Data::Array(inner) => assert_eq!(pluck_of(&inner[0]).value, Some(n(3))),
        other => panic!("not an array: {:?}", other),
    }
    let mut object = nodes(vec![("a", node()), ("a", node()), ("b", Data::Bool(true))]);
    resolve_map(&mut object, &variables);
    assert_eq!(pluck_of(&object.entries[0].1).value, Some(n(3)));
    assert_eq!(pluck_of(&object.entries[1].1).value, Some(n(3)));
    assert_eq!(object.entries[2], (key("b"), Data::Bool(true)));
}

#[test]
fn second_pass_over_a_resolved_document_changes_nothing() {
    let variables = fields(vec![("v", JsonValue::Object(fields(vec![("p", n(3))])))]);
    let json = r#"{ "k": ["xf_map", ["xf_pluck", "$w", ["items"]], ["xf_pluck", "$", ["p"]]], "l": ["xf_pluck", "$v", ["p"]] }"#;
    let more = fields(vec![
        ("v", JsonValue::Object(fields(vec![("p", n(3))]))),
        (
            "w",
            JsonValue::Object(fields(vec![(
                "items",
                list(vec![JsonValue::Object(fields(vec![("p", n(1))]))]),
            )])),
        ),
    ]);
    let mut once = resolve(json, &more).unwrap();
    let twice = resolve(json, &more).unwrap();
    resolve_map(&mut once, &variables);
    assert_eq!(once, twice);
    resolve_map(&mut once, &fields(vec![]));
    assert_eq!(once, twice);
}

#[test]
fn data_as_transformable() {
    let variables = fields(vec![("v", JsonValue::Object(fields(vec![("p", n(3))])))]);
    let mut node =
        Data::Transform(Transform::Pluck(PluckTransform::new(name("$v"), path(&["p"]))));
    assert_eq!(node.get_source_value(), None);
    assert_eq!(**node.get_source(), name("$v"));
    node.resolve_source(&variables);
    assert_eq!(node.get_source_value(), Some(&JsonValue::Object(fields(vec![("p", n(3))]))));
    assert_eq!(pluck_of(&node).value, None);
    node.transform(&fields(vec![]));
    assert_eq!(pluck_of(&node).value, Some(n(3)));
    node.set_source(n(0));
    assert_eq!(node.get_source_value(), Some(&n(0)));
}

#[test]
fn parse_leaves_transforms_unresolved() {
    let json = r#"{ "k": ["xf_pluck", "$v", ["p"]], "n": 1 }"#;
    let expected = nodes(vec![
        ("k", Data::Transform(Transform::Pluck(PluckTransform::new(name("$v"), path(&["p"]))))),
        ("n", Data::Number(1)),
    ]);
    assert_eq!(parse(json), Ok(expected));
    assert_eq!(parse("[]"), Err(FormatError::Syntax));
    assert_eq!(parse("{"), Err(FormatError::Syntax));
    assert_eq!(parse(r#"{ "k": null }"#), Err(FormatError::Scalar));
}

#[test]
fn deserialize_document_needs_an_object() {
    let object = JsonValue::Object(fields(vec![("n", n(1))]));
    assert_eq!(deserialize_document(&object), Ok(nodes(vec![("n", Data::Number(1))])));
    assert_eq!(deserialize_document(&n(1)), Err(FormatError::Syntax));
    assert_eq!(deserialize_document(&JsonValue::Null), Err(FormatError::Syntax));
    assert_eq!(
        deserialize_document(&JsonValue::Object(fields(vec![("n", JsonValue::Null)]))),
        Err(FormatError::Scalar)
    );
}
