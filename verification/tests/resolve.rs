use json_resolve::json::{JsonValue, Number, Object};
use json_resolve::resolve;
use json_resolve::xforms::Transform;
use json_resolve::Data;

fn object(entries: Vec<(&str, JsonValue)>) -> Object {
    Object { entries: entries.into_iter().map(|(k, v)| (k.to_string(), v)).collect() }
}

fn number(i: i64) -> JsonValue {
    JsonValue::Number(Number::Int(i))
}

#[test]
fn xf_map_with_xf_pluck() {
    let json = r#"
            { "a_map": ["xf_map", "$src", ["xf_pluck", "$", ["prop"]]], "some_string": "string_value" }
        "#;

    let variables = object(vec![(
        "src",
        JsonValue::Array(vec![
            JsonValue::Object(object(vec![("prop", number(1))])),
            JsonValue::Object(object(vec![("prop", number(2))])),
        ]),
    )]);

    let result = resolve(json, &variables).expect("error parsing json");

    let result = result.get(&"a_map".to_string()).unwrap();

    if let Data::Transform(Transform::MapOp(xf)) = result {
        let result: &Vec<JsonValue> = match xf
            .value
            .as_ref()
            .expect("value of MapTransform at 'a_map' was not resolved")
        {
            JsonValue::Array(items) => items,
            _ => panic!("value of MapTransform at 'a_map' was not resolved to an array"),
        };

        let expected = vec![number(1), number(2)];

        assert_eq!(result, &expected);
    } else {
        panic!("'a_map' was not serialized into a MapTransform");
    }
}

#[test]
fn xf_map_with_xf_map() {
    let json = r#"
            { "a_map": ["xf_map", "$src", ["xf_map", "$", ["xf_pluck", "$", ["count"]]]] }
        "#;

    let count = |i: i64| JsonValue::Object(object(vec![("count", number(i))]));
    let variables = object(vec![(
        "src",
        JsonValue::Array(vec![
            JsonValue::Array(vec![count(1), count(2), count(3)]),
            JsonValue::Array(vec![count(4), count(5), count(6)]),
        ]),
    )]);

    let result = resolve(json, &variables).expect("error parsing json");

    let result = result.get(&"a_map".to_string()).unwrap();

    if let Data::Transform(Transform::MapOp(xf)) = result {
        let result: &Vec<JsonValue> = match xf
            .value
            .as_ref()
            .expect("value of MapTransform at 'a_map' was not resolved")
        {
            JsonValue::Array(items) => items,
            _ => panic!("value of MapTransform at 'a_map' was not resolved to an array"),
        };

        let expected: Vec<JsonValue> = vec![
            JsonValue::Array(vec![number(1), number(2), number(3)]),
            JsonValue::Array(vec![number(4), number(5), number(6)]),
        ];

        assert_eq!(result, &expected);
    } else {
        panic!("'a_map' was not serialized into a MapTransform");
    }
}

#[test]
fn xf_pluck_basic_functionality() {
    let json = r#"
            { "data": ["xf_pluck", "$var", ["prop"]] }
        "#;

    let variables = object(vec![(
        "var",
        JsonValue::Object(object(vec![("prop", JsonValue::String("testing".to_string()))])),
    )]);

    let result = resolve(json, &variables).expect("error parsing json");

    let result = result.get(&"data".to_string()).unwrap();

    if let Data::Transform(Transform::Pluck(xf)) = result {
        let result = match xf
            .value
            .as_ref()
            .expect("value of PluckTransform at 'data' was not resolved")
        {
            JsonValue::String(s) => s.as_str(),
            _ => panic!("value of PluckTransform at 'data' was not resolved to a string slice"),
        };

        assert_eq!(result, "testing");
    } else {
        panic!("'data' was not serialized into a PluckTransform");
    }
}
