use nah::codec::parse;
use nah::json::Json;
use nah::json_schema::{create_instance_template, get_type_name, is_empty_object, JSONSchemaTypeName};

#[test]
fn test_is_empty_object() {
    assert_eq!(is_empty_object(&parse("{}").unwrap()), true);
    assert_eq!(is_empty_object(&parse("{\"key\": 1}").unwrap()), false);
    assert_eq!(is_empty_object(&parse("0").unwrap()), false);
}

#[test]
fn a_simple_type_is_one_line_without_a_comma() {
    let t = |s: &str| create_instance_template(&parse(s).unwrap()).unwrap();
    assert_eq!(t("{\"type\":\"string\"}"), "\"<FILL A STRING>\"");
    assert_eq!(t("{\"type\":\"number\"}"), "<FILL A NUMBER>");
    assert_eq!(t("{\"type\":\"boolean\"}"), "<FILL A BOOLEAN VALUE>");
    assert_eq!(t("{\"type\":\"null\"}"), "null");
}

#[test]
fn an_object_lists_its_properties() {
    let schema = parse("{\"type\":\"object\",\"properties\":{\"bar\":{\"type\":\"string\"},\"baz\":{\"type\":\"object\",\"properties\":{\"n\":{\"type\":\"number\"},\"ok\":{\"type\":\"boolean\"}}},\"zed\":{\"type\":\"null\"}}}").unwrap();
    assert_eq!(
        create_instance_template(&schema).unwrap(),
        "{\n    \"bar\": \"<FILL A STRING>\",\n    \"baz\": {\n        \"n\": <FILL A NUMBER>,\n        \"ok\": <FILL A BOOLEAN VALUE>\n    },\n    \"zed\": null\n}"
    );
    let empty = parse("{\"type\":\"object\",\"properties\":{}}").unwrap();
    assert_eq!(create_instance_template(&empty).unwrap(), "{\n}");
}

#[test]
fn a_schema_that_cannot_be_used_is_an_error() {
    let e = create_instance_template(&parse("{\"type\":\"array\"}").unwrap()).unwrap_err();
    assert_eq!(e.code, 7);
    assert_eq!(e.message, "Received invalid JSON Schema: unknown type name : array");
    let e = create_instance_template(&parse("{}").unwrap()).unwrap_err();
    assert_eq!(e.message, "Received invalid JSON Schema: type name not found");
    let e = create_instance_template(&parse("{\"type\":\"object\"}").unwrap()).unwrap_err();
    assert_eq!(e.message, "Received invalid JSON Schema: properties not found on an object");
    let e = create_instance_template(
        &parse("{\"type\":\"object\",\"properties\":{\"a\":{\"type\":\"string\"},\"b\":{\"type\":\"x\"}}}").unwrap(),
    )
    .unwrap_err();
    assert_eq!(e.message, "Received invalid JSON Schema: unknown type name : x");
    assert!(matches!(get_type_name(&Json::Null), Err(_)));
    assert!(matches!(
        get_type_name(&parse("{\"type\":\"object\"}").unwrap()),
        Ok(JSONSchemaTypeName::Object)
    ));
}

#[test]
fn the_properties_of_an_object_schema_are_its_members() {
    let schema = parse("{\"type\":\"object\",\"properties\":{\"a\":{},\"b\":{}}}").unwrap();
    let names: Vec<&str> = nah::json_schema::get_properties(&schema)
        .unwrap()
        .iter()
        .map(|(k, _)| k.as_str())
        .collect();
    assert_eq!(names, vec!["a", "b"]);
    assert!(nah::json_schema::get_properties(&parse("{\"properties\":[]}").unwrap()).is_err());
}
