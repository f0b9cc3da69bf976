use nah::codec::{parse, to_text};
use nah::json::Json;

#[test]
fn parse_reads_an_object() {
    let j = parse("{\"a\": [1, true, null, \"x\"], \"b\": -2.5}").unwrap();
    let a = j.get("a").unwrap().as_array().unwrap();
    assert_eq!(a.len(), 4);
    assert_eq!(a[3].as_str(), Some("x"));
    assert!(a[2].is_null());
    assert_eq!(a[1].as_bool(), Some(true));
    assert!(matches!(j.get("b"), Some(Json::Number(t)) if t == "-2.5"));
    assert!(j.get("c").is_none());
}

#[test]
fn parse_rejects_what_is_not_json() {
    assert!(parse("{\"a\": ").is_err());
    assert!(parse("").is_err());
}

#[test]
fn to_text_writes_members_by_key_and_the_last_one_wins() {
    let mut j = Json::object();
    j.insert("b", Json::number("0.7"));
    j.insert("a", Json::string("x"));
    j.insert("b", Json::number("4096"));
    assert_eq!(to_text(&j), "{\"a\":\"x\",\"b\":4096}");
}

#[test]
fn accessors_tell_the_kinds_apart() {
    let j = parse("{\"o\":{\"k\":1},\"n\":18446744073709551615,\"f\":1.50,\"neg\":-3,\"big\":18446744073709551616}").unwrap();
    assert_eq!(j.as_object().unwrap().len(), 5);
    assert!(j.get("o").unwrap().as_object().is_some());
    assert!(j.get("n").unwrap().as_object().is_none());
    assert_eq!(j.get("n").unwrap().as_u64(), Some(u64::MAX));
    assert_eq!(j.get("f").unwrap().as_u64(), None);
    assert_eq!(j.get("neg").unwrap().as_u64(), None);
    assert_eq!(j.get("big").unwrap().as_u64(), None);
    assert!(matches!(j.get("f"), Some(Json::Number(t)) if t == "1.5"));
    assert_eq!(to_text(&j.clone()), to_text(&j));
}

#[test]
fn a_number_that_is_no_number_is_written_as_null() {
    let mut j = Json::object();
    j.insert("a", Json::number("abc"));
    j.insert("b", Json::number("-0.50"));
    assert_eq!(to_text(&j), "{\"a\":null,\"b\":-0.5}");
    assert_eq!(nah::codec::to_pretty_text(&j), "{\n  \"a\": null,\n  \"b\": -0.5\n}");
}

#[test]
fn every_kind_of_value_is_written() {
    assert_eq!(to_text(&Json::Null), "null");
    assert_eq!(to_text(&Json::Bool(true)), "true");
    assert_eq!(to_text(&Json::Bool(false)), "false");
    assert_eq!(to_text(&Json::string("a\"b\n")), "\"a\\\"b\\n\"");
    assert_eq!(to_text(&Json::number("12")), "12");
    assert_eq!(to_text(&Json::number("[1]")), "[1]");
    let items = Json::Array(vec![
        Json::Null,
        Json::Bool(false),
        Json::number("1e2"),
        Json::string("x"),
        Json::Array(vec![]),
        Json::object(),
    ]);
    assert_eq!(to_text(&items), "[null,false,100.0,\"x\",[],{}]");
    let members = Json::Object(vec![
        ("k".to_owned(), Json::Array(vec![Json::number("1")])),
        ("a".to_owned(), Json::Null),
        ("k".to_owned(), Json::Bool(true)),
    ]);
    assert_eq!(to_text(&members), "{\"a\":null,\"k\":true}");
    assert!(!to_text(&members).contains('\n'));
}
