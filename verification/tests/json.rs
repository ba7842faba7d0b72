use serde_json::Value;
use zeroclaw_a2a::json::{Json, JsonObject};

fn value(text: &str) -> Value {
    serde_json::from_str(text).unwrap()
}

const SAMPLE: &str =
    r#"{"a":[null,true,-3,18446744073709551615,1.5,"x\n\"é"],"b":{},"c":{"d":[[]]}}"#;

#[test]
fn values_convert_there_and_back() {
    let v = value(SAMPLE);
    assert_eq!(Json::from_value(v.clone()).into_value(), v);
}

#[test]
fn text_is_parsed_and_rendered() {
    let json = Json::parse(SAMPLE).unwrap();
    assert_eq!(value(&json.render()), value(SAMPLE));
    assert_eq!(Json::parse("[1, 2 ]").unwrap().render(), "[1,2]");
    assert_eq!(Json::parse(r#"{ "b": 1, "a": "A" }"#).unwrap().render(), r#"{"a":"A","b":1}"#);
    assert!(Json::parse("{").is_none());
    assert!(Json::parse("").is_none());
}

#[test]
fn nesting_is_parsed_up_to_the_limit() {
    let nested = |depth: usize| format!("{}{}", "[".repeat(depth), "]".repeat(depth));
    assert!(Json::parse(&nested(127)).is_some());
    assert!(Json::parse(&nested(128)).is_none());
    assert_eq!(Json::parse(&nested(127)).unwrap().render(), nested(127));
}

#[test]
fn a_reserved_key_stands_for_raw_json() {
    let object = Json::Object(
        JsonObject::new().with("$serde_json::private::RawValue", Json::text("[1, 2]")),
    );
    let text = object.render();
    assert_eq!(text, r#"{"$serde_json::private::RawValue":"[1, 2]"}"#);
    assert_eq!(Json::parse(&text).unwrap().render(), "[1,2]");
}

#[test]
fn a_later_entry_replaces_an_earlier_one() {
    let json = Json::Object(
        JsonObject::new()
            .with("k", Json::text("first"))
            .with("other", Json::Null)
            .with("k", Json::text("second")),
    );
    assert_eq!(json.get("k").and_then(|v| v.as_str()), Some("second"));
    assert_eq!(json.clone().render(), r#"{"k":"second","other":null}"#);
}

#[test]
fn numbers_are_made_of_integers() {
    assert_eq!(Json::unsigned(u64::MAX).render(), "18446744073709551615");
    assert_eq!(Json::signed(-32601).render(), "-32601");
    assert_eq!(Json::signed(7).into_value(), value("7"));
}

#[test]
fn members_and_items_are_found() {
    let json = Json::parse(SAMPLE).unwrap();
    assert!(json.get("z").is_none());
    assert!(json.get("a").unwrap().get("0").is_none());
    assert!(json.get("a").unwrap().as_str().is_none());
    assert_eq!(json.get("a").unwrap().as_array().unwrap().len(), 6);
    assert!(json.as_array().is_none());
}

#[test]
fn pointers_agree_with_the_parser_crate() {
    let text = r#"{"a":[{"0":"zero"},["x","y"]],"0":{"1":2},"":1,"00":3}"#;
    let json = Json::parse(text).unwrap();
    let v = value(text);
    let paths: Vec<Vec<&str>> = vec![
        vec![],
        vec!["a"],
        vec!["a", "0"],
        vec!["a", "0", "0"],
        vec!["a", "1", "1"],
        vec!["a", "1", "2"],
        vec!["a", "01"],
        vec!["a", "+1"],
        vec!["a", "-1"],
        vec!["a", ""],
        vec!["a", "1", "99999999999999999999999999"],
        vec!["0", "1"],
        vec![""],
        vec!["00"],
        vec!["a", "x"],
        vec!["a", "1", "0", "0"],
    ];
    for path in paths {
        let pointer: String = path.iter().map(|token| format!("/{token}")).collect();
        let expected = v.pointer(&pointer).cloned();
        let found = json.pointer(&path).map(|found| found.clone().into_value());
        assert_eq!(found, expected, "{pointer}");
    }
}
