use notion_api::error::CommErr;
use notion_api::json::{
    display, get_property_value, get_value_array, get_value_bool, get_value_object,
    get_value_opt_str, get_value_str, position, Json,
};

fn shown(n: &serde_json::Number) -> String {
    if n.is_u64() && !n.is_i64() {
        format!("{}", n.as_u64().unwrap())
    } else {
        format!("{}", n.as_f64().unwrap())
    }
}

fn convert(v: &serde_json::Value) -> Json {
    match v {
        serde_json::Value::Null => Json::Null,
        serde_json::Value::Bool(b) => Json::Bool(*b),
        serde_json::Value::Number(n) => Json::Number(n.to_string(), shown(n)),
        serde_json::Value::String(s) => Json::Text(s.clone()),
        serde_json::Value::Array(a) => Json::Array(a.iter().map(convert).collect()),
        serde_json::Value::Object(o) => {
            Json::Object(o.iter().map(|(k, v)| (k.clone(), convert(v))).collect())
        }
    }
}

fn parse(text: &str) -> Json {
    convert(&serde_json::from_str::<serde_json::Value>(text).unwrap())
}

#[test]
fn get_finds_the_first_field_of_that_name() {
    let j = Json::Object(vec![
        ("a".to_string(), Json::Bool(true)),
        ("b".to_string(), Json::Null),
        ("a".to_string(), Json::Bool(false)),
    ]);
    assert_eq!(j.get("a"), Some(&Json::Bool(true)));
    assert_eq!(j.get("b"), Some(&Json::Null));
    assert_eq!(j.get("c"), None);
    assert_eq!(Json::Array(vec![]).get("a"), None);
    assert_eq!(Json::Text("a".to_string()).get("a"), None);
    match &j {
        Json::Object(fields) => {
            assert_eq!(position(fields, "a"), Some(0));
            assert_eq!(position(fields, "b"), Some(1));
            assert_eq!(position(fields, "z"), None);
        }
        _ => unreachable!(),
    }
}

#[test]
fn coercions_of_a_value() {
    assert_eq!(Json::Text("t".to_string()).as_str(), Some("t"));
    assert_eq!(Json::Bool(true).as_str(), None);
    assert_eq!(Json::Bool(true).as_bool(), Some(true));
    assert_eq!(Json::Null.as_bool(), None);
    assert!(Json::Null.is_null());
    assert!(!Json::Bool(false).is_null());
    assert_eq!(Json::Array(vec![Json::Null]).as_array(), Some(&vec![Json::Null]));
    assert_eq!(Json::Null.as_array(), None);
    assert_eq!(Json::Object(vec![]).as_object(), Some(&vec![]));
    assert_eq!(Json::Null.as_object(), None);
}

#[test]
fn value_str_reads_strings_only() {
    let j = parse(r#"{"a": "text", "b": 5, "c": null, "id": 5}"#);
    assert_eq!(get_value_str(&j, "a"), Ok("text".to_string()));
    assert_eq!(get_value_str(&j, "b"), Err(CommErr::WrongFieldType("b".to_string())));
    assert_eq!(get_value_str(&j, "c"), Err(CommErr::WrongFieldType("c".to_string())));
    assert_eq!(get_value_str(&j, "id"), Err(CommErr::WrongFieldType("id".to_string())));
    assert_eq!(get_value_str(&j, "d"), Err(CommErr::MissingField("d".to_string())));
    assert_eq!(get_value_str(&Json::Null, "a"), Err(CommErr::MissingField("a".to_string())));
}

#[test]
fn open_text_reads_null_as_empty() {
    let j = parse(r#"{"a": "text", "b": 5, "c": null}"#);
    assert_eq!(get_value_opt_str(&j, "a"), Ok("text".to_string()));
    assert_eq!(get_value_opt_str(&j, "c"), Ok(String::new()));
    assert_eq!(get_value_opt_str(&j, "b"), Err(CommErr::WrongFieldType("b".to_string())));
    assert_eq!(get_value_opt_str(&j, "d"), Err(CommErr::MissingField("d".to_string())));
}

#[test]
fn property_value_follows_the_type_field() {
    let j = parse(r#"{"type": "select", "select": {"name": "x"}, "other": 1}"#);
    assert_eq!(get_property_value(&j, None), Ok(&parse(r#"{"name": "x"}"#)));
    let outer = parse(r#"{"P": {"type": "number", "number": 3}}"#);
    assert_eq!(get_property_value(&outer, Some("P")), Ok(&Json::Number("3".to_string(), "3".to_string())));
    assert_eq!(
        get_property_value(&outer, Some("Q")),
        Err(CommErr::MissingField("Q".to_string()))
    );
    let untyped = parse(r#"{"select": 1}"#);
    assert_eq!(get_property_value(&untyped, None), Err(CommErr::MissingField("type".to_string())));
    let dangling = parse(r#"{"type": "select"}"#);
    assert_eq!(
        get_property_value(&dangling, None),
        Err(CommErr::MissingField("type".to_string()))
    );
    let odd = parse(r#"{"type": 5, "": "empty name"}"#);
    assert_eq!(
        get_property_value(&odd, None),
        Err(CommErr::WrongFieldType("type".to_string()))
    );
}

#[test]
fn display_unwraps_typed_values() {
    assert_eq!(display(&parse(r#""plain""#)), "plain");
    assert_eq!(display(&parse(r#"{"type": "emoji", "emoji": "!"}"#)), "!");
    assert_eq!(
        display(&parse(r#"{"type": "a", "a": {"type": "b", "b": "deep"}}"#)),
        "deep"
    );
    assert_eq!(display(&parse(r#"{"type": "external", "external": {"url": "u"}}"#)), "");
    assert_eq!(display(&parse(r#"{"emoji": "!"}"#)), "");
    assert_eq!(display(&parse(r#"{"type": 5, "": "x"}"#)), "");
    assert_eq!(display(&parse("5")), "");
    assert_eq!(display(&parse("[\"a\"]")), "");
    assert_eq!(display(&Json::Null), "");
}

#[test]
fn clone_keeps_the_value() {
    let j = parse(r#"{"a": [1, "two", {"three": null}], "b": false}"#);
    assert_eq!(j.clone(), j);
}

#[test]
fn typed_fields_are_required() {
    let j = parse(r#"{"b": true, "a": [1], "o": {"k": null}, "s": "text"}"#);
    assert_eq!(get_value_bool(&j, "b"), Ok(true));
    assert_eq!(get_value_bool(&j, "s"), Err(CommErr::WrongFieldType("s".to_string())));
    assert_eq!(get_value_bool(&j, "x"), Err(CommErr::MissingField("x".to_string())));
    assert_eq!(get_value_array(&j, "a"), Ok(&vec![Json::Number("1".to_string(), "1".to_string())]));
    assert_eq!(get_value_array(&j, "o"), Err(CommErr::WrongFieldType("o".to_string())));
    assert_eq!(get_value_array(&j, "x"), Err(CommErr::MissingField("x".to_string())));
    assert_eq!(get_value_object(&j, "o"), Ok(&vec![("k".to_string(), Json::Null)]));
    assert_eq!(get_value_object(&j, "a"), Err(CommErr::WrongFieldType("a".to_string())));
    assert_eq!(get_value_object(&j, "x"), Err(CommErr::MissingField("x".to_string())));
}
