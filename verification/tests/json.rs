use lspranto::json::Json;
use lspranto::lsp::uris::{has_fitting_uris, Shape};

fn sample() -> Json {
    Json::object()
        .with("b", Json::Array(vec![Json::Int(-1), Json::UInt(u64::MAX), Json::Bool(false)]))
        .with("a", Json::Text("é\"\n".to_string()))
        .with("n", Json::Null)
}

#[test]
fn text_stands_for_a_value_and_back() {
    let text = sample().encode();
    assert_eq!(
        String::from_utf8(text.clone()).unwrap(),
        "{\"a\":\"é\\\"\\n\",\"b\":[-1,18446744073709551615,false],\"n\":null}",
    );
    assert_eq!(Json::parse(&text).unwrap().encode(), text);
}

#[test]
fn values_agree_with_serde_json() {
    let value: serde_json::Value = serde_json::from_slice(&sample().encode()).unwrap();
    assert_eq!(sample().to_value(), value);
    assert_eq!(Json::from_value(value).encode(), sample().encode());
}

#[test]
fn fractions_are_carried_through() {
    let value = Json::parse(b"[1.5,1e300]").unwrap();
    assert_eq!(String::from_utf8(value.clone().encode()).unwrap(), "[1.5,1e+300]");
    assert_eq!(value, value.clone());
    match value {
        Json::Array(items) => {
            assert!(matches!(items[0], Json::Float(_)));
            assert_eq!(items[0].as_i64(), None);
        }
        other => panic!("{other:?}"),
    }
}

#[test]
fn pretty_text_is_indented() {
    let value = Json::object().with("a", Json::array_of_one(Json::Int(1)));
    assert_eq!(value.pretty(), "{\n  \"a\": [\n    1\n  ]\n}");
    assert_eq!(Json::Null.pretty(), "null");
}

#[test]
fn malformed_documents_are_refused() {
    assert_eq!(Json::parse(b""), Err("EOF while parsing a value at line 1 column 0".to_string()));
    assert!(Json::parse(b"{} x").is_err());
    assert!(Json::parse(b"\"\xff\"").is_err());
}

#[test]
fn documents_nest_to_a_limit() {
    let nested = |depth: usize| {
        let mut value = Json::Null;
        for _ in 0..depth {
            value = Json::array_of_one(value);
        }
        value
    };
    let deep = nested(127);
    assert_eq!(Json::parse(&deep.encode()), Ok(deep));
    assert!(Json::parse(&nested(128).encode()).is_err());
}

#[test]
fn later_entries_count() {
    let value = Json::object().with("k", Json::Int(1)).with("k", Json::Int(2));
    assert_eq!(value.get("k"), Some(&Json::Int(2)));
    assert_eq!(String::from_utf8(value.encode()).unwrap(), "{\"k\":2}");
    assert_eq!(Json::parse(b"{\"k\":1,\"k\":2}").unwrap().get("k"), Some(&Json::Int(2)));
}

#[test]
fn fields_texts_and_numbers_are_read() {
    let value = sample();
    assert_eq!(value.get("a").unwrap().as_str(), Some("é\"\n"));
    assert_eq!(value.get("missing"), None);
    assert_eq!(Json::Null.get("a"), None);
    assert_eq!(Json::Null.as_str(), None);
    assert_eq!(Json::Int(-3).as_i64(), Some(-3));
    assert_eq!(Json::UInt(3).as_i64(), Some(3));
    assert_eq!(Json::UInt(u64::MAX).as_i64(), None);
    assert_eq!(Json::Text("3".to_string()).as_i64(), None);
}

#[test]
fn only_objects_get_fields() {
    assert_eq!(Json::Null.with("a", Json::Null), Json::Null);
    assert_eq!(Json::nulls(2).encode(), b"[null,null]".to_vec());
    assert_eq!(Json::nulls(0).encode(), b"[]".to_vec());
}

#[test]
fn keys_are_measured_in_bytes() {
    let value = Json::object().with("abc", Json::Null).with("é", Json::Null).with("abc", Json::Null);
    assert!(value.has_keys_within(3));
    assert!(!value.has_keys_within(2));
    assert!(!Json::object().with("é", Json::Null).has_keys_within(1));
    assert!(Json::object().has_keys_within(0));
    assert!(Json::Text("abc".to_string()).has_keys_within(0));
}

#[test]
fn elements_are_found_by_their_place() {
    let value = Json::Array(vec![Json::Int(1), Json::Null]);
    assert_eq!(value.element(0), Some(&Json::Int(1)));
    assert_eq!(value.element(2), None);
    assert_eq!(sample().element(0), None);
}

#[test]
fn ordinary_uris_fit() {
    let place = Json::object().with("uri", Json::Text("file:///a".to_string()));
    let list = Json::array_of_one(place);
    for shape in [
        Shape::Uri, Shape::Keys, Shape::Location, Shape::Link, Shape::Operation, Shape::Diagnostic,
        Shape::Definition, Shape::References, Shape::Symbols, Shape::Diagnostics,
        Shape::Configuration, Shape::WorkspaceEdit,
    ] {
        assert!(has_fitting_uris(&list, shape), "{shape:?}");
        assert!(has_fitting_uris(&sample(), shape), "{shape:?}");
    }
}
