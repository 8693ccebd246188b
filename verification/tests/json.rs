use aptly::json::Json;

fn text(s: &str) -> Json {
    Json::String(s.to_string())
}

fn number(s: &str) -> Json {
    Json::Number(s.to_string())
}

fn object(members: Vec<(&str, Json)>) -> Json {
    Json::Object(members.into_iter().map(|(k, v)| (k.to_string(), v)).collect())
}

#[test]
fn scalars_are_parsed() {
    assert_eq!(Json::parse("null"), Ok(Json::Null));
    assert_eq!(Json::parse("true"), Ok(Json::Bool(true)));
    assert_eq!(Json::parse(" false "), Ok(Json::Bool(false)));
    assert_eq!(Json::parse("42"), Ok(number("42")));
    assert_eq!(Json::parse("-7"), Ok(number("-7")));
    assert_eq!(Json::parse("18446744073709551615"), Ok(number("18446744073709551615")));
    assert_eq!(Json::parse("2.5"), Ok(number("2.5")));
    assert_eq!(Json::parse("\"hello\""), Ok(text("hello")));
    assert_eq!(Json::parse("\"a\\n\\u00e9\""), Ok(text("a\né")));
}

#[test]
fn parsed_value_is_not_the_text() {
    assert_ne!(Json::parse("\"42\""), Ok(number("42")));
    assert_ne!(Json::parse("42"), Ok(text("42")));
}

#[test]
fn arrays_and_objects_are_parsed() {
    assert_eq!(Json::parse("[]"), Ok(Json::Array(vec![])));
    assert_eq!(Json::parse("{}"), Ok(Json::Object(vec![])));
    assert_eq!(
        Json::parse("[1, [2, {\"x\": null}]]"),
        Ok(Json::Array(vec![
            number("1"),
            Json::Array(vec![number("2"), object(vec![("x", Json::Null)])]),
        ]))
    );
}

#[test]
fn a_repeated_member_counts_once_with_its_last_value() {
    assert_eq!(Json::parse("{\"a\": 1, \"a\": 2}"), Ok(object(vec![("a", number("2"))])));
}

#[test]
fn invalid_text_is_refused_with_a_message() {
    for bad in ["", "   ", "nul", "{", "[1,]", "\"open", "1 2", "{\"a\" 1}", "hello"] {
        let r = Json::parse(bad);
        assert!(r.is_err(), "{:?}", bad);
        assert!(!r.unwrap_err().is_empty());
    }
}

#[test]
fn member_of_an_object() {
    let module = || object(vec![("abi", object(vec![("x", number("1"))])), ("bytecode", text("0x00"))]);
    assert_eq!(module().into_member("abi"), object(vec![("x", number("1"))]));
    assert_eq!(module().into_member("bytecode"), text("0x00"));
    assert_eq!(module().into_member("missing"), Json::Null);
    assert_eq!(module().into_member(""), Json::Null);
    assert_eq!(module().into_member("ABI"), Json::Null);
}

#[test]
fn member_of_what_is_no_object_is_null() {
    assert_eq!(Json::Null.into_member("abi"), Json::Null);
    assert_eq!(text("abi").into_member("abi"), Json::Null);
    assert_eq!(Json::Array(vec![text("abi")]).into_member("abi"), Json::Null);
    assert_eq!(Json::Object(vec![]).into_member("abi"), Json::Null);
}

#[test]
fn the_last_member_of_a_name_counts() {
    let doc = object(vec![("a", number("1")), ("b", number("2")), ("a", number("3"))]);
    assert_eq!(doc.into_member("a"), number("3"));
}
