use docker_registry::json::{Json, JsonField};
use docker_registry::v2::{read_text_list, Catalog, Errors, TokenAuth};

fn parse(text: &str) -> Json {
    Json::parse(text.as_bytes()).unwrap()
}

fn field(name: &str, value: Json) -> JsonField {
    JsonField { name: name.to_string(), value }
}

#[test]
fn reads_every_kind_of_value() {
    assert_eq!(parse("null"), Json::Null);
    assert_eq!(parse("true"), Json::Bool(true));
    assert_eq!(parse("false"), Json::Bool(false));
    assert_eq!(parse("300"), Json::Number("300".to_string()));
    assert_eq!(parse("-5"), Json::Number("-5".to_string()));
    assert_eq!(parse("2.5"), Json::Number("2.5".to_string()));
    assert_eq!(parse("\"a\\\"b\""), Json::Str("a\"b".to_string()));
    assert_eq!(
        parse("[1, \"two\", null]"),
        Json::Array(vec![Json::Number("1".to_string()), Json::Str("two".to_string()), Json::Null])
    );
    assert_eq!(
        parse("{\"a\": {\"b\": []}}"),
        Json::Object(vec![field("a", Json::Object(vec![field("b", Json::Array(vec![]))]))])
    );
}

#[test]
fn refuses_what_is_no_document() {
    assert_eq!(Json::parse(b""), None);
    assert_eq!(Json::parse(b"{"), None);
    assert_eq!(Json::parse(b"{\"a\": 1,}"), None);
    assert_eq!(Json::parse(b"<html></html>"), None);
    assert_eq!(Json::parse(b"1 2"), None);
    assert_eq!(Json::parse(&[0xff, 0xfe]), None);
}

#[test]
fn looks_up_members_by_name() {
    let doc = parse("{\"token\": \"abc\", \"expires_in\": 300, \"none\": null}");
    assert_eq!(doc.get("token"), Some(&Json::Str("abc".to_string())));
    assert_eq!(doc.get("expires_in").unwrap().as_u64(), Some(300));
    assert_eq!(doc.get("missing"), None);
    assert_eq!(doc.get("Token"), None);
    assert_eq!(doc.get("none"), Some(&Json::Null));
    assert_eq!(doc.get_present("none"), None);
    assert_eq!(doc.get_present("token"), Some(&Json::Str("abc".to_string())));
    assert_eq!(parse("[1]").get("token"), None);
}

#[test]
fn the_first_of_two_members_with_one_name_is_found() {
    let doc = Json::Object(vec![field("a", Json::Bool(true)), field("a", Json::Bool(false))]);
    assert_eq!(doc.get("a"), Some(&Json::Bool(true)));
}

#[test]
fn tells_the_kinds_of_value_apart() {
    assert_eq!(parse("\"x\"").as_str(), Some("x"));
    assert_eq!(parse("1").as_str(), None);
    assert_eq!(parse("[true]").as_array(), Some(&vec![Json::Bool(true)]));
    assert_eq!(parse("{}").as_array(), None);
    assert_eq!(parse("18446744073709551615").as_u64(), Some(u64::MAX));
    assert_eq!(parse("18446744073709551616").as_u64(), None);
    assert_eq!(parse("-1").as_u64(), None);
    assert_eq!(parse("1.0").as_u64(), None);
    assert_eq!(parse("\"1\"").as_u64(), None);
}

#[test]
fn a_copy_is_equal_to_the_tree() {
    let doc = parse("{\"a\": [1, {\"b\": \"c\"}, null, true], \"d\": 2.5}");
    assert_eq!(doc.duplicate(), doc);
}

#[test]
fn reads_a_token_answer() {
    let doc = parse(
        "{\"token\": \"abc\", \"expires_in\": 300, \"issued_at\": \"2024-01-01T00:00:00Z\", \"refresh_token\": \"r\", \"more\": 1}",
    );
    assert_eq!(
        TokenAuth::from_json(&doc),
        Some(TokenAuth {
            token: "abc".to_string(),
            expires_in: Some(300),
            issued_at: Some("2024-01-01T00:00:00Z".to_string()),
            refresh_token: Some("r".to_string()),
        })
    );
}

#[test]
fn a_token_answer_needs_only_its_token() {
    assert_eq!(
        TokenAuth::from_json(&parse("{\"token\": \"abc\", \"expires_in\": null}")),
        Some(TokenAuth {
            token: "abc".to_string(),
            expires_in: None,
            issued_at: None,
            refresh_token: None,
        })
    );
}

#[test]
fn refuses_a_token_answer_of_the_wrong_shape() {
    assert_eq!(TokenAuth::from_json(&parse("{}")), None);
    assert_eq!(TokenAuth::from_json(&parse("{\"token\": null}")), None);
    assert_eq!(TokenAuth::from_json(&parse("{\"token\": 5}")), None);
    assert_eq!(TokenAuth::from_json(&parse("[\"abc\"]")), None);
    assert_eq!(TokenAuth::from_json(&parse("{\"token\": \"a\", \"expires_in\": \"300\"}")), None);
    assert_eq!(TokenAuth::from_json(&parse("{\"token\": \"a\", \"expires_in\": -1}")), None);
    assert_eq!(
        TokenAuth::from_json(&parse("{\"token\": \"a\", \"expires_in\": 4294967296}")),
        None
    );
    assert_eq!(TokenAuth::from_json(&parse("{\"token\": \"a\", \"issued_at\": 7}")), None);
    assert_eq!(TokenAuth::from_json(&parse("{\"token\": \"a\", \"refresh_token\": []}")), None);
}

#[test]
fn a_token_answer_takes_the_largest_lifetime_that_fits() {
    let t = TokenAuth::from_json(&parse("{\"token\": \"a\", \"expires_in\": 4294967295}"));
    assert_eq!(t.unwrap().expires_in, Some(u32::MAX));
}

#[test]
fn reads_lists_of_names() {
    assert_eq!(
        read_text_list(&parse("[\"a\", \"b/c\"]")),
        Some(vec!["a".to_string(), "b/c".to_string()])
    );
    assert_eq!(read_text_list(&parse("[]")), Some(vec![]));
    assert_eq!(read_text_list(&parse("[\"a\", 1]")), None);
    assert_eq!(read_text_list(&parse("{}")), None);
    assert_eq!(read_text_list(&parse("null")), None);
}

#[test]
fn reads_a_catalog() {
    let doc = parse("{\"repositories\": [\"library/busybox\", \"library/alpine\"]}");
    assert_eq!(
        Catalog::from_json(&doc),
        Some(Catalog {
            repositories: vec!["library/busybox".to_string(), "library/alpine".to_string()]
        })
    );
    assert_eq!(Catalog::from_json(&parse("{}")), None);
    assert_eq!(Catalog::from_json(&parse("{\"repositories\": null}")), None);
    assert_eq!(Catalog::from_json(&parse("{\"repositories\": [1]}")), None);
}

#[test]
fn reads_an_error_body_with_and_without_detail() {
    let with = Errors::decode(
        b"{\"errors\":[{\"code\":\"UNAUTHORIZED\",\"message\":\"authentication required\",\"detail\":[{\"Type\":\"repository\",\"Name\":\"fake/image\",\"Action\":\"pull\"}]},{\"code\":\"DENIED\",\"message\":\"no\",\"detail\":null}]}",
    )
    .unwrap();
    assert_eq!(with.errors().len(), 2);
    assert_eq!(with.errors()[0].code(), "UNAUTHORIZED");
    assert_eq!(with.errors()[0].message(), "authentication required");
    assert_eq!(
        with.errors()[0].detail(),
        Some(&parse("[{\"Type\":\"repository\",\"Name\":\"fake/image\",\"Action\":\"pull\"}]"))
    );
    assert_eq!(with.errors()[1].code(), "DENIED");
    assert_eq!(with.errors()[1].detail(), None);

    let without = Errors::decode(
        b"{\"errors\":[{\"code\":\"UNAUTHORIZED\",\"message\":\"authentication required\"}]}",
    )
    .unwrap();
    assert_eq!(without.errors().len(), 1);
    assert_eq!(without.errors()[0].code(), "UNAUTHORIZED");
    assert_eq!(without.errors()[0].message(), "authentication required");
    assert_eq!(without.errors()[0].detail(), None);
}

#[test]
fn refuses_an_error_body_of_the_wrong_shape() {
    assert_eq!(Errors::decode(b"not json"), None);
    assert_eq!(Errors::decode(b"{}"), None);
    assert_eq!(Errors::decode(b"{\"errors\": {}}"), None);
    assert_eq!(Errors::decode(b"{\"errors\": [{\"code\": \"X\"}]}"), None);
    assert_eq!(Errors::decode(b"{\"errors\": [{\"message\": \"m\"}]}"), None);
    assert_eq!(Errors::decode(b"{\"errors\": [{\"code\": 1, \"message\": \"m\"}]}"), None);
    assert_eq!(Errors::decode(b"{\"errors\": [\"X\"]}"), None);
    assert_eq!(Errors::decode(b"{\"errors\": []}").unwrap().errors().len(), 0);
}
