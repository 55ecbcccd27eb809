use affiliation_parser::json::Json;

fn s(text: &str) -> Json {
    Json::Str(text.to_string())
}

fn obj(fields: Vec<(&str, Json)>) -> Json {
    Json::Obj(fields.into_iter().map(|(k, v)| (k.to_string(), v)).collect())
}

fn arr(items: Vec<Json>) -> Json {
    Json::Arr(items)
}

fn as_str(v: Option<&Json>) -> Option<&str> {
    match v {
        Some(Json::Str(t)) => Some(t.as_str()),
        _ => None,
    }
}

#[test]
fn bare_field_lookup_reads_objects_only() {
    let doc = obj(vec![("a", s("x")), ("b", s("y"))]);
    assert_eq!(as_str(doc.at_path("a")), Some("x"));
    assert_eq!(as_str(doc.at_path("b")), Some("y"));
    assert!(doc.at_path("c").is_none());
    let list = arr(vec![s("x")]);
    assert!(list.at_path("0").is_none());
}

#[test]
fn pointer_walks_nested_objects_and_arrays() {
    let doc = obj(vec![
        ("a", obj(vec![("b", s("deep"))])),
        ("arr", arr(vec![s("zero"), s("one")])),
    ]);
    assert_eq!(as_str(doc.at_path("/a/b")), Some("deep"));
    assert_eq!(as_str(doc.at_path("/arr/0")), Some("zero"));
    assert_eq!(as_str(doc.at_path("/arr/1")), Some("one"));
    assert!(doc.at_path("/arr/2").is_none());
    assert!(doc.at_path("/a/c").is_none());
}

#[test]
fn pointer_rejects_malformed_array_indices() {
    let doc = obj(vec![("arr", arr(vec![s("zero"), s("one")]))]);
    assert!(doc.at_path("/arr/01").is_none());
    assert!(doc.at_path("/arr/+1").is_none());
    assert!(doc.at_path("/arr/-1").is_none());
    assert!(doc.at_path("/arr/x").is_none());
    assert!(doc.at_path("/arr/").is_none());
}

#[test]
fn pointer_unescapes_tokens() {
    let doc = obj(vec![("a/b", s("slash")), ("m~n", s("tilde"))]);
    assert_eq!(as_str(doc.at_path("/a~1b")), Some("slash"));
    assert_eq!(as_str(doc.at_path("/m~0n")), Some("tilde"));
    assert!(doc.at_path("/a/b").is_none());
}

#[test]
fn empty_and_root_paths() {
    let doc = obj(vec![("", s("empty-key")), ("x", s("v"))]);
    // A bare empty path looks up the field named "".
    assert_eq!(as_str(doc.at_path("")), Some("empty-key"));
    // A pointer "/" names the token "", so the same field.
    assert_eq!(as_str(doc.at_path("/")), Some("empty-key"));
}

#[test]
fn pointer_fails_on_scalars() {
    let doc = obj(vec![("a", s("leaf"))]);
    assert!(doc.at_path("/a/b").is_none());
    assert!(Json::Null.at_path("/a").is_none());
    assert!(Json::Bool(true).at_path("x").is_none());
}
