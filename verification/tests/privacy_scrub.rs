use clann_server::json::{bool_field, get_field, int_field, scrub_pii, str_arr, str_field, Json};

fn obj(entries: Vec<(&str, Json)>) -> Json {
    Json::Object(entries.into_iter().map(|(k, v)| (k.to_string(), v)).collect())
}

fn s(x: &str) -> Json {
    Json::Str(x.to_string())
}

fn has_key(j: &Json, key: &str) -> bool {
    match j {
        Json::Object(es) => es.iter().any(|(k, v)| k == key || has_key(v, key)),
        Json::Array(items) => items.iter().any(|v| has_key(v, key)),
        _ => false,
    }
}

#[test]
fn scrub_removes_identifying_fields_at_every_depth() {
    let mut v = obj(vec![
        ("count", Json::Number("2".to_string())),
        ("owner", s("alice")),
        (
            "matches",
            Json::Array(vec![
                obj(vec![("proxy_id", s("person_proxy:1")), ("created_by", s("bob")), ("email", s("b@x"))]),
                obj(vec![("nested", obj(vec![("username", s("carol")), ("keep", Json::Bool(true))]))]),
            ]),
        ),
        ("from_user", s("dave")),
        ("to_user", s("erin")),
    ]);
    scrub_pii(&mut v);
    for key in ["owner", "created_by", "email", "username", "from_user", "to_user"] {
        assert!(!has_key(&v, key), "{key} survived");
    }
    assert_eq!(str_field(&v, "count"), None);
    assert!(matches!(get_field(&v, "count"), Some(Json::Number(n)) if n == "2"));
    match get_field(&v, "matches") {
        Some(Json::Array(items)) => {
            assert_eq!(items.len(), 2);
            assert_eq!(str_field(&items[0], "proxy_id"), Some("person_proxy:1"));
            match get_field(&items[1], "nested") {
                Some(inner) => assert!(bool_field(inner, "keep")),
                None => panic!("nested object lost"),
            }
        }
        _ => panic!("matches lost"),
    }
}

#[test]
fn scrub_leaves_scalars_alone() {
    let mut v = s("username");
    scrub_pii(&mut v);
    assert!(matches!(v, Json::Str(ref x) if x == "username"));
}

#[test]
fn row_field_helpers() {
    let row = obj(vec![
        ("id", s("n1")),
        ("is_shared", Json::Bool(true)),
        ("trees", Json::Array(vec![s("a"), Json::Null, s("b")])),
        ("id", s("shadowed")),
    ]);
    assert_eq!(str_field(&row, "id"), Some("n1"));
    assert_eq!(str_field(&row, "missing"), None);
    assert!(bool_field(&row, "is_shared"));
    assert!(!bool_field(&row, "id"));
    assert_eq!(str_arr(&row, "trees"), vec!["a".to_string(), "b".to_string()]);
    assert!(str_arr(&row, "id").is_empty());
}

#[test]
fn integer_fields_of_a_row() {
    let row = Json::Object(vec![
        ("count".to_string(), Json::Number("42".to_string())),
        ("neg".to_string(), Json::Number("-7".to_string())),
        ("min".to_string(), Json::Number("-9223372036854775808".to_string())),
        ("max".to_string(), Json::Number("9223372036854775807".to_string())),
        ("too_big".to_string(), Json::Number("9223372036854775808".to_string())),
        ("frac".to_string(), Json::Number("1.5".to_string())),
        ("text".to_string(), Json::Str("42".to_string())),
    ]);
    assert_eq!(int_field(&row, "count"), Some(42));
    assert_eq!(int_field(&row, "neg"), Some(-7));
    assert_eq!(int_field(&row, "min"), Some(i64::MIN));
    assert_eq!(int_field(&row, "max"), Some(i64::MAX));
    assert_eq!(int_field(&row, "too_big"), None);
    assert_eq!(int_field(&row, "frac"), None);
    assert_eq!(int_field(&row, "text"), None);
    assert_eq!(int_field(&row, "missing"), None);
    assert_eq!(int_field(&Json::Null, "count"), None);
}
