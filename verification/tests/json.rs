use vox::json::{read_json, Json};

fn text(s: &str) -> Json {
    Json::Text(s.to_string())
}

#[test]
fn json_becomes_plain_data() {
    let j = read_json("{\"b\":[1,-2,1.5,true,null,\"é\\n\"],\"a\":{}}").unwrap();
    assert_eq!(
        j,
        Json::Object(vec![
            ("a".to_string(), Json::Object(vec![])),
            (
                "b".to_string(),
                Json::List(vec![
                    Json::Int(1),
                    Json::Int(-2),
                    Json::Float("1.5".to_string()),
                    Json::Bool(true),
                    Json::Null,
                    text("é\n"),
                ])
            ),
        ])
    );
    assert_eq!(read_json("18446744073709551615"), Some(Json::Int(u64::MAX as i128)));
    assert_eq!(read_json(""), None);
    assert_eq!(read_json("{\"a\":}"), None);
    assert_eq!(read_json("{} x"), None);
}

#[test]
fn the_last_of_repeated_keys_counts() {
    assert_eq!(read_json("{\"a\":1,\"a\":2}").unwrap().get("a"), Some(&Json::Int(2)));
    let j = Json::object().with("a", Json::Int(1)).with("a", Json::Int(2));
    assert_eq!(j.get("a"), Some(&Json::Int(2)));
}

#[test]
fn looking_into_a_value() {
    let j = Json::object().with_text("t", "x").with("n", Json::Int(-1)).with(
        "o",
        Json::object().with("i", Json::Int(7)),
    );
    assert_eq!(j.text("t"), Some("x".to_string()));
    assert_eq!(j.text("n"), None);
    assert_eq!(j.text("?"), None);
    assert_eq!(Json::Null.get("t"), None);
    assert_eq!(j.get2("o", "i"), Some(&Json::Int(7)));
    assert_eq!(j.get2("t", "i"), None);
    assert_eq!(j.get("n").unwrap().as_i64(), Some(-1));
    assert_eq!(j.get("n").unwrap().as_u64(), None);
    assert_eq!(Json::Int(u64::MAX as i128).as_i64(), None);
    assert_eq!(Json::Int(u64::MAX as i128).as_u64(), Some(u64::MAX));
    assert_eq!(Json::Float("1.0".to_string()).as_u64(), None);
    assert!(Json::List(vec![]).as_list().is_some());
    assert!(j.as_list().is_none());
    assert_eq!(j.copy(), j);
    assert_eq!(Json::List(vec![j.copy(), Json::Bool(false)]).copy(), Json::List(vec![j, Json::Bool(false)]));
}
