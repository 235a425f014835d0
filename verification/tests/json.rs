use ryu_healing::json::{parse_json, Json, JsonNumber};

#[test]
fn every_kind_of_value_is_read() {
    let v = parse_json(r#" {"n":null,"t":true,"i":-3,"u":18446744073709551615,"f":1.5,"s":"xé","a":[1,[]]} "#)
        .unwrap();
    assert_eq!(v.get("n"), Some(&Json::Null));
    assert_eq!(v.get("t").and_then(|b| b.as_bool()), Some(true));
    assert_eq!(v.get("i").and_then(|n| n.as_i64()), Some(-3));
    assert_eq!(v.get("i").and_then(|n| n.as_u64()), None);
    assert_eq!(v.get("u").and_then(|n| n.as_u64()), Some(u64::MAX));
    assert_eq!(v.get("u").and_then(|n| n.as_i64()), None);
    assert_eq!(
        v.get("f"),
        Some(&Json::Number(JsonNumber {
            unsigned: None,
            signed: None,
        }))
    );
    assert_eq!(v.text_at("s"), Some("xé"));
    let a = v.get("a").unwrap();
    assert_eq!(a.element(0).and_then(|n| n.as_u64()), Some(1));
    assert_eq!(a.element(1), Some(&Json::Array(vec![])));
    assert_eq!(a.element(2), None);
    assert_eq!(v.element(0), None);
    assert_eq!(a.get("n"), None);
    assert_eq!(v.get("absent"), None);
}

#[test]
fn what_is_not_json_is_not_read() {
    for text in ["", "{", "{}x", "nul", "01", "'a'", "[1,]", "\"\u{1}\""] {
        assert!(parse_json(text).is_none(), "{text}");
    }
}

#[test]
fn a_later_member_counts() {
    let v = parse_json(r#"{"a":1,"a":2}"#).unwrap();
    assert_eq!(v.get("a").and_then(|n| n.as_u64()), Some(2));
    let w = Json::Object(vec![
        ("a".to_string(), Json::from_unsigned(1)),
        ("a".to_string(), Json::from_text("x")),
    ]);
    assert_eq!(w.text_at("a"), Some("x"));
    assert_eq!(w.to_text().as_deref(), Some(r#"{"a":"x"}"#));
}

#[test]
fn a_tree_is_written_and_read_back() {
    let text = r#"{"a":[null,true,false,0,-1,18446744073709551615,"q\"\\\n"],"b":{}}"#;
    let v = parse_json(text).unwrap();
    assert_eq!(v.to_text().as_deref(), Some(text));
    let spread = text.replace(',', " ,\n");
    assert_eq!(parse_json(&spread), Some(v));
}

#[test]
fn a_fraction_is_not_written() {
    assert_eq!(parse_json("[1.5]").unwrap().to_text(), None);
    let odd = Json::Number(JsonNumber {
        unsigned: Some(1),
        signed: Some(2),
    });
    assert_eq!(odd.to_text(), None);
    assert_eq!(Json::from_signed(5).to_text().as_deref(), Some("5"));
    assert_eq!(Json::from_signed(5), Json::from_unsigned(5));
}

/// Arrays inside one another.
fn nested(levels: usize) -> Json {
    let mut json = Json::Null;
    for _ in 0..levels {
        json = Json::Array(vec![json]);
    }
    json
}

#[test]
fn nesting_is_written_as_deep_as_it_is_read() {
    let deepest = nested(127).to_text().unwrap();
    assert_eq!(parse_json(&deepest), Some(nested(127)));
    assert_eq!(nested(128).to_text(), None);
    assert!(parse_json(&format!("[{deepest}]")).is_none());
}

/// Names that `serde_json` gives a meaning of their own under some of its features.
#[test]
fn no_member_name_is_special() {
    for name in [
        "$serde_json::private::RawValue",
        "$serde_json::private::Number",
    ] {
        for value in ["\"1\"", "{}", "[null]", "7"] {
            let text = format!("{{\"{name}\":{value}}}");
            let v = parse_json(&text).unwrap();
            assert!(v.get(name).is_some());
            assert_eq!(v.to_text(), Some(text));
        }
    }
}
