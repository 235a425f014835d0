use ryu_healing::diagnosis::{diagnose, diagnosis_prompt};
use ryu_healing::extract::{counted_spans, object_spans};
use ryu_healing::extract_json_object;
use ryu_healing::json::{parse_json, Json};

#[test]
fn extract_json_object_handles_fences_and_prose() {
    let v = extract_json_object(
        "sure:\n```json\n{\"diagnosis\":\"x\",\"corrected_prompt\":\"y\"}\n```",
    )
    .expect("json");
    assert_eq!(v.get("diagnosis").and_then(|d| d.as_str()), Some("x"));
}

#[test]
fn extract_json_object_ignores_braces_inside_strings() {
    let v = extract_json_object(r#"{"a":"}{"}"#).expect("json");
    assert_eq!(v.get("a").and_then(|a| a.as_str()), Some("}{"));
}

#[test]
fn extract_json_object_skips_invalid_then_takes_valid() {
    let v = extract_json_object("noise {not json} more {\"ok\":1} tail").expect("json");
    assert_eq!(v.get("ok").and_then(|n| n.as_i64()), Some(1));
}

#[test]
fn extract_json_object_handles_nested_objects() {
    let v = extract_json_object("prefix {\"a\":{\"b\":2}} suffix").expect("json");
    assert_eq!(
        v.get("a").and_then(|a| a.get("b")).and_then(|b| b.as_i64()),
        Some(2)
    );
}

#[test]
fn extract_json_object_none_when_absent_or_unbalanced() {
    assert!(extract_json_object("no object here").is_none());
    assert!(extract_json_object("{\"a\":1").is_none());
    assert!(extract_json_object("").is_none());
}

#[test]
fn extract_json_object_handles_escaped_quote_in_string() {
    let v = extract_json_object(r#"{"a":"he said \"hi\" }"}"#).expect("json");
    assert_eq!(
        v.get("a").and_then(|a| a.as_str()),
        Some(r#"he said "hi" }"#)
    );
}

#[test]
fn the_first_of_two_objects_is_taken() {
    let v = extract_json_object("{\"a\":1}{\"a\":2}").expect("json");
    assert_eq!(v.get("a").and_then(|n| n.as_u64()), Some(1));
}

/// The number under `a` in the object of a reply.
fn a_of(reply: &str) -> Option<u64> {
    extract_json_object(reply).and_then(|v| v.get("a").and_then(|n| n.as_u64()))
}

#[test]
fn a_stray_closing_brace_in_the_prose_does_not_matter() {
    assert_eq!(a_of("} {\"a\":1}"), Some(1));
    assert_eq!(a_of("}}} and {\"a\":1} }"), Some(1));
    assert_eq!(a_of("{not json} } {\"a\":1}"), Some(1));
    // One too many makes up for one that is never closed.
    assert_eq!(a_of("} {{\"a\":1}"), Some(1));
    assert_eq!(a_of("} {x {\"a\":1} y}"), Some(1));
    assert_eq!(a_of("{{\"a\":1}"), None);
}

#[test]
fn an_odd_quote_in_the_prose_does_not_matter() {
    assert_eq!(a_of("5\" {\"a\":1}"), Some(1));
    assert_eq!(a_of("say \"{\"a\":1}\" twice"), Some(1));
    assert_eq!(a_of("a \\\" b {\"a\":1}"), Some(1));
    assert_eq!(a_of("{not json} \" {\"a\":1}"), Some(1));
    assert_eq!(a_of("it's {\"a\":1}"), Some(1));
}

#[test]
fn a_wrapped_object_is_recovered_whole() {
    let object = r#"{"a":1,"b":{"c":[{"d":"}\\\"{"}]},"e":"ü"}"#;
    let whole = parse_json(object).unwrap();
    let text = whole.to_text().unwrap();
    for before in ["", "sure:\n```json\n", "} ] ", "see \\ ", "\"{\" and \"\\\"{}\" "] {
        for after in ["", "\n```", " {\"a\":2}", "}}\"{"] {
            let reply = format!("{before}{text}{after}");
            assert_eq!(
                extract_json_object(&reply).and_then(|v| v.to_text()),
                Some(text.clone()),
                "{reply}"
            );
        }
    }
}

#[test]
fn braces_between_quotes_in_the_prose_do_not_count() {
    assert_eq!(a_of("\"{\" {\"a\":1}"), Some(1));
    assert_eq!(a_of("\"{}\" {\"a\":1}"), Some(1));
    assert_eq!(a_of("called with \"{}\". {\"a\":1} \"{\""), Some(1));
    assert_eq!(a_of("\"\\\"{\" {\"a\":1}"), Some(1));
}

#[test]
fn a_spread_object_is_recovered_whole() {
    let object = "{\n  \"a\": 1,\n  \"b\": {\n    \"c\": \"}\"\n  }\n}";
    let found = extract_json_object(&format!("```json\n{object}\n``` {{")).unwrap();
    assert_eq!(Some(found), parse_json(object));
}

#[test]
fn what_is_extracted_is_an_object() {
    for reply in ["[{}]", "x {\"a\":[]} y", "{} {\"a\":1}"] {
        assert!(matches!(extract_json_object(reply), Some(Json::Object(_))));
    }
    assert!(extract_json_object("[1, 2]").is_none());
}

#[test]
fn spans_are_counted_in_characters() {
    assert_eq!(object_spans("ü{}é{a{b}}", true), vec![(1, 3), (4, 10)]);
    assert_eq!(object_spans("\"{}\"{}", true), vec![(4, 6)]);
    assert_eq!(object_spans("\"{}\"{}", false), vec![(1, 3), (4, 6)]);
    assert_eq!(counted_spans("} {{}"), vec![(3, 5)]);
    assert!(extract_json_object("äöü {\"ä\":\"ö\"} 😀")
        .and_then(|v| v.text_at("ä").map(|t| t == "ö"))
        .unwrap_or(false));
}

#[test]
fn an_invalid_outer_object_is_not_looked_into() {
    assert!(extract_json_object("{oops {\"a\":1}}").is_none());
}

#[test]
fn a_diagnosis_is_trimmed_and_defaulted() {
    assert_eq!(
        diagnose(r#"{"diagnosis":"  d ","corrected_prompt":"\tc\n"}"#),
        Some(("d".to_string(), "c".to_string()))
    );
    assert_eq!(
        diagnose(r#"{"diagnosis":"d"}"#),
        Some(("d".to_string(), "".to_string()))
    );
    assert_eq!(
        diagnose(r#"{"diagnosis":" ","corrected_prompt":"c"}"#),
        Some(("run failed".to_string(), "c".to_string()))
    );
    assert_eq!(
        diagnose(r#"{"diagnosis":5,"corrected_prompt":"c"}"#),
        Some(("run failed".to_string(), "c".to_string()))
    );
    assert_eq!(diagnose(r#"{"diagnosis":" ","corrected_prompt":""}"#), None);
    assert_eq!(diagnose("{}"), None);
    assert_eq!(diagnose("nothing"), None);
}

#[test]
fn the_prompt_delimits_its_two_halves() {
    assert_eq!(
        diagnosis_prompt("do\nit", "err"),
        "<instruction>\ndo\nit\n</instruction>\n<failure_output>\nerr\n</failure_output>"
    );
}
