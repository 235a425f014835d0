use ryu_healing::gateway::{
    completion_body, completion_text, completions_url, default_diagnose_model, gateway_outcome,
    gateway_token, resolve_port, side_model_reply, success, GatewayAnswer, GatewayBody,
};
use ryu_healing::json::parse_json;

#[test]
fn a_port_is_read_or_defaulted() {
    assert_eq!(resolve_port(None), 8001);
    assert_eq!(resolve_port(Some(" 9000\n")), 9000);
    assert_eq!(resolve_port(Some("+80")), 80);
    assert_eq!(resolve_port(Some("0")), 0);
    assert_eq!(resolve_port(Some("65535")), 65535);
    assert_eq!(resolve_port(Some("65536")), 8001);
    assert_eq!(resolve_port(Some("-1")), 8001);
    assert_eq!(resolve_port(Some("")), 8001);
    assert_eq!(resolve_port(Some("http")), 8001);
}

#[test]
fn the_model_has_a_bundled_default() {
    assert_eq!(default_diagnose_model(None), "gemma-4-E2B-it-Q4_K_M");
    assert_eq!(default_diagnose_model(Some("")), "gemma-4-E2B-it-Q4_K_M");
    assert_eq!(default_diagnose_model(Some(" ")), " ");
    assert_eq!(default_diagnose_model(Some("m")), "m");
}

#[test]
fn completions_are_asked_for_below_the_gateway() {
    assert_eq!(
        completions_url(None),
        "http://127.0.0.1:7981/v1/chat/completions"
    );
    assert_eq!(
        completions_url(Some("")),
        "http://127.0.0.1:7981/v1/chat/completions"
    );
    assert_eq!(
        completions_url(Some("https://g/x///")),
        "https://g/x/v1/chat/completions"
    );
    assert_eq!(completions_url(Some("//")), "/v1/chat/completions");
}

#[test]
fn an_empty_gateway_token_is_none() {
    assert_eq!(gateway_token(None), None);
    assert_eq!(gateway_token(Some("")), None);
    assert_eq!(gateway_token(Some(" t")), Some(" t"));
}

#[test]
fn a_completion_request_has_its_wire_form() {
    assert_eq!(
        completion_body("m", "  ", "sys", "us\"er"),
        r#"{"messages":[{"content":"sys","role":"system"},{"content":"us\"er","role":"user"}],"model":"m","stream":false}"#
    );
    assert_eq!(
        completion_body("m", " high\n", "s", "u"),
        r#"{"messages":[{"content":"s","role":"system"},{"content":"u","role":"user"}],"model":"m","reasoning_effort":"high","stream":false}"#
    );
}

#[test]
fn the_first_choice_is_the_reply() {
    assert_eq!(
        side_model_reply(r#"{"choices":[{"message":{"content":"a"}},{"message":{"content":"b"}}]}"#),
        Some("a".to_string())
    );
    for body in [
        "{}",
        "[]",
        r#"{"choices":[]}"#,
        r#"{"choices":{"0":{"message":{"content":"a"}}}}"#,
        r#"{"choices":[{"message":{"content":null}}]}"#,
        r#"{"choices":[{"message":"a"}]}"#,
    ] {
        assert_eq!(side_model_reply(body), Some(String::new()), "{body}");
    }
    assert_eq!(side_model_reply("<html>"), None);
    let body = parse_json(r#"{"choices":[{"message":{"content":" x "}}]}"#).unwrap();
    assert_eq!(completion_text(&body), " x ");
}

#[test]
fn each_failure_of_the_gateway_has_its_text() {
    assert_eq!(
        gateway_outcome(GatewayAnswer::Unreachable {
            reason: "error sending request"
        }),
        Err("gateway unreachable: error sending request".to_string())
    );
    let reply = r#"{"choices":[{"message":{"content":"x"}}]}"#;
    let answered = |status: u16, line: &'static str, body: GatewayBody<'static>| {
        gateway_outcome(GatewayAnswer::Answered { status, line, body })
    };
    for body in [GatewayBody::Unread, GatewayBody::Read { text: reply }] {
        assert_eq!(
            answered(502, "502 Bad Gateway", body),
            Err("gateway returned HTTP 502 Bad Gateway".to_string())
        );
    }
    assert_eq!(
        answered(200, "200 OK", GatewayBody::Broken { reason: "cut" }),
        Err("response was not valid JSON: cut".to_string())
    );
    assert_eq!(
        answered(200, "200 OK", GatewayBody::Read { text: "<html>" }),
        Err("response was not valid JSON: error decoding response body".to_string())
    );
    assert_eq!(
        answered(201, "201 Created", GatewayBody::Read { text: reply }),
        Ok("x".to_string())
    );
    assert_eq!(
        answered(200, "200 OK", GatewayBody::Read { text: "{}" }),
        Ok(String::new())
    );
}

#[test]
fn two_hundreds_are_successes() {
    for status in 100..=999 {
        assert_eq!(success(status), (200..300).contains(&status));
    }
}
