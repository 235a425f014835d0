use ryu_healing::api::verdict_body;
use ryu_healing::contracts;
use ryu_healing::contracts::WireError;
use ryu_healing::{
    truncate_context, HealVerdict, HEAL_PREFIX, MAX_CONTEXT_CHARS, SOURCE_KIND_AGENT,
    SOURCE_KIND_WORKFLOW,
};
use serde_json::Value;

#[test]
fn truncate_context_trims_and_passes_short() {
    assert_eq!(truncate_context("  hi there  "), "hi there");
    assert_eq!(truncate_context(""), "");
}

#[test]
fn truncate_context_bounds_long_input_on_char_boundary() {
    // Multi-byte input: a byte-based slice would panic or corrupt here.
    let long: String = "😀".repeat(MAX_CONTEXT_CHARS + 1);
    let out = truncate_context(&long);
    assert_eq!(out.chars().count(), MAX_CONTEXT_CHARS + 1);
    assert!(out.ends_with('…'));
    assert!(out.chars().take(MAX_CONTEXT_CHARS).all(|c| c == '😀'));
}

#[test]
fn truncate_context_keeps_exactly_max_untouched() {
    let exact: String = "a".repeat(MAX_CONTEXT_CHARS);
    let out = truncate_context(&exact);
    assert_eq!(out, exact);
    assert!(!out.ends_with('…'));
}

#[test]
fn truncation_bounds_at_four_thousand_and_is_done_after_one_more() {
    let long: String = "b".repeat(5000);
    let once = truncate_context(&long);
    assert_eq!(once.chars().count(), 4001);
    assert_eq!(truncate_context(&once), once);
    let padded = format!("\u{3000}{}\n", "c".repeat(4000));
    assert_eq!(truncate_context(&padded), "c".repeat(4000));
}

fn wire(v: &HealVerdict) -> Value {
    serde_json::from_str(&verdict_body(v)).unwrap()
}

#[test]
fn verdict_serializes_with_a_snake_case_action_tag() {
    let v = HealVerdict::QueueFix {
        source_id: "conv1".into(),
        agent_id: Some("a1".into()),
        diagnosis: "bad tool call".into(),
        corrected: "try again".into(),
    };
    let json = wire(&v);
    assert_eq!(json["action"], "queue_fix");
    assert_eq!(json["source_id"], "conv1");
}

#[test]
fn verdict_round_trips_every_known_variant() {
    let all = vec![
        HealVerdict::Skip {
            reason: "disabled".into(),
        },
        HealVerdict::RerunAgent {
            agent_id: None,
            prompt: "p".into(),
        },
        HealVerdict::RerunWorkflow {
            source_id: "wf1".into(),
        },
        HealVerdict::QueueFix {
            source_id: "c".into(),
            agent_id: Some("a".into()),
            diagnosis: "d".into(),
            corrected: "x".into(),
        },
        HealVerdict::QueueWorkflow {
            source_id: "wf2".into(),
            diagnosis: "d".into(),
        },
        HealVerdict::QueueExhausted {
            source_id: "c2".into(),
            note: "n".into(),
        },
    ];
    for v in all {
        let s = verdict_body(&v);
        assert_eq!(HealVerdict::from_text(&s).unwrap(), v);
    }
}

/// A verdict of a newer process is read as a no-op.
#[test]
fn unknown_action_deserializes_instead_of_erroring() {
    let future = r#"{"action":"rerun_gateway","source_id":"c1","extra":42}"#;
    assert_eq!(
        HealVerdict::from_text(future).unwrap(),
        HealVerdict::Unknown
    );
}

#[test]
fn a_verdict_with_no_action_tag_is_still_a_hard_error() {
    assert!(HealVerdict::from_text(r#"{"reason":"x"}"#).is_err());
}

#[test]
fn source_kinds_are_the_wire_spellings() {
    assert_eq!(SOURCE_KIND_AGENT, "agent");
    assert_eq!(SOURCE_KIND_WORKFLOW, "workflow");
}

#[test]
fn heal_prefix_is_the_never_heal_a_heal_marker() {
    let minted = format!("{HEAL_PREFIX}deadbeef");
    assert!(minted.starts_with(HEAL_PREFIX));
    assert!(!"conv_deadbeef".starts_with(HEAL_PREFIX));
}

#[test]
fn every_action_has_its_wire_form() {
    assert_eq!(
        verdict_body(&HealVerdict::Skip { reason: "r".into() }),
        r#"{"action":"skip","reason":"r"}"#
    );
    assert_eq!(
        verdict_body(&HealVerdict::RerunAgent {
            agent_id: None,
            prompt: "p\"q".into(),
        }),
        r#"{"action":"rerun_agent","agent_id":null,"prompt":"p\"q"}"#
    );
    assert_eq!(
        verdict_body(&HealVerdict::RerunWorkflow { source_id: "w".into() }),
        r#"{"action":"rerun_workflow","source_id":"w"}"#
    );
    assert_eq!(
        verdict_body(&HealVerdict::QueueWorkflow {
            source_id: "w".into(),
            diagnosis: "d".into(),
        }),
        r#"{"action":"queue_workflow","diagnosis":"d","source_id":"w"}"#
    );
    assert_eq!(
        verdict_body(&HealVerdict::QueueExhausted {
            source_id: "w".into(),
            note: "n".into(),
        }),
        r#"{"action":"queue_exhausted","note":"n","source_id":"w"}"#
    );
    assert_eq!(verdict_body(&HealVerdict::Unknown), r#"{"action":"unknown"}"#);
}

#[test]
fn each_wire_error_has_its_inputs() {
    assert_eq!(HealVerdict::from_text("{"), Err(WireError::NotJson));
    assert_eq!(HealVerdict::from_text("[]"), Err(WireError::NoAction));
    assert_eq!(
        HealVerdict::from_text(r#"{"action":7}"#),
        Err(WireError::NoAction)
    );
    assert_eq!(
        HealVerdict::from_text(r#"{"action":"skip"}"#),
        Err(WireError::BadField)
    );
    assert_eq!(
        HealVerdict::from_text(r#"{"action":"skip","reason":1}"#),
        Err(WireError::BadField)
    );
    assert_eq!(
        HealVerdict::from_text(r#"{"action":"rerun_agent","agent_id":3,"prompt":"p"}"#),
        Err(WireError::BadField)
    );
}

#[test]
fn an_absent_agent_reads_like_null() {
    assert_eq!(
        HealVerdict::from_text(r#"{"action":"rerun_agent","prompt":"p"}"#),
        Ok(HealVerdict::RerunAgent {
            agent_id: None,
            prompt: "p".into(),
        })
    );
}

#[test]
fn lib_truncate_context_trims_and_passes_short() {
    assert_eq!(contracts::truncate_context("  hi there  "), "hi there");
    assert_eq!(contracts::truncate_context(""), "");
}

#[test]
fn lib_truncate_context_bounds_long_input_on_char_boundary() {
    // Multi-byte input: a byte-based slice would panic or corrupt here.
    let long: String = "😀".repeat(MAX_CONTEXT_CHARS + 1);
    let out = contracts::truncate_context(&long);
    assert_eq!(out.chars().count(), MAX_CONTEXT_CHARS + 1);
    assert!(out.ends_with('…'));
    assert!(out.chars().take(MAX_CONTEXT_CHARS).all(|c| c == '😀'));
}

#[test]
fn lib_truncate_context_keeps_exactly_max_untouched() {
    let exact: String = "a".repeat(MAX_CONTEXT_CHARS);
    let out = contracts::truncate_context(&exact);
    assert_eq!(out, exact);
    assert!(!out.ends_with('…'));
}

#[test]
fn a_verdict_may_be_an_array_of_its_fields() {
    assert_eq!(
        HealVerdict::from_text(r#"["rerun_agent",null,"p"]"#),
        Ok(HealVerdict::RerunAgent {
            agent_id: None,
            prompt: "p".into(),
        })
    );
    assert_eq!(
        HealVerdict::from_text(r#"["queue_fix","s","a","d","c"]"#),
        Ok(HealVerdict::QueueFix {
            source_id: "s".into(),
            agent_id: Some("a".into()),
            diagnosis: "d".into(),
            corrected: "c".into(),
        })
    );
    assert_eq!(
        HealVerdict::from_text(r#"["skip"]"#),
        Err(WireError::BadField)
    );
    assert_eq!(
        HealVerdict::from_text(r#"["skip","r","more"]"#),
        Err(WireError::BadField)
    );
    assert_eq!(
        HealVerdict::from_text(r#"["future"]"#),
        Ok(HealVerdict::Unknown)
    );
    assert_eq!(
        HealVerdict::from_text(r#"["future",1]"#),
        Err(WireError::BadField)
    );
}

#[test]
fn a_repeated_field_of_a_verdict_counts_by_its_last_value() {
    assert_eq!(
        HealVerdict::from_text(r#"{"action":"skip","reason":"a","reason":"b"}"#),
        Ok(HealVerdict::Skip { reason: "b".into() })
    );
}

#[test]
fn a_member_of_a_verdict_that_is_no_field_has_to_be_readable() {
    assert_eq!(
        HealVerdict::from_text(r#"{"action":"skip","reason":"a","x":1e999}"#),
        Err(WireError::NotJson)
    );
}
