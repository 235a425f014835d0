//! What the two halves of the healing loop agree on: the verdict vocabulary with its
//! wire form, and the conventions that nothing on the wire carries.
//!
//! One half (the sidecar) decides; the other half (Core) acts on the decision, which
//! it receives as a [`HealVerdict`]. The re-run prefix, the length bound of a failure
//! context and the spelling of the source kinds are kept by both halves, so they
//! stand here once.

use vstd::prelude::*;
use vstd::string::StrSliceExecFns;
use vstd::string::StringExecFns;

use crate::config::holds;
use crate::json::{json_value, parse_json, put, Json, JsonView};
use crate::text::{same_text, trim};

verus! {

// ---------------------------------------------------------------------------
// Conventions
// ---------------------------------------------------------------------------

/// Run-id prefix of a heal re-run. A failure that carries it is never healed.
pub const HEAL_PREFIX: &'static str = "healrun_";

/// Upper bound, in characters, on each half of a failure context.
pub const MAX_CONTEXT_CHARS: usize = 4000;

/// `kind` of a chat, agent or scheduled-agent failure.
pub const SOURCE_KIND_AGENT: &'static str = "agent";

/// `kind` of a workflow-run failure.
pub const SOURCE_KIND_WORKFLOW: &'static str = "workflow";

/// A failure context cut to its bound: trimmed, and where it is still longer than
/// [`MAX_CONTEXT_CHARS`] characters, that many of them followed by an ellipsis.
pub open spec fn truncated_context(s: Seq<char>) -> Seq<char> {
    let t = crate::text::trimmed(s);
    if t.len() > MAX_CONTEXT_CHARS {
        t.take(MAX_CONTEXT_CHARS as int).push('\u{2026}')
    } else {
        t
    }
}

/// Bounds a failed run's instruction or failure output, never splitting a codepoint.
pub fn truncate_context(text: &str) -> (context: String)
    ensures
        context@ == truncated_context(text@),
{
    let t: &str = trim(text);
    if t.unicode_len() > MAX_CONTEXT_CHARS {
        proof {
            reveal_strlit("\u{2026}");
        }
        let context: String = t.substring_char(0, MAX_CONTEXT_CHARS).to_owned().concat("\u{2026}");
        assert(context@ == truncated_context(text@));
        context
    } else {
        t.to_owned()
    }
}

/// A bounded context is at most one character longer than the bound.
pub proof fn law_context_is_bounded(s: Seq<char>)
    ensures
        truncated_context(s).len() <= MAX_CONTEXT_CHARS + 1,
{
}

/// Bounding a context twice is bounding it once.
pub proof fn law_context_is_bounded_once(s: Seq<char>)
    ensures
        truncated_context(truncated_context(s)) == truncated_context(s),
{
    let t = crate::text::trimmed(s);
    let c = truncated_context(s);
    crate::text::lemma_trimmed_is_tight(s);
    crate::text::lemma_trimmed_is_fixed(s);
    if t.len() > MAX_CONTEXT_CHARS {
        assert(c.first() == t.first());
        assert(!crate::text::is_white_space(c.last()));
        crate::text::lemma_trimmed_of_tight(c);
        assert(c.take(MAX_CONTEXT_CHARS as int) == t.take(MAX_CONTEXT_CHARS as int));
    }
}

// ---------------------------------------------------------------------------
// The verdict
// ---------------------------------------------------------------------------

/// The action that a failed run resolves to.
///
/// The id of a re-run is minted when the verdict is dispatched; it is no part of it.
#[derive(Debug, Clone, PartialEq, Eq)]
pub enum HealVerdict {
    /// No action; the reason is for the log.
    Skip { reason: String },
    /// Re-run the agent with the corrected prompt.
    RerunAgent { agent_id: Option<String>, prompt: String },
    /// Re-run the failed workflow from scratch.
    RerunWorkflow { source_id: String },
    /// Queue a proposed agent fix into the approvals inbox.
    QueueFix { source_id: String, agent_id: Option<String>, diagnosis: String, corrected: String },
    /// Queue a proposed workflow fix into the approvals inbox.
    QueueWorkflow { source_id: String, diagnosis: String },
    /// Queue a terminal "attempts exhausted" review item, with no action of its own.
    QueueExhausted { source_id: String, note: String },
    /// An action that this build does not know, from a newer sidecar: nothing is done.
    Unknown,
}

/// The mathematical model of a verdict.
pub enum HealVerdictView {
    Skip { reason: Seq<char> },
    RerunAgent { agent_id: Option<Seq<char>>, prompt: Seq<char> },
    RerunWorkflow { source_id: Seq<char> },
    QueueFix {
        source_id: Seq<char>,
        agent_id: Option<Seq<char>>,
        diagnosis: Seq<char>,
        corrected: Seq<char>,
    },
    QueueWorkflow { source_id: Seq<char>, diagnosis: Seq<char> },
    QueueExhausted { source_id: Seq<char>, note: Seq<char> },
    Unknown,
}

/// The characters of an optional text.
pub open spec fn text_view(text: Option<String>) -> Option<Seq<char>> {
    match text {
        Some(t) => Some(t@),
        None => None,
    }
}

impl View for HealVerdict {
    type V = HealVerdictView;

    open spec fn view(&self) -> HealVerdictView {
        match *self {
            HealVerdict::Skip { reason } => HealVerdictView::Skip { reason: reason@ },
            HealVerdict::RerunAgent { agent_id, prompt } => HealVerdictView::RerunAgent {
                agent_id: text_view(agent_id),
                prompt: prompt@,
            },
            HealVerdict::RerunWorkflow { source_id } => HealVerdictView::RerunWorkflow {
                source_id: source_id@,
            },
            HealVerdict::QueueFix { source_id, agent_id, diagnosis, corrected } => {
                HealVerdictView::QueueFix {
                    source_id: source_id@,
                    agent_id: text_view(agent_id),
                    diagnosis: diagnosis@,
                    corrected: corrected@,
                }
            },
            HealVerdict::QueueWorkflow { source_id, diagnosis } => {
                HealVerdictView::QueueWorkflow { source_id: source_id@, diagnosis: diagnosis@ }
            },
            HealVerdict::QueueExhausted { source_id, note } => HealVerdictView::QueueExhausted {
                source_id: source_id@,
                note: note@,
            },
            HealVerdict::Unknown => HealVerdictView::Unknown,
        }
    }
}

// ---------------------------------------------------------------------------
// Wire form
// ---------------------------------------------------------------------------

/// The wire form of an optional string: the string, or `null`.
pub open spec fn optional_text_wire(text: Option<Seq<char>>) -> JsonView {
    match text {
        Some(t) => JsonView::Text(t),
        None => JsonView::Null,
    }
}

/// The wire form of a verdict, an object whose `action` names the variant in snake
/// case, beside the fields of the variant.
pub open spec fn verdict_wire(verdict: HealVerdictView) -> JsonView {
    JsonView::Object(
        match verdict {
            HealVerdictView::Skip { reason } => map![
                "action"@ => JsonView::Text("skip"@),
                "reason"@ => JsonView::Text(reason),
            ],
            HealVerdictView::RerunAgent { agent_id, prompt } => map![
                "action"@ => JsonView::Text("rerun_agent"@),
                "agent_id"@ => optional_text_wire(agent_id),
                "prompt"@ => JsonView::Text(prompt),
            ],
            HealVerdictView::RerunWorkflow { source_id } => map![
                "action"@ => JsonView::Text("rerun_workflow"@),
                "source_id"@ => JsonView::Text(source_id),
            ],
            HealVerdictView::QueueFix { source_id, agent_id, diagnosis, corrected } => map![
                "action"@ => JsonView::Text("queue_fix"@),
                "source_id"@ => JsonView::Text(source_id),
                "agent_id"@ => optional_text_wire(agent_id),
                "diagnosis"@ => JsonView::Text(diagnosis),
                "corrected"@ => JsonView::Text(corrected),
            ],
            HealVerdictView::QueueWorkflow { source_id, diagnosis } => map![
                "action"@ => JsonView::Text("queue_workflow"@),
                "source_id"@ => JsonView::Text(source_id),
                "diagnosis"@ => JsonView::Text(diagnosis),
            ],
            HealVerdictView::QueueExhausted { source_id, note } => map![
                "action"@ => JsonView::Text("queue_exhausted"@),
                "source_id"@ => JsonView::Text(source_id),
                "note"@ => JsonView::Text(note),
            ],
            HealVerdictView::Unknown => map!["action"@ => JsonView::Text("unknown"@)],
        },
    )
}

/// Why a text is no verdict.
#[derive(Debug, Clone, Copy, PartialEq, Eq, Structural)]
pub enum WireError {
    /// The text is not JSON.
    NotJson,
    /// There is no `action` that is a string.
    NoAction,
    /// A field that the action calls for is missing or is of another type.
    BadField,
}

/// A field of a verdict, the member `key` of an object, or what stands at `place` in an
/// array.
pub open spec fn field_at(json: JsonView, key: Seq<char>, place: int) -> Option<JsonView> {
    match json {
        JsonView::Array(_) => json.element(place),
        _ => json.member(key),
    }
}

/// A field that is a string.
pub open spec fn text_field(json: JsonView, key: Seq<char>, place: int) -> Option<Seq<char>> {
    match field_at(json, key, place) {
        Some(value) => value.text(),
        None => None,
    }
}

/// The action that a value names.
pub open spec fn action_in(json: JsonView) -> Option<Seq<char>> {
    text_field(json, "action"@, 0)
}

/// Whether a value has room for the action and just `n` fields. Only an array has not: an
/// object may have any members.
pub open spec fn has_room(json: JsonView, n: nat) -> bool {
    json matches JsonView::Array(elements) ==> elements.len() == n + 1
}

/// How many fields a verdict with this action has.
pub open spec fn field_count(action: Seq<char>) -> nat {
    if action == "queue_fix"@ {
        4
    } else if action == "rerun_agent"@ || action == "queue_workflow"@ || action
        == "queue_exhausted"@ {
        2
    } else if action == "skip"@ || action == "rerun_workflow"@ {
        1
    } else {
        0
    }
}

/// An optional string: absent and `null` both mean none.
pub open spec fn optional_text_field(json: JsonView, key: Seq<char>, place: int) -> Result<
    Option<Seq<char>>,
    WireError,
> {
    match field_at(json, key, place) {
        None => Ok(None),
        Some(JsonView::Null) => Ok(None),
        Some(JsonView::Text(t)) => Ok(Some(t)),
        Some(_) => Err(WireError::BadField),
    }
}

/// The verdict that a JSON value is the wire form of: an object with the fields by name,
/// or an array with the action and then the fields in their order. Members of an object
/// that the action does not call for do not matter; an action that is not known is the
/// verdict `Unknown`.
pub open spec fn verdict_of_wire(json: JsonView) -> Result<HealVerdictView, WireError> {
    match action_in(json) {
        None => Err(WireError::NoAction),
        Some(action) => {
            if !has_room(json, field_count(action)) {
                Err(WireError::BadField)
            } else if action == "skip"@ {
                match text_field(json, "reason"@, 1) {
                    Some(reason) => Ok(HealVerdictView::Skip { reason }),
                    None => Err(WireError::BadField),
                }
            } else if action == "rerun_agent"@ {
                match (optional_text_field(json, "agent_id"@, 1), text_field(json, "prompt"@, 2)) {
                    (Ok(agent_id), Some(prompt)) => Ok(
                        HealVerdictView::RerunAgent { agent_id, prompt },
                    ),
                    _ => Err(WireError::BadField),
                }
            } else if action == "rerun_workflow"@ {
                match text_field(json, "source_id"@, 1) {
                    Some(source_id) => Ok(HealVerdictView::RerunWorkflow { source_id }),
                    None => Err(WireError::BadField),
                }
            } else if action == "queue_fix"@ {
                match (
                    text_field(json, "source_id"@, 1),
                    optional_text_field(json, "agent_id"@, 2),
                    text_field(json, "diagnosis"@, 3),
                    text_field(json, "corrected"@, 4),
                ) {
                    (Some(source_id), Ok(agent_id), Some(diagnosis), Some(corrected)) => Ok(
                        HealVerdictView::QueueFix { source_id, agent_id, diagnosis, corrected },
                    ),
                    _ => Err(WireError::BadField),
                }
            } else if action == "queue_workflow"@ {
                match (text_field(json, "source_id"@, 1), text_field(json, "diagnosis"@, 2)) {
                    (Some(source_id), Some(diagnosis)) => Ok(
                        HealVerdictView::QueueWorkflow { source_id, diagnosis },
                    ),
                    _ => Err(WireError::BadField),
                }
            } else if action == "queue_exhausted"@ {
                match (text_field(json, "source_id"@, 1), text_field(json, "note"@, 2)) {
                    (Some(source_id), Some(note)) => Ok(
                        HealVerdictView::QueueExhausted { source_id, note },
                    ),
                    _ => Err(WireError::BadField),
                }
            } else {
                Ok(HealVerdictView::Unknown)
            }
        },
    }
}

/// The verdict that a text is the wire form of.
pub open spec fn verdict_of_text(text: Seq<char>) -> Result<HealVerdictView, WireError> {
    match json_value(text) {
        Some(json) => verdict_of_wire(json),
        None => Err(WireError::NotJson),
    }
}

/// A verdict as far as a result holds one.
pub open spec fn verdict_view(verdict: Result<HealVerdict, WireError>) -> Result<
    HealVerdictView,
    WireError,
> {
    match verdict {
        Ok(v) => Ok(v@),
        Err(e) => Err(e),
    }
}

fn put_text(members: &mut Vec<(String, Json)>, key: &str, text: &str)
    ensures
        crate::json::members_tree(final(members)@) == crate::json::members_tree(
            old(members)@,
        ).insert(key@, JsonView::Text(text@)),
{
    put(members, key, Json::from_text(text));
}

fn put_optional_text(members: &mut Vec<(String, Json)>, key: &str, text: &Option<String>)
    ensures
        crate::json::members_tree(final(members)@) == crate::json::members_tree(
            old(members)@,
        ).insert(key@, optional_text_wire(text_view(*text))),
{
    let value: Json = match text {
        Some(t) => Json::from_text(t.as_str()),
        None => Json::Null,
    };
    put(members, key, value);
}

fn read_field<'a>(json: &'a Json, key: &str, place: usize) -> (field: Option<&'a Json>)
    ensures
        match field {
            Some(value) => field_at(json@, key@, place as int) == Some(value@),
            None => field_at(json@, key@, place as int) is None,
        },
{
    match json {
        Json::Array(_) => json.element(place),
        _ => json.get(key),
    }
}

fn read_text_field<'a>(json: &'a Json, key: &str, place: usize) -> (text: Option<&'a str>)
    ensures
        crate::config::str_view(text) == text_field(json@, key@, place as int),
{
    match read_field(json, key, place) {
        Some(value) => value.as_str(),
        None => None,
    }
}

fn count_fields(action: &str) -> (n: usize)
    ensures
        n == field_count(action@),
        n <= 4,
{
    if same_text(action, "queue_fix") {
        4
    } else if same_text(action, "rerun_agent") || same_text(action, "queue_workflow") || same_text(
        action,
        "queue_exhausted",
    ) {
        2
    } else if same_text(action, "skip") || same_text(action, "rerun_workflow") {
        1
    } else {
        0
    }
}

fn fields_fit(json: &Json, n: usize) -> (answer: bool)
    requires
        n < usize::MAX,
    ensures
        answer == has_room(json@, n as nat),
{
    match json {
        Json::Array(elements) => {
            proof {
                crate::json::lemma_elements_tree(elements@);
            }
            elements.len() == n + 1
        },
        _ => true,
    }
}

fn read_optional_text(json: &Json, key: &str, place: usize) -> (text: Result<
    Option<String>,
    WireError,
>)
    ensures
        match text {
            Ok(t) => optional_text_field(json@, key@, place as int) == Ok::<
                Option<Seq<char>>,
                WireError,
            >(text_view(t)),
            Err(e) => optional_text_field(json@, key@, place as int) == Err::<
                Option<Seq<char>>,
                WireError,
            >(e),
        },
{
    match read_field(json, key, place) {
        None => Ok(None),
        Some(Json::Null) => Ok(None),
        Some(Json::Text(t)) => Ok(Some(t.as_str().to_owned())),
        Some(_) => Err(WireError::BadField),
    }
}

impl HealVerdict {
    /// The wire form of this verdict.
    pub fn to_json(&self) -> (json: Json)
        ensures
            json@ == verdict_wire(self@),
    {
        let mut members: Vec<(String, Json)> = Vec::new();
        match self {
            HealVerdict::Skip { reason } => {
                put_text(&mut members, "action", "skip");
                put_text(&mut members, "reason", reason.as_str());
            },
            HealVerdict::RerunAgent { agent_id, prompt } => {
                put_text(&mut members, "action", "rerun_agent");
                put_optional_text(&mut members, "agent_id", agent_id);
                put_text(&mut members, "prompt", prompt.as_str());
            },
            HealVerdict::RerunWorkflow { source_id } => {
                put_text(&mut members, "action", "rerun_workflow");
                put_text(&mut members, "source_id", source_id.as_str());
            },
            HealVerdict::QueueFix { source_id, agent_id, diagnosis, corrected } => {
                put_text(&mut members, "action", "queue_fix");
                put_text(&mut members, "source_id", source_id.as_str());
                put_optional_text(&mut members, "agent_id", agent_id);
                put_text(&mut members, "diagnosis", diagnosis.as_str());
                put_text(&mut members, "corrected", corrected.as_str());
            },
            HealVerdict::QueueWorkflow { source_id, diagnosis } => {
                put_text(&mut members, "action", "queue_workflow");
                put_text(&mut members, "source_id", source_id.as_str());
                put_text(&mut members, "diagnosis", diagnosis.as_str());
            },
            HealVerdict::QueueExhausted { source_id, note } => {
                put_text(&mut members, "action", "queue_exhausted");
                put_text(&mut members, "source_id", source_id.as_str());
                put_text(&mut members, "note", note.as_str());
            },
            HealVerdict::Unknown => {
                put_text(&mut members, "action", "unknown");
            },
        }
        Json::Object(members)
    }

    /// The verdict that `json` is the wire form of.
    pub fn from_json(json: &Json) -> (verdict: Result<HealVerdict, WireError>)
        ensures
            verdict_view(verdict) == verdict_of_wire(json@),
    {
        let action: &str = match read_text_field(json, "action", 0) {
            Some(action) => action,
            None => {
                return Err(WireError::NoAction);
            },
        };
        if !fields_fit(json, count_fields(action)) {
            Err(WireError::BadField)
        } else if same_text(action, "skip") {
            match read_text_field(json, "reason", 1) {
                Some(reason) => Ok(HealVerdict::Skip { reason: reason.to_owned() }),
                None => Err(WireError::BadField),
            }
        } else if same_text(action, "rerun_agent") {
            match (read_optional_text(json, "agent_id", 1), read_text_field(json, "prompt", 2)) {
                (Ok(agent_id), Some(prompt)) => Ok(
                    HealVerdict::RerunAgent { agent_id, prompt: prompt.to_owned() },
                ),
                _ => Err(WireError::BadField),
            }
        } else if same_text(action, "rerun_workflow") {
            match read_text_field(json, "source_id", 1) {
                Some(source_id) => Ok(
                    HealVerdict::RerunWorkflow { source_id: source_id.to_owned() },
                ),
                None => Err(WireError::BadField),
            }
        } else if same_text(action, "queue_fix") {
            match (
                read_text_field(json, "source_id", 1),
                read_optional_text(json, "agent_id", 2),
                read_text_field(json, "diagnosis", 3),
                read_text_field(json, "corrected", 4),
            ) {
                (Some(source_id), Ok(agent_id), Some(diagnosis), Some(corrected)) => Ok(
                    HealVerdict::QueueFix {
                        source_id: source_id.to_owned(),
                        agent_id,
                        diagnosis: diagnosis.to_owned(),
                        corrected: corrected.to_owned(),
                    },
                ),
                _ => Err(WireError::BadField),
            }
        } else if same_text(action, "queue_workflow") {
            match (read_text_field(json, "source_id", 1), read_text_field(json, "diagnosis", 2)) {
                (Some(source_id), Some(diagnosis)) => Ok(
                    HealVerdict::QueueWorkflow {
                        source_id: source_id.to_owned(),
                        diagnosis: diagnosis.to_owned(),
                    },
                ),
                _ => Err(WireError::BadField),
            }
        } else if same_text(action, "queue_exhausted") {
            match (read_text_field(json, "source_id", 1), read_text_field(json, "note", 2)) {
                (Some(source_id), Some(note)) => Ok(
                    HealVerdict::QueueExhausted {
                        source_id: source_id.to_owned(),
                        note: note.to_owned(),
                    },
                ),
                _ => Err(WireError::BadField),
            }
        } else {
            Ok(HealVerdict::Unknown)
        }
    }

    /// The verdict that `text` is the wire form of.
    ///
    /// The text is decoded by way of a tree, in which the later of two members of one name
    /// counts. A decoder made for this type alone would refuse a field, or the action, that
    /// occurs twice. What `to_json` gives holds none twice.
    pub fn from_text(text: &str) -> (verdict: Result<HealVerdict, WireError>)
        ensures
            verdict_view(verdict) == verdict_of_text(text@),
    {
        match parse_json(text) {
            Some(json) => HealVerdict::from_json(&json),
            None => Err(WireError::NotJson),
        }
    }
}

/// The words of the wire form are told apart by their spelling.
proof fn lemma_wire_words()
    ensures
        "skip"@ != "rerun_agent"@,
        "skip"@ != "rerun_workflow"@,
        "skip"@ != "queue_fix"@,
        "skip"@ != "queue_workflow"@,
        "skip"@ != "queue_exhausted"@,
        "skip"@ != "unknown"@,
        "rerun_agent"@ != "rerun_workflow"@,
        "rerun_agent"@ != "queue_fix"@,
        "rerun_agent"@ != "queue_workflow"@,
        "rerun_agent"@ != "queue_exhausted"@,
        "rerun_agent"@ != "unknown"@,
        "rerun_workflow"@ != "queue_fix"@,
        "rerun_workflow"@ != "queue_workflow"@,
        "rerun_workflow"@ != "queue_exhausted"@,
        "rerun_workflow"@ != "unknown"@,
        "queue_fix"@ != "queue_workflow"@,
        "queue_fix"@ != "queue_exhausted"@,
        "queue_fix"@ != "unknown"@,
        "queue_workflow"@ != "queue_exhausted"@,
        "queue_workflow"@ != "unknown"@,
        "queue_exhausted"@ != "unknown"@,
        "action"@ != "reason"@,
        "action"@ != "agent_id"@,
        "action"@ != "prompt"@,
        "action"@ != "source_id"@,
        "action"@ != "diagnosis"@,
        "action"@ != "corrected"@,
        "action"@ != "note"@,
        "agent_id"@ != "prompt"@,
        "agent_id"@ != "source_id"@,
        "agent_id"@ != "diagnosis"@,
        "agent_id"@ != "corrected"@,
        "source_id"@ != "diagnosis"@,
        "source_id"@ != "corrected"@,
        "source_id"@ != "note"@,
        "diagnosis"@ != "corrected"@,
{
    reveal_strlit("skip");
    reveal_strlit("rerun_agent");
    reveal_strlit("rerun_workflow");
    reveal_strlit("queue_fix");
    reveal_strlit("queue_workflow");
    reveal_strlit("queue_exhausted");
    reveal_strlit("unknown");
    reveal_strlit("action");
    reveal_strlit("reason");
    reveal_strlit("agent_id");
    reveal_strlit("prompt");
    reveal_strlit("source_id");
    reveal_strlit("diagnosis");
    reveal_strlit("corrected");
    reveal_strlit("note");
    assert("skip"@.len() == 4);
    assert("rerun_agent"@.len() == 11);
    assert("rerun_workflow"@.len() == 14);
    assert("queue_fix"@.len() == 9);
    assert("queue_workflow"@.len() == 14);
    assert("queue_exhausted"@.len() == 15);
    assert("unknown"@.len() == 7);
    assert("action"@.len() == 6);
    assert("reason"@.len() == 6);
    assert("agent_id"@.len() == 8);
    assert("prompt"@.len() == 6);
    assert("source_id"@.len() == 9);
    assert("diagnosis"@.len() == 9);
    assert("corrected"@.len() == 9);
    assert("note"@.len() == 4);
    assert("rerun_workflow"@[0] != "queue_workflow"@[0]);
    assert("action"@[0] != "reason"@[0]);
    assert("action"@[0] != "prompt"@[0]);
    assert("source_id"@[0] != "diagnosis"@[0]);
    assert("source_id"@[0] != "corrected"@[0]);
    assert("diagnosis"@[0] != "corrected"@[0]);
}

/// Reading the wire form of a verdict gives that verdict back.
pub proof fn law_verdict_reads_back(verdict: HealVerdictView)
    ensures
        verdict_of_wire(verdict_wire(verdict)) == Ok::<HealVerdictView, WireError>(verdict),
{
    lemma_wire_words();
}

/// An action that is not known is read as `Unknown`, whatever else the object holds.
pub proof fn law_unknown_action_is_no_error(json: JsonView, action: Seq<char>)
    requires
        json.text_at("action"@) == Some(action),
        action != "skip"@,
        action != "rerun_agent"@,
        action != "rerun_workflow"@,
        action != "queue_fix"@,
        action != "queue_workflow"@,
        action != "queue_exhausted"@,
    ensures
        verdict_of_wire(json) == Ok::<HealVerdictView, WireError>(HealVerdictView::Unknown),
{
}

/// A value without an action that is a string is no verdict.
pub proof fn law_missing_action_is_an_error(json: JsonView)
    requires
        action_in(json) is None,
    ensures
        verdict_of_wire(json) == Err::<HealVerdictView, WireError>(WireError::NoAction),
{
}

/// A context is cut without white space at its edges. Up to four thousand characters are
/// kept as they are; of more, the first four thousand are kept and an ellipsis marks the
/// cut.
pub proof fn law_context_is_cut_behind_its_first_characters(s: Seq<char>)
    ensures
        ({
            let t = crate::text::trimmed(s);
            let c = truncated_context(s);
            &&& t.len() <= 4000 ==> c == t
            &&& t.len() > 4000 ==> c.len() == 4001 && c[4000] == '\u{2026}'
            &&& forall|k: int| 0 <= k < 4000 && k < t.len() ==> #[trigger] c[k] == t[k]
        }),
{
}

/// A verdict is sent field by field: its action by its name, and each of its fields under
/// the name of that field.
pub proof fn law_verdict_is_sent_field_by_field(verdict: HealVerdictView)
    ensures
        ({
            let json = verdict_wire(verdict);
            match verdict {
                HealVerdictView::Skip { reason } => holds(json, "action"@, JsonView::Text("skip"@))
                    && holds(json, "reason"@, JsonView::Text(reason)),
                HealVerdictView::RerunAgent { agent_id, prompt } => holds(
                    json,
                    "action"@,
                    JsonView::Text("rerun_agent"@),
                ) && holds(json, "prompt"@, JsonView::Text(prompt)) && (agent_id matches Some(id)
                    ==> holds(json, "agent_id"@, JsonView::Text(id))) && (agent_id is None
                    ==> holds(json, "agent_id"@, JsonView::Null)),
                HealVerdictView::RerunWorkflow { source_id } => holds(
                    json,
                    "action"@,
                    JsonView::Text("rerun_workflow"@),
                ) && holds(json, "source_id"@, JsonView::Text(source_id)),
                HealVerdictView::QueueFix { source_id, agent_id, diagnosis, corrected } => holds(
                    json,
                    "action"@,
                    JsonView::Text("queue_fix"@),
                ) && holds(json, "source_id"@, JsonView::Text(source_id)) && holds(
                    json,
                    "diagnosis"@,
                    JsonView::Text(diagnosis),
                ) && holds(json, "corrected"@, JsonView::Text(corrected)) && (
                agent_id matches Some(id) ==> holds(json, "agent_id"@, JsonView::Text(id))) && (
                agent_id is None ==> holds(json, "agent_id"@, JsonView::Null)),
                HealVerdictView::QueueWorkflow { source_id, diagnosis } => holds(
                    json,
                    "action"@,
                    JsonView::Text("queue_workflow"@),
                ) && holds(json, "source_id"@, JsonView::Text(source_id)) && holds(
                    json,
                    "diagnosis"@,
                    JsonView::Text(diagnosis),
                ),
                HealVerdictView::QueueExhausted { source_id, note } => holds(
                    json,
                    "action"@,
                    JsonView::Text("queue_exhausted"@),
                ) && holds(json, "source_id"@, JsonView::Text(source_id)) && holds(
                    json,
                    "note"@,
                    JsonView::Text(note),
                ),
                HealVerdictView::Unknown => holds(json, "action"@, JsonView::Text("unknown"@)),
            }
        }),
{
    lemma_wire_words();
}

/// Whether a value holds an optional text under a name: the text, or `null` or nothing.
pub open spec fn holds_optional(
    members: Map<Seq<char>, JsonView>,
    name: Seq<char>,
    text: Option<Seq<char>>,
) -> bool {
    match text {
        Some(t) => members.contains_key(name) && members[name] == JsonView::Text(t),
        None => members.contains_key(name) ==> members[name] == JsonView::Null,
    }
}

/// A verdict is read field by field, each from the member of its own name, whatever other
/// members there are.
pub proof fn law_verdict_is_read_field_by_field(
    members: Map<Seq<char>, JsonView>,
    verdict: HealVerdictView,
)
    requires
        verdict matches HealVerdictView::Skip { reason } ==> holds(
            JsonView::Object(members),
            "action"@,
            JsonView::Text("skip"@),
        ) && holds(JsonView::Object(members), "reason"@, JsonView::Text(reason)),
        verdict matches HealVerdictView::RerunAgent { agent_id, prompt } ==> holds(
            JsonView::Object(members),
            "action"@,
            JsonView::Text("rerun_agent"@),
        ) && holds(JsonView::Object(members), "prompt"@, JsonView::Text(prompt)) && holds_optional(
            members,
            "agent_id"@,
            agent_id,
        ),
        verdict matches HealVerdictView::RerunWorkflow { source_id } ==> holds(
            JsonView::Object(members),
            "action"@,
            JsonView::Text("rerun_workflow"@),
        ) && holds(JsonView::Object(members), "source_id"@, JsonView::Text(source_id)),
        verdict matches HealVerdictView::QueueFix { source_id, agent_id, diagnosis, corrected }
            ==> holds(JsonView::Object(members), "action"@, JsonView::Text("queue_fix"@)) && holds(
            JsonView::Object(members),
            "source_id"@,
            JsonView::Text(source_id),
        ) && holds(JsonView::Object(members), "diagnosis"@, JsonView::Text(diagnosis)) && holds(
            JsonView::Object(members),
            "corrected"@,
            JsonView::Text(corrected),
        ) && holds_optional(members, "agent_id"@, agent_id),
        verdict matches HealVerdictView::QueueWorkflow { source_id, diagnosis } ==> holds(
            JsonView::Object(members),
            "action"@,
            JsonView::Text("queue_workflow"@),
        ) && holds(JsonView::Object(members), "source_id"@, JsonView::Text(source_id)) && holds(
            JsonView::Object(members),
            "diagnosis"@,
            JsonView::Text(diagnosis),
        ),
        verdict matches HealVerdictView::QueueExhausted { source_id, note } ==> holds(
            JsonView::Object(members),
            "action"@,
            JsonView::Text("queue_exhausted"@),
        ) && holds(JsonView::Object(members), "source_id"@, JsonView::Text(source_id)) && holds(
            JsonView::Object(members),
            "note"@,
            JsonView::Text(note),
        ),
        verdict is Unknown ==> holds(
            JsonView::Object(members),
            "action"@,
            JsonView::Text("unknown"@),
        ),
    ensures
        verdict_of_wire(JsonView::Object(members)) == Ok::<HealVerdictView, WireError>(verdict),
{
    lemma_wire_words();
    let json = JsonView::Object(members);
    assert(json->Object_0 == members);
}

/// A value with a known action and without a field that it calls for is an error, whatever
/// else it holds.
pub proof fn law_missing_field_is_an_error(members: Map<Seq<char>, JsonView>, action: Seq<char>)
    requires
        holds(JsonView::Object(members), "action"@, JsonView::Text(action)),
    ensures
        ({
            let read = verdict_of_wire(JsonView::Object(members));
            let lacks = |name: Seq<char>|
                !(members.contains_key(name) && members[name] is Text);
            let bad_agent = members.contains_key("agent_id"@) && !(members["agent_id"@] is Text)
                && !(members["agent_id"@] is Null);
            &&& action == "skip"@ ==> (read is Err <==> lacks("reason"@))
            &&& action == "rerun_agent"@ ==> (read is Err <==> lacks("prompt"@) || bad_agent)
            &&& action == "rerun_workflow"@ ==> (read is Err <==> lacks("source_id"@))
            &&& action == "queue_fix"@ ==> (read is Err <==> lacks("source_id"@) || lacks(
                "diagnosis"@,
            ) || lacks("corrected"@) || bad_agent)
            &&& action == "queue_workflow"@ ==> (read is Err <==> lacks("source_id"@) || lacks(
                "diagnosis"@,
            ))
            &&& action == "queue_exhausted"@ ==> (read is Err <==> lacks("source_id"@) || lacks(
                "note"@,
            ))
            &&& read matches Err(e) ==> e == WireError::BadField
        }),
{
    lemma_wire_words();
    let json = JsonView::Object(members);
    assert(json->Object_0 == members);
}

/// A verdict may be an array of its action and its fields in the order in which they are
/// declared, no more and no fewer.
pub proof fn law_verdict_is_read_from_an_array(
    a: Seq<char>,
    b: Seq<char>,
    c: Seq<char>,
    id: Option<Seq<char>>,
)
    ensures
        ({
            let text = |t: Seq<char>| JsonView::Text(t);
            let opt = match id {
                Some(t) => JsonView::Text(t),
                None => JsonView::Null,
            };
            &&& verdict_of_wire(JsonView::Array(seq![text("skip"@), text(a)])) == Ok::<
                HealVerdictView,
                WireError,
            >(HealVerdictView::Skip { reason: a })
            &&& verdict_of_wire(JsonView::Array(seq![text("rerun_agent"@), opt, text(a)])) == Ok::<
                HealVerdictView,
                WireError,
            >(HealVerdictView::RerunAgent { agent_id: id, prompt: a })
            &&& verdict_of_wire(JsonView::Array(seq![text("rerun_workflow"@), text(a)])) == Ok::<
                HealVerdictView,
                WireError,
            >(HealVerdictView::RerunWorkflow { source_id: a })
            &&& verdict_of_wire(
                JsonView::Array(seq![text("queue_fix"@), text(a), opt, text(b), text(c)]),
            ) == Ok::<HealVerdictView, WireError>(
                HealVerdictView::QueueFix { source_id: a, agent_id: id, diagnosis: b, corrected: c },
            )
            &&& verdict_of_wire(JsonView::Array(seq![text("queue_workflow"@), text(a), text(b)]))
                == Ok::<HealVerdictView, WireError>(
                HealVerdictView::QueueWorkflow { source_id: a, diagnosis: b },
            )
            &&& verdict_of_wire(JsonView::Array(seq![text("queue_exhausted"@), text(a), text(b)]))
                == Ok::<HealVerdictView, WireError>(
                HealVerdictView::QueueExhausted { source_id: a, note: b },
            )
        }),
{
    lemma_wire_words();
}

/// The model of a verdict holds what the verdict holds.
pub proof fn law_verdict_models_are_faithful(
    a: String,
    b: String,
    c: String,
    id: Option<String>,
)
    ensures
        (HealVerdict::Skip { reason: a })@ == (HealVerdictView::Skip { reason: a@ }),
        (HealVerdict::RerunAgent { agent_id: id, prompt: a })@ == (HealVerdictView::RerunAgent {
            agent_id: text_view(id),
            prompt: a@,
        }),
        (HealVerdict::RerunWorkflow { source_id: a })@ == (HealVerdictView::RerunWorkflow {
            source_id: a@,
        }),
        (HealVerdict::QueueFix { source_id: a, agent_id: id, diagnosis: b, corrected: c })@ == (
        HealVerdictView::QueueFix {
            source_id: a@,
            agent_id: text_view(id),
            diagnosis: b@,
            corrected: c@,
        }),
        (HealVerdict::QueueWorkflow { source_id: a, diagnosis: b })@ == (
        HealVerdictView::QueueWorkflow { source_id: a@, diagnosis: b@ }),
        (HealVerdict::QueueExhausted { source_id: a, note: b })@ == (
        HealVerdictView::QueueExhausted { source_id: a@, note: b@ }),
        HealVerdict::Unknown@ == HealVerdictView::Unknown,
{
}

/// The model of what a text was read as holds the same.
pub proof fn law_read_verdicts_are_modelled(verdict: HealVerdict, error: WireError)
    ensures
        verdict_view(Ok(verdict)) == Ok::<HealVerdictView, WireError>(verdict@),
        verdict_view(Err(error)) == Err::<HealVerdictView, WireError>(error),
{
}

/// What names no action is refused for that, what has the wrong number of elements for its
/// action is refused for that, and what is no JSON is refused for that.
pub proof fn law_each_refusal_has_its_reason(json: JsonView, text: Seq<char>)
    ensures
        !(json is Object) && !(json is Array) ==> verdict_of_wire(json) == Err::<
            HealVerdictView,
            WireError,
        >(WireError::NoAction),
        json is Object && !(json->Object_0.contains_key("action"@)
            && json->Object_0["action"@] is Text) ==> verdict_of_wire(json) == Err::<
            HealVerdictView,
            WireError,
        >(WireError::NoAction),
        json is Array && !(json->Array_0.len() > 0 && json->Array_0[0] is Text)
            ==> verdict_of_wire(json) == Err::<HealVerdictView, WireError>(WireError::NoAction),
        json matches JsonView::Array(e) && e.len() > 0 && (e[0] == JsonView::Text("skip"@) || e[0]
            == JsonView::Text("rerun_workflow"@)) && e.len() != 2 ==> verdict_of_wire(json)
            == Err::<HealVerdictView, WireError>(WireError::BadField),
        json matches JsonView::Array(e) && e.len() > 0 && (e[0] == JsonView::Text("rerun_agent"@)
            || e[0] == JsonView::Text("queue_workflow"@) || e[0] == JsonView::Text(
            "queue_exhausted"@,
        )) && e.len() != 3 ==> verdict_of_wire(json) == Err::<HealVerdictView, WireError>(
            WireError::BadField,
        ),
        json matches JsonView::Array(e) && e.len() > 0 && e[0] == JsonView::Text("queue_fix"@)
            && e.len() != 5 ==> verdict_of_wire(json) == Err::<HealVerdictView, WireError>(
            WireError::BadField,
        ),
        json_value(text) is None ==> verdict_of_text(text) == Err::<HealVerdictView, WireError>(
            WireError::NotJson,
        ),
        json_value(text) == Some(json) ==> verdict_of_text(text) == verdict_of_wire(json),
{
    lemma_wire_words();
}

} // verus!
