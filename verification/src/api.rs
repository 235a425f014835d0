//! What the healing routes answer.

use vstd::prelude::*;

use crate::config::{config_wire, holds, holds_number, HealingConfigModel, HealingConfigView};
use crate::contracts::{
    law_verdict_reads_back, verdict_of_text, verdict_wire, HealVerdict, HealVerdictView, WireError,
};
use crate::decision::HealAttempt;
use crate::diagnosis::{report_of_wire, FailureReport};
use crate::engine::{first_step, skipped, HealEngine, HealStep, HealStepView};
use crate::json::{
    is_plain, json_value, lemma_plain_within, put, readable_levels, Json, JsonView,
};
use crate::store::{
    attempts_to_json, attempts_wire, law_record_is_kept_field_by_field, lemma_attempts_are_plain,
};
use crate::textmap::TextMap;

verus! {

/// Where an evaluation stands that was asked for by a request with this body.
pub open spec fn reported(body: JsonView, running: bool) -> HealStepView {
    if running {
        first_step(report_of_wire(body))
    } else {
        skipped("heal engine unavailable"@)
    }
}

/// Begins the evaluation that a request asks for. Without an engine the failed run is
/// skipped.
pub fn report_failure(engine: Option<&HealEngine>, body: &Json) -> (step: HealStep)
    ensures
        step@ == reported(body@, engine is Some),
{
    match engine {
        Some(e) => e.evaluate(FailureReport::from_json(body)),
        None => HealStep::Finished(
            HealVerdict::Skip { reason: "heal engine unavailable".to_owned() },
        ),
    }
}

/// The record that an engine has; nothing where there is no engine.
pub open spec fn record_of(engine: Option<&HealEngine>) -> Map<Seq<char>, HealAttempt> {
    match engine {
        Some(e) => e@,
        None => Map::empty(),
    }
}

/// The JSON form of the status: the record of heals.
pub open spec fn status_wire(attempts: Map<Seq<char>, HealAttempt>) -> JsonView {
    JsonView::Object(map!["attempts"@ => attempts_wire(attempts)])
}

/// The body of the status answer.
pub fn status(engine: Option<&HealEngine>) -> (text: String)
    ensures
        json_value(text@) == Some(status_wire(record_of(engine))),
{
    let attempts: Json = match engine {
        Some(e) => e.attempts_json(),
        None => attempts_to_json(&TextMap::new()),
    };
    let mut members: Vec<(String, Json)> = Vec::new();
    put(&mut members, "attempts", attempts);
    let json: Json = Json::Object(members);
    proof {
        assert(json@->Object_0 =~= status_wire(record_of(engine))->Object_0);
        lemma_attempts_are_plain(record_of(engine));
        let inner = attempts_wire(record_of(engine));
        assert(is_plain(inner, 2));
        assert(is_plain(json@, 3)) by {
            let fields = json@->Object_0;
            assert forall|key: Seq<char>| #[trigger] fields.contains_key(key) implies is_plain(
                fields[key],
                2,
            ) by {}
        }
        lemma_plain_within(json@, 3, readable_levels());
    }
    json.to_text().unwrap()
}

/// The body of the answer to a reported failure.
pub fn verdict_body(verdict: &HealVerdict) -> (text: String)
    ensures
        json_value(text@) == Some(verdict_wire(verdict@)),
{
    proof {
        lemma_verdict_is_plain(verdict@);
    }
    verdict.to_json().to_text().unwrap()
}

proof fn lemma_verdict_is_plain(verdict: HealVerdictView)
    ensures
        is_plain(verdict_wire(verdict), readable_levels()),
{
    let json = verdict_wire(verdict);
    let fields = json->Object_0;
    assert forall|key: Seq<char>| #[trigger] fields.contains_key(key) implies is_plain(
        fields[key],
        0,
    ) by {}
    assert(is_plain(json, 1));
    lemma_plain_within(json, 1, readable_levels());
}

/// The body of the answer to a request for the configuration.
pub fn config_body(config: &HealingConfigView) -> (text: String)
    ensures
        json_value(text@) == Some(config_wire(config@)),
{
    proof {
        lemma_config_is_plain(config@);
    }
    config.to_json().to_text().unwrap()
}

proof fn lemma_config_is_plain(config: HealingConfigModel)
    ensures
        is_plain(config_wire(config), readable_levels()),
{
    let json = config_wire(config);
    let fields = json->Object_0;
    assert forall|key: Seq<char>| #[trigger] fields.contains_key(key) implies is_plain(
        fields[key],
        0,
    ) by {}
    assert(is_plain(json, 1));
    lemma_plain_within(json, 1, readable_levels());
}

/// What a verdict is sent as is read as that verdict.
pub proof fn law_sent_verdict_reads_back(text: Seq<char>, verdict: HealVerdictView)
    requires
        json_value(text) == Some(verdict_wire(verdict)),
    ensures
        verdict_of_text(text) == Ok::<HealVerdictView, WireError>(verdict),
{
    law_verdict_reads_back(verdict);
}

/// The status holds the record of heals, source by source and field by field.
pub proof fn law_status_holds_the_record(attempts: Map<Seq<char>, HealAttempt>)
    ensures
        status_wire(attempts) matches JsonView::Object(members) && members.contains_key(
            "attempts"@,
        ) && (members["attempts"@] matches JsonView::Object(records) && records.dom()
            == attempts.dom() && forall|id: Seq<char>| #[trigger]
            records.contains_key(id) ==> {
                &&& holds_number(records[id], "count"@, attempts[id].count as int)
                &&& holds_number(records[id], "last_at"@, attempts[id].last_at as int)
                &&& holds(records[id], "given_up"@, JsonView::Bool(attempts[id].given_up))
            }),
        forall|engine: &HealEngine| #[trigger] record_of(Some(engine)) == engine@,
        record_of(None) == Map::<Seq<char>, HealAttempt>::empty(),
{
    law_record_is_kept_field_by_field(attempts);
}

/// A report begins the evaluation of the run that its body tells of, where there is an
/// engine, and is skipped where there is none.
pub proof fn law_report_begins_its_evaluation(body: JsonView)
    ensures
        reported(body, true) matches HealStepView::Continue { run, request } && run.report
            == report_of_wire(body) && request == crate::engine::HealRequestView::ReadPref(
            "healing.enabled"@,
        ),
        reported(body, false) == HealStepView::Finished(
            HealVerdictView::Skip { reason: "heal engine unavailable"@ },
        ),
{
}

} // verus!
