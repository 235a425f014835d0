//! The healing engine: the record of heals, and the course of one evaluation.
//!
//! An evaluation alternates with work that only the host can do: it asks for
//! preferences, has the record saved and calls the side model. So it is a [`HealRun`]
//! that is handed one answer at a time and says what it needs next, until it ends in a
//! verdict. The decision and its record are made in one step under the engine's
//! exclusive borrow, so two failures of one source cannot both slip past the bounds.

use vstd::prelude::*;
use vstd::string::StringExecFns;

use crate::config::{
    lemma_pref_names, resolve_auto_decide, resolve_cooldown_secs, resolve_diagnose_effort,
    resolve_enabled, resolve_max_attempts, resolved_auto_decide, resolved_bounds,
    resolved_cooldown_secs, resolved_diagnose_effort, resolved_diagnose_model,
    resolved_enabled, resolved_max_attempts, str_view, HealingPrefsModel,
    HEALING_AUTO_DECIDE_PREF, HEALING_COOLDOWN_SECS_PREF, HEALING_DIAGNOSE_EFFORT_PREF,
    HEALING_DIAGNOSE_MODEL_PREF, HEALING_ENABLED_PREF, HEALING_MAX_ATTEMPTS_PREF,
};
use crate::contracts::{text_view, HealVerdict, HealVerdictView, HEAL_PREFIX};
use crate::decision::{
    attempt_on, attempt_or_none, decide_heal, decision, recorded, HealAttempt, HealConfig,
    HealDecision,
};
use crate::diagnosis::{
    diagnose, diagnose_verdict, diagnosed, diagnosis_message, diagnosis_of_reply,
    diagnosis_prompt, law_reply_is_read_for_both, text_under, FailureReport, FailureReportView,
    HealSourceView, HEAL_SYSTEM,
};
use crate::extract::is_balanced;
use crate::json::{json_value, Json, JsonView};
use crate::store::{
    attempts_of_file, attempts_to_json, attempts_wire, law_attempts_read_back, load_attempts,
    save_attempts,
};
use crate::text::{
    decimal, is_blank, law_decimal_has_no_zero_in_front, law_decimal_reads_back,
    render_unsigned, trimmed, unsigned_value,
};
use crate::textmap::{distinct_names, named, TextMap};

verus! {

// ---------------------------------------------------------------------------
// The engine
// ---------------------------------------------------------------------------

/// The healing engine. Its model is the record of heals by source.
#[derive(Debug)]
pub struct HealEngine {
    attempts: TextMap<HealAttempt>,
}

impl View for HealEngine {
    type V = Map<Seq<char>, HealAttempt>;

    closed spec fn view(&self) -> Map<Seq<char>, HealAttempt> {
        self.attempts@
    }
}

impl HealEngine {
    /// An engine that goes on from the record in a file; `saved` is the content of the
    /// file, where it can be read.
    pub fn new(saved: Option<&str>) -> (engine: HealEngine)
        ensures
            engine@ == attempts_of_file(str_view(saved)),
    {
        HealEngine { attempts: load_attempts(saved) }
    }

    /// Whether the loop is on, given the raw master switch.
    pub fn enabled(&self, pref: Option<&str>) -> (enabled: bool)
        ensures
            enabled == resolved_enabled(str_view(pref)),
    {
        resolve_enabled(pref)
    }

    /// What is on record, each source once.
    pub fn attempt_snapshot(&self) -> (snapshot: Vec<(String, HealAttempt)>)
        ensures
            named(snapshot@) == self@,
            distinct_names(snapshot@),
    {
        let entries = self.attempts.entries();
        let mut snapshot: Vec<(String, HealAttempt)> = Vec::new();
        let mut i: usize = 0;
        while i < entries.len()
            invariant
                i <= entries.len(),
                snapshot@ == entries@.take(i as int),
            decreases entries.len() - i,
        {
            snapshot.push((entries[i].0.clone(), entries[i].1));
            assert(snapshot@ == entries@.take(i + 1));
            i = i + 1;
        }
        assert(entries@.take(i as int) == entries@);
        snapshot
    }

    /// The JSON form of what is on record.
    pub fn attempts_json(&self) -> (json: Json)
        ensures
            json@ == attempts_wire(self@),
    {
        attempts_to_json(&self.attempts)
    }

    /// The text of the file that keeps what is on record.
    pub fn saved_attempts(&self) -> (text: String)
        ensures
            json_value(text@) == Some(attempts_wire(self@)),
            attempts_of_file(Some(text@)) == self@,
    {
        save_attempts(&self.attempts)
    }

    /// Decides about a failure of the source `source_id` and puts the decision on record.
    pub fn record_failure(&mut self, source_id: &str, cfg: &HealConfig, now_ms: i64) -> (answer:
        HealDecision)
        ensures
            answer == decision(source_id@, attempt_on(old(self)@, source_id@), *cfg, now_ms),
            final(self)@ == recorded(old(self)@, source_id@, answer, now_ms),
    {
        let known: Option<HealAttempt> = match self.attempts.get(source_id) {
            Some(a) => Some(*a),
            None => None,
        };
        let before: HealAttempt = match known {
            Some(a) => a,
            None => HealAttempt::default(),
        };
        let answer: HealDecision = decide_heal(source_id, known.as_ref(), cfg, now_ms);
        match answer {
            HealDecision::Heal => {
                self.attempts.insert(
                    source_id,
                    HealAttempt {
                        count: before.count + 1,
                        last_at: now_ms,
                        given_up: before.given_up,
                    },
                );
            },
            HealDecision::GiveUp => {
                self.attempts.insert(
                    source_id,
                    HealAttempt { count: before.count, last_at: before.last_at, given_up: true },
                );
            },
            HealDecision::Skip(_) => {},
        }
        answer
    }

    /// Begins the evaluation of a failed run.
    pub fn evaluate(&self, report: FailureReport) -> (step: HealStep)
        ensures
            step@ == first_step(report@),
    {
        HealStep::Continue {
            run: HealRun { report, stage: HealStage::Enabled },
            request: HealRequest::ReadPref(HEALING_ENABLED_PREF),
        }
    }
}

// ---------------------------------------------------------------------------
// The course of an evaluation
// ---------------------------------------------------------------------------

/// What an evaluation is waiting for.
#[derive(Debug)]
pub enum HealStage {
    /// The master switch.
    Enabled,
    /// The attempt cap.
    MaxAttempts,
    /// The cooldown.
    CooldownSecs { max_attempts: u32 },
    /// The saving of a heal.
    HealSaved,
    /// The saving of a give-up.
    GiveUpSaved { max_attempts: u32 },
    /// The diagnosis model.
    Model,
    /// The default model.
    DefaultModel,
    /// The diagnosis effort.
    Effort { model: String },
    /// The reply of the side model; no answer where the call failed.
    Reply,
    /// Whether fixes are applied.
    AutoDecide { diagnosis: String, corrected: String },
}

/// The mathematical model of what an evaluation is waiting for.
pub enum HealStageView {
    Enabled,
    MaxAttempts,
    CooldownSecs { max_attempts: u32 },
    HealSaved,
    GiveUpSaved { max_attempts: u32 },
    Model,
    DefaultModel,
    Effort { model: Seq<char> },
    Reply,
    AutoDecide { diagnosis: Seq<char>, corrected: Seq<char> },
}

impl View for HealStage {
    type V = HealStageView;

    open spec fn view(&self) -> HealStageView {
        match *self {
            HealStage::Enabled => HealStageView::Enabled,
            HealStage::MaxAttempts => HealStageView::MaxAttempts,
            HealStage::CooldownSecs { max_attempts } => HealStageView::CooldownSecs {
                max_attempts,
            },
            HealStage::HealSaved => HealStageView::HealSaved,
            HealStage::GiveUpSaved { max_attempts } => HealStageView::GiveUpSaved { max_attempts },
            HealStage::Model => HealStageView::Model,
            HealStage::DefaultModel => HealStageView::DefaultModel,
            HealStage::Effort { model } => HealStageView::Effort { model: model@ },
            HealStage::Reply => HealStageView::Reply,
            HealStage::AutoDecide { diagnosis, corrected } => HealStageView::AutoDecide {
                diagnosis: diagnosis@,
                corrected: corrected@,
            },
        }
    }
}

/// An evaluation under way.
#[derive(Debug)]
pub struct HealRun {
    pub report: FailureReport,
    pub stage: HealStage,
}

/// The mathematical model of an evaluation under way.
pub struct HealRunView {
    pub report: FailureReportView,
    pub stage: HealStageView,
}

impl View for HealRun {
    type V = HealRunView;

    open spec fn view(&self) -> HealRunView {
        HealRunView { report: self.report@, stage: self.stage@ }
    }
}

/// What an evaluation needs from its host. Each is answered with an optional text.
#[derive(Debug)]
pub enum HealRequest {
    /// The preference of this name, where it is set.
    ReadPref(&'static str),
    /// Write the record of heals, which is this text, to its file, as far as that is
    /// possible. The answer does not matter.
    SaveAttempts(String),
    /// The default model.
    ReadDefaultModel,
    /// One completion by the side model; no answer where the call fails.
    CallSideModel { model: String, effort: String, system: &'static str, user: String },
}

/// The mathematical model of what an evaluation needs.
pub enum HealRequestView {
    ReadPref(Seq<char>),
    /// By what the text reads as.
    SaveAttempts(Option<JsonView>),
    ReadDefaultModel,
    CallSideModel { model: Seq<char>, effort: Seq<char>, system: Seq<char>, user: Seq<char> },
}

impl View for HealRequest {
    type V = HealRequestView;

    open spec fn view(&self) -> HealRequestView {
        match *self {
            HealRequest::ReadPref(name) => HealRequestView::ReadPref(name@),
            HealRequest::SaveAttempts(text) => HealRequestView::SaveAttempts(json_value(text@)),
            HealRequest::ReadDefaultModel => HealRequestView::ReadDefaultModel,
            HealRequest::CallSideModel { model, effort, system, user } => {
                HealRequestView::CallSideModel {
                    model: model@,
                    effort: effort@,
                    system: system@,
                    user: user@,
                }
            },
        }
    }
}

/// Where an evaluation stands: it needs something, or it is done.
#[derive(Debug)]
pub enum HealStep {
    Continue { run: HealRun, request: HealRequest },
    Finished(HealVerdict),
}

/// The mathematical model of where an evaluation stands.
pub enum HealStepView {
    Continue { run: HealRunView, request: HealRequestView },
    Finished(HealVerdictView),
}

impl View for HealStep {
    type V = HealStepView;

    open spec fn view(&self) -> HealStepView {
        match *self {
            HealStep::Continue { run, request } => HealStepView::Continue {
                run: run@,
                request: request@,
            },
            HealStep::Finished(verdict) => HealStepView::Finished(verdict@),
        }
    }
}

/// The note of a terminal review item.
pub open spec fn exhausted_note(max_attempts: u32) -> Seq<char> {
    "It failed after "@ + decimal(max_attempts as nat)
        + " auto-fix attempt(s). Review it manually."@
}

/// How an evaluation begins.
pub open spec fn first_step(report: FailureReportView) -> HealStepView {
    HealStepView::Continue {
        run: HealRunView { report, stage: HealStageView::Enabled },
        request: HealRequestView::ReadPref(HEALING_ENABLED_PREF@),
    }
}

/// An evaluation that waits for `request` at `stage`.
pub open spec fn waiting(
    report: FailureReportView,
    stage: HealStageView,
    request: HealRequestView,
) -> HealStepView {
    HealStepView::Continue { run: HealRunView { report, stage }, request }
}

/// An evaluation that ends without an action.
pub open spec fn skipped(reason: Seq<char>) -> HealStepView {
    HealStepView::Finished(HealVerdictView::Skip { reason })
}

/// Where an evaluation stands after an answer at the time `now_ms`, and what is on
/// record after it.
pub open spec fn next_step(
    run: HealRunView,
    book: Map<Seq<char>, HealAttempt>,
    answer: Option<Seq<char>>,
    now_ms: i64,
) -> (HealStepView, Map<Seq<char>, HealAttempt>) {
    let report = run.report;
    match run.stage {
        HealStageView::Enabled => if resolved_enabled(answer) {
            (
                waiting(
                    report,
                    HealStageView::MaxAttempts,
                    HealRequestView::ReadPref(HEALING_MAX_ATTEMPTS_PREF@),
                ),
                book,
            )
        } else {
            (skipped("healing disabled"@), book)
        },
        HealStageView::MaxAttempts => (
            waiting(
                report,
                HealStageView::CooldownSecs { max_attempts: resolved_max_attempts(answer) },
                HealRequestView::ReadPref(HEALING_COOLDOWN_SECS_PREF@),
            ),
            book,
        ),
        HealStageView::CooldownSecs { max_attempts } => {
            let cfg = HealConfig {
                max_attempts,
                cooldown_secs: resolved_cooldown_secs(answer),
            };
            let decided = decision(
                report.source_id,
                attempt_on(book, report.source_id),
                cfg,
                now_ms,
            );
            let after = recorded(book, report.source_id, decided, now_ms);
            let save = HealRequestView::SaveAttempts(Some(attempts_wire(after)));
            (
                match decided {
                    HealDecision::Skip(reason) => skipped(reason@),
                    HealDecision::GiveUp => waiting(
                        report,
                        HealStageView::GiveUpSaved { max_attempts },
                        save,
                    ),
                    HealDecision::Heal => waiting(report, HealStageView::HealSaved, save),
                },
                after,
            )
        },
        HealStageView::GiveUpSaved { max_attempts } => (
            HealStepView::Finished(
                HealVerdictView::QueueExhausted {
                    source_id: report.source_id,
                    note: exhausted_note(max_attempts),
                },
            ),
            book,
        ),
        HealStageView::HealSaved => (
            waiting(
                report,
                HealStageView::Model,
                HealRequestView::ReadPref(HEALING_DIAGNOSE_MODEL_PREF@),
            ),
            book,
        ),
        HealStageView::Model => (
            match answer {
                Some(model) => if trimmed(model).len() == 0 {
                    waiting(report, HealStageView::DefaultModel, HealRequestView::ReadDefaultModel)
                } else {
                    waiting(
                        report,
                        HealStageView::Effort { model },
                        HealRequestView::ReadPref(HEALING_DIAGNOSE_EFFORT_PREF@),
                    )
                },
                None => waiting(
                    report,
                    HealStageView::DefaultModel,
                    HealRequestView::ReadDefaultModel,
                ),
            },
            book,
        ),
        HealStageView::DefaultModel => (
            waiting(
                report,
                HealStageView::Effort { model: text_or_nothing(answer) },
                HealRequestView::ReadPref(HEALING_DIAGNOSE_EFFORT_PREF@),
            ),
            book,
        ),
        HealStageView::Effort { model } => (
            waiting(
                report,
                HealStageView::Reply,
                HealRequestView::CallSideModel {
                    model,
                    effort: resolved_diagnose_effort(answer),
                    system: HEAL_SYSTEM@,
                    user: diagnosis_message(report.instruction, report.failure),
                },
            ),
            book,
        ),
        HealStageView::Reply => (
            match diagnosis_of_answer(answer) {
                Some((diagnosis, corrected)) => waiting(
                    report,
                    HealStageView::AutoDecide { diagnosis, corrected },
                    HealRequestView::ReadPref(HEALING_AUTO_DECIDE_PREF@),
                ),
                None => skipped("no diagnosis (model unreachable or empty)"@),
            },
            book,
        ),
        HealStageView::AutoDecide { diagnosis, corrected } => (
            HealStepView::Finished(
                diagnosed(report, diagnosis, corrected, resolved_auto_decide(answer)),
            ),
            book,
        ),
    }
}

/// The text, or the empty text.
pub open spec fn text_or_nothing(text: Option<Seq<char>>) -> Seq<char> {
    match text {
        Some(t) => t,
        None => Seq::empty(),
    }
}

/// The diagnosis in an answer of the side model.
pub open spec fn diagnosis_of_answer(answer: Option<Seq<char>>) -> Option<(Seq<char>, Seq<char>)> {
    match answer {
        Some(reply) => diagnosis_of_reply(reply),
        None => None,
    }
}

/// Reads the clock: `chrono::Utc::now`, as Unix milliseconds by
/// `DateTime::timestamp_millis`. Claims that the time is not before the epoch; on a
/// clock that is set to before it `Utc::now` does not return.
#[verifier::external_body]
fn clock_ms() -> (now_ms: i64)
    ensures
        now_ms >= 0,
{
    chrono::Utc::now().timestamp_millis()
}

fn exhausted_text(max_attempts: u32) -> (note: String)
    ensures
        note@ == exhausted_note(max_attempts),
{
    "It failed after ".to_owned().concat(render_unsigned(max_attempts as u64).as_str()).concat(
        " auto-fix attempt(s). Review it manually.",
    )
}

fn borrowed(text: &Option<String>) -> (t: Option<&str>)
    ensures
        str_view(t) == text_view(*text),
{
    match text {
        Some(t) => Some(t.as_str()),
        None => None,
    }
}

fn skip(reason: &str) -> (step: HealStep)
    ensures
        step@ == skipped(reason@),
{
    HealStep::Finished(HealVerdict::Skip { reason: reason.to_owned() })
}

fn wait(report: FailureReport, stage: HealStage, request: HealRequest) -> (step: HealStep)
    ensures
        step@ == waiting(report@, stage@, request@),
{
    HealStep::Continue { run: HealRun { report, stage }, request }
}

impl HealRun {
    /// Goes on with the answer to the last request.
    pub fn step(self, engine: &mut HealEngine, answer: Option<String>) -> (step: HealStep)
        ensures
            exists|now_ms: i64|
                now_ms >= 0 && (step@, final(engine)@) == #[trigger] next_step(
                    self@,
                    old(engine)@,
                    text_view(answer),
                    now_ms,
                ),
    {
        let now_ms: i64 = clock_ms();
        self.step_at(engine, answer, now_ms)
    }

    /// Goes on with the answer to the last request, at the time `now_ms`.
    pub fn step_at(self, engine: &mut HealEngine, answer: Option<String>, now_ms: i64) -> (step:
        HealStep)
        ensures
            (step@, final(engine)@) == next_step(
                self@,
                old(engine)@,
                text_view(answer),
                now_ms,
            ),
    {
        let report: FailureReport = self.report;
        match self.stage {
            HealStage::Enabled => if engine.enabled(borrowed(&answer)) {
                wait(
                    report,
                    HealStage::MaxAttempts,
                    HealRequest::ReadPref(HEALING_MAX_ATTEMPTS_PREF),
                )
            } else {
                skip("healing disabled")
            },
            HealStage::MaxAttempts => wait(
                report,
                HealStage::CooldownSecs { max_attempts: resolve_max_attempts(borrowed(&answer)) },
                HealRequest::ReadPref(HEALING_COOLDOWN_SECS_PREF),
            ),
            HealStage::CooldownSecs { max_attempts } => {
                let cfg: HealConfig = HealConfig {
                    max_attempts,
                    cooldown_secs: resolve_cooldown_secs(borrowed(&answer)),
                };
                match engine.record_failure(report.source_id.as_str(), &cfg, now_ms) {
                    HealDecision::Skip(reason) => skip(reason),
                    HealDecision::GiveUp => wait(
                        report,
                        HealStage::GiveUpSaved { max_attempts },
                        HealRequest::SaveAttempts(engine.saved_attempts()),
                    ),
                    HealDecision::Heal => wait(
                        report,
                        HealStage::HealSaved,
                        HealRequest::SaveAttempts(engine.saved_attempts()),
                    ),
                }
            },
            HealStage::GiveUpSaved { max_attempts } => HealStep::Finished(
                HealVerdict::QueueExhausted {
                    source_id: report.source_id,
                    note: exhausted_text(max_attempts),
                },
            ),
            HealStage::HealSaved => wait(
                report,
                HealStage::Model,
                HealRequest::ReadPref(HEALING_DIAGNOSE_MODEL_PREF),
            ),
            HealStage::Model => match answer {
                Some(model) => if is_blank(model.as_str()) {
                    wait(report, HealStage::DefaultModel, HealRequest::ReadDefaultModel)
                } else {
                    wait(
                        report,
                        HealStage::Effort { model },
                        HealRequest::ReadPref(HEALING_DIAGNOSE_EFFORT_PREF),
                    )
                },
                None => wait(report, HealStage::DefaultModel, HealRequest::ReadDefaultModel),
            },
            HealStage::DefaultModel => {
                let model: String = match answer {
                    Some(model) => model,
                    None => String::new(),
                };
                wait(
                    report,
                    HealStage::Effort { model },
                    HealRequest::ReadPref(HEALING_DIAGNOSE_EFFORT_PREF),
                )
            },
            HealStage::Effort { model } => {
                let effort: String = resolve_diagnose_effort(borrowed(&answer));
                let user: String = diagnosis_prompt(
                    report.instruction.as_str(),
                    report.failure.as_str(),
                );
                wait(
                    report,
                    HealStage::Reply,
                    HealRequest::CallSideModel { model, effort, system: HEAL_SYSTEM, user },
                )
            },
            HealStage::Reply => {
                let found: Option<(String, String)> = match &answer {
                    Some(reply) => diagnose(reply.as_str()),
                    None => None,
                };
                match found {
                    Some((diagnosis, corrected)) => wait(
                        report,
                        HealStage::AutoDecide { diagnosis, corrected },
                        HealRequest::ReadPref(HEALING_AUTO_DECIDE_PREF),
                    ),
                    None => skip("no diagnosis (model unreachable or empty)"),
                }
            },
            HealStage::AutoDecide { diagnosis, corrected } => HealStep::Finished(
                diagnose_verdict(
                    report,
                    diagnosis,
                    corrected,
                    resolve_auto_decide(borrowed(&answer)),
                ),
            ),
        }
    }
}

// ---------------------------------------------------------------------------
// Laws
// ---------------------------------------------------------------------------

/// How many more answers an evaluation can take at most.
pub open spec fn answers_left(stage: HealStageView) -> nat {
    match stage {
        HealStageView::Enabled => 9,
        HealStageView::MaxAttempts => 8,
        HealStageView::CooldownSecs { .. } => 7,
        HealStageView::HealSaved => 6,
        HealStageView::GiveUpSaved { .. } => 1,
        HealStageView::Model => 5,
        HealStageView::DefaultModel => 4,
        HealStageView::Effort { .. } => 3,
        HealStageView::Reply => 2,
        HealStageView::AutoDecide { .. } => 1,
    }
}

/// Every answer brings an evaluation closer to its verdict.
pub proof fn law_evaluation_ends(
    run: HealRunView,
    book: Map<Seq<char>, HealAttempt>,
    answer: Option<Seq<char>>,
    now_ms: i64,
)
    ensures
        next_step(run, book, answer, now_ms).0 matches HealStepView::Continue { run: next, .. }
            ==> answers_left(next.stage) < answers_left(run.stage),
{
}

/// What a host answers in the course of one evaluation.
pub struct HostAnswers {
    pub prefs: HealingPrefsModel,
    pub default_model: Seq<char>,
    /// The reply of the side model, where the call succeeds.
    pub reply: Option<Seq<char>>,
    pub now_ms: i64,
}

/// The answer of a host to a request.
pub open spec fn host_answer(host: HostAnswers, request: HealRequestView) -> Option<Seq<char>> {
    match request {
        HealRequestView::ReadPref(name) => if name == HEALING_ENABLED_PREF@ {
            host.prefs.enabled
        } else if name == HEALING_AUTO_DECIDE_PREF@ {
            host.prefs.auto_decide
        } else if name == HEALING_MAX_ATTEMPTS_PREF@ {
            host.prefs.max_attempts
        } else if name == HEALING_COOLDOWN_SECS_PREF@ {
            host.prefs.cooldown_secs
        } else if name == HEALING_DIAGNOSE_MODEL_PREF@ {
            host.prefs.diagnose_model
        } else if name == HEALING_DIAGNOSE_EFFORT_PREF@ {
            host.prefs.diagnose_effort
        } else {
            None
        },
        HealRequestView::SaveAttempts(_) => None,
        HealRequestView::ReadDefaultModel => Some(host.default_model),
        HealRequestView::CallSideModel { .. } => host.reply,
    }
}

/// The verdict that an evaluation ends in, and what is on record then, when the host
/// answers every request.
pub open spec fn driven(
    step: HealStepView,
    book: Map<Seq<char>, HealAttempt>,
    host: HostAnswers,
) -> (HealVerdictView, Map<Seq<char>, HealAttempt>)
    decreases
            match step {
                HealStepView::Continue { run, .. } => answers_left(run.stage) + 1,
                HealStepView::Finished(_) => 0,
            },
{
    match step {
        HealStepView::Finished(verdict) => (verdict, book),
        HealStepView::Continue { run, request } => {
            let (next, after) = next_step(run, book, host_answer(host, request), host.now_ms);
            driven(next, after, host)
        },
    }
}

/// The decision about a failed run under the preferences of a host.
pub open spec fn host_decision(
    book: Map<Seq<char>, HealAttempt>,
    report: FailureReportView,
    host: HostAnswers,
) -> HealDecision {
    decision(
        report.source_id,
        attempt_on(book, report.source_id),
        resolved_bounds(host.prefs.max_attempts, host.prefs.cooldown_secs),
        host.now_ms,
    )
}

/// The verdict on a failed run, and what is on record after it.
pub open spec fn evaluated(
    book: Map<Seq<char>, HealAttempt>,
    report: FailureReportView,
    host: HostAnswers,
) -> (HealVerdictView, Map<Seq<char>, HealAttempt>) {
    if !resolved_enabled(host.prefs.enabled) {
        (HealVerdictView::Skip { reason: "healing disabled"@ }, book)
    } else {
        let decided = host_decision(book, report, host);
        (
            match decided {
                HealDecision::Skip(reason) => HealVerdictView::Skip { reason: reason@ },
                HealDecision::GiveUp => HealVerdictView::QueueExhausted {
                    source_id: report.source_id,
                    note: exhausted_note(resolved_max_attempts(host.prefs.max_attempts)),
                },
                HealDecision::Heal => match diagnosis_of_answer(host.reply) {
                    Some((diagnosis, corrected)) => diagnosed(
                        report,
                        diagnosis,
                        corrected,
                        resolved_auto_decide(host.prefs.auto_decide),
                    ),
                    None => HealVerdictView::Skip {
                        reason: "no diagnosis (model unreachable or empty)"@,
                    },
                },
            },
            recorded(book, report.source_id, decided, host.now_ms),
        )
    }
}

/// An evaluation that is driven to its end comes to the verdict on the failed run, and
/// leaves the record as the decision has it.
pub proof fn law_evaluation_comes_to_the_verdict(
    book: Map<Seq<char>, HealAttempt>,
    report: FailureReportView,
    host: HostAnswers,
)
    ensures
        driven(first_step(report), book, host) == evaluated(book, report, host),
{
    lemma_pref_names();
    reveal_with_fuel(driven, 11);
}

/// While healing is off a failed run is skipped, and nothing is put on record.
pub proof fn law_disabled_does_nothing(
    book: Map<Seq<char>, HealAttempt>,
    report: FailureReportView,
    host: HostAnswers,
)
    requires
        !resolved_enabled(host.prefs.enabled),
    ensures
        evaluated(book, report, host) == (
            (HealVerdictView::Skip { reason: "healing disabled"@ }),
            book,
        ),
{
}

/// A heal re-run that fails is skipped, and nothing is put on record.
pub proof fn law_heal_rerun_is_left_alone(
    book: Map<Seq<char>, HealAttempt>,
    report: FailureReportView,
    host: HostAnswers,
)
    requires
        HEAL_PREFIX@.is_prefix_of(report.source_id),
    ensures
        evaluated(book, report, host).0 is Skip,
        evaluated(book, report, host).1 == book,
{
}

/// Where fixes are not applied nothing is ever re-run, and where they are no fix is
/// ever proposed.
pub proof fn law_auto_decide_chooses_the_side(
    book: Map<Seq<char>, HealAttempt>,
    report: FailureReportView,
    host: HostAnswers,
)
    ensures
        resolved_auto_decide(host.prefs.auto_decide) ==> !(evaluated(book, report, host).0 is QueueFix)
            && !(evaluated(book, report, host).0 is QueueWorkflow),
        !resolved_auto_decide(host.prefs.auto_decide) ==> !(evaluated(
            book,
            report,
            host,
        ).0 is RerunAgent) && !(evaluated(book, report, host).0 is RerunWorkflow),
{
}

/// A heal that comes to no diagnosis is skipped and counts all the same.
pub proof fn law_heal_without_diagnosis_counts(
    book: Map<Seq<char>, HealAttempt>,
    report: FailureReportView,
    host: HostAnswers,
)
    requires
        resolved_enabled(host.prefs.enabled),
        host_decision(book, report, host) == HealDecision::Heal,
        diagnosis_of_answer(host.reply) is None,
    ensures
        evaluated(book, report, host).0 is Skip,
        attempt_on(evaluated(book, report, host).1, report.source_id) matches Some(a) && a.count
            == attempt_or_none(book, report.source_id).count + 1 && a.last_at == host.now_ms,
{
}

/// A source is escalated just when healing is on and its attempts are used up, and is on
/// record as given up from then on.
pub proof fn law_escalation_is_given_up(
    book: Map<Seq<char>, HealAttempt>,
    report: FailureReportView,
    host: HostAnswers,
)
    ensures
        evaluated(book, report, host).0 is QueueExhausted <==> resolved_enabled(host.prefs.enabled)
            && host_decision(book, report, host) == HealDecision::GiveUp,
        evaluated(book, report, host).0 is QueueExhausted ==> (attempt_on(
            evaluated(book, report, host).1,
            report.source_id,
        ) matches Some(a) && a.given_up),
{
}

/// An evaluation always comes to an action that is known.
pub proof fn law_verdict_is_known(
    book: Map<Seq<char>, HealAttempt>,
    report: FailureReportView,
    host: HostAnswers,
)
    ensures
        !(evaluated(book, report, host).0 is Unknown),
{
}

/// The record changes in one step only, the one that decides; and where it changes the
/// new record is handed out to be saved before anything else happens.
pub proof fn law_record_is_saved_as_it_changes(
    run: HealRunView,
    book: Map<Seq<char>, HealAttempt>,
    answer: Option<Seq<char>>,
    now_ms: i64,
)
    ensures
        ({
            let (step, after) = next_step(run, book, answer, now_ms);
            after != book ==> run.stage is CooldownSecs && (step matches HealStepView::Continue {
                request,
                ..
            } && request == HealRequestView::SaveAttempts(Some(attempts_wire(after))))
        }),
{
}

/// The caps survive a restart: an engine that is made from a saved record has that
/// record.
pub proof fn law_saved_record_is_restored(text: Seq<char>, book: Map<Seq<char>, HealAttempt>)
    requires
        json_value(text) == Some(attempts_wire(book)),
    ensures
        attempts_of_file(Some(text)) == book,
{
    law_attempts_read_back(book);
}

/// What an evaluation asks of its host, in order.
pub open spec fn requests(
    step: HealStepView,
    book: Map<Seq<char>, HealAttempt>,
    host: HostAnswers,
) -> Seq<HealRequestView>
    decreases
            match step {
                HealStepView::Continue { run, .. } => answers_left(run.stage) + 1,
                HealStepView::Finished(_) => 0,
            },
{
    match step {
        HealStepView::Finished(_) => Seq::empty(),
        HealStepView::Continue { run, request } => {
            let (next, after) = next_step(run, book, host_answer(host, request), host.now_ms);
            seq![request] + requests(next, after, host)
        },
    }
}

/// The decision on a reported failure under the bounds of its host.
pub open spec fn decided(
    book: Map<Seq<char>, HealAttempt>,
    report: FailureReportView,
    host: HostAnswers,
) -> HealDecision {
    decision(
        report.source_id,
        if book.contains_key(report.source_id) {
            Some(book[report.source_id])
        } else {
            None
        },
        HealConfig {
            max_attempts: resolved_max_attempts(host.prefs.max_attempts),
            cooldown_secs: resolved_cooldown_secs(host.prefs.cooldown_secs),
        },
        host.now_ms,
    )
}

/// The request for a diagnosis of the reported run.
pub open spec fn question(report: FailureReportView, host: HostAnswers) -> HealRequestView {
    HealRequestView::CallSideModel {
        model: resolved_diagnose_model(host.prefs.diagnose_model, host.default_model),
        effort: resolved_diagnose_effort(host.prefs.diagnose_effort),
        system: HEAL_SYSTEM@,
        user: diagnosis_message(report.instruction, report.failure),
    }
}

/// What an evaluation reads before it decides.
pub open spec fn read_first() -> Seq<HealRequestView> {
    seq![
        HealRequestView::ReadPref("healing.enabled"@),
        HealRequestView::ReadPref("healing.max-attempts"@),
        HealRequestView::ReadPref("healing.cooldown-secs"@),
    ]
}

/// What an evaluation asks for behind the reply: whether fixes are applied, where the reply
/// holds one.
pub open spec fn asked_last(host: HostAnswers) -> Seq<HealRequestView> {
    if host.reply matches Some(reply) && diagnosis_of_reply(reply) is Some {
        seq![HealRequestView::ReadPref("healing.auto-decide"@)]
    } else {
        Seq::empty()
    }
}

/// What an evaluation asks for where no model is set.
pub open spec fn asked_for_a_model(host: HostAnswers) -> Seq<HealRequestView> {
    if host.prefs.diagnose_model matches Some(m) && trimmed(m).len() > 0 {
        Seq::empty()
    } else {
        seq![HealRequestView::ReadDefaultModel]
    }
}

proof fn lemma_requests_of_reply(
    report: FailureReportView,
    request: HealRequestView,
    book: Map<Seq<char>, HealAttempt>,
    host: HostAnswers,
)
    requires
        request is CallSideModel,
    ensures
        requests(waiting(report, HealStageView::Reply, request), book, host) == seq![request]
            + asked_last(host),
{
    lemma_pref_names();
    let run = HealRunView { report, stage: HealStageView::Reply };
    let (next, after) = next_step(run, book, host.reply, host.now_ms);
    if let HealStepView::Continue { run: r, request: q } = next {
        let (last, _) = next_step(r, after, host_answer(host, q), host.now_ms);
        assert(requests(last, after, host) =~= Seq::empty());
        assert(requests(next, after, host) =~= seq![q]);
    } else {
        assert(requests(next, after, host) =~= Seq::empty());
    }
    assert(requests(next, after, host) =~= asked_last(host));
}

proof fn lemma_requests_of_effort(
    report: FailureReportView,
    model: Seq<char>,
    book: Map<Seq<char>, HealAttempt>,
    host: HostAnswers,
)
    requires
        model == resolved_diagnose_model(host.prefs.diagnose_model, host.default_model),
    ensures
        ({
            let read = HealRequestView::ReadPref("healing.diagnose-effort"@);
            requests(waiting(report, HealStageView::Effort { model }, read), book, host) == seq![
                read,
                question(report, host),
            ] + asked_last(host)
        }),
{
    lemma_pref_names();
    let read = HealRequestView::ReadPref("healing.diagnose-effort"@);
    let ask = question(report, host);
    lemma_requests_of_reply(report, ask, book, host);
    let step = waiting(report, HealStageView::Effort { model }, read);
    assert(requests(step, book, host) == seq![read] + requests(
        waiting(report, HealStageView::Reply, ask),
        book,
        host,
    ));
    assert(seq![read] + (seq![ask] + asked_last(host)) =~= seq![read, ask] + asked_last(host));
}

proof fn lemma_requests_of_model(
    report: FailureReportView,
    book: Map<Seq<char>, HealAttempt>,
    host: HostAnswers,
)
    ensures
        ({
            let read = HealRequestView::ReadPref("healing.diagnose-model"@);
            requests(waiting(report, HealStageView::Model, read), book, host) == seq![read]
                + asked_for_a_model(host) + seq![
                HealRequestView::ReadPref("healing.diagnose-effort"@),
                question(report, host),
            ] + asked_last(host)
        }),
{
    lemma_pref_names();
    let read = HealRequestView::ReadPref("healing.diagnose-model"@);
    let effort = HealRequestView::ReadPref("healing.diagnose-effort"@);
    let model = resolved_diagnose_model(host.prefs.diagnose_model, host.default_model);
    let rest = seq![effort, question(report, host)] + asked_last(host);
    lemma_requests_of_effort(report, model, book, host);
    let step = waiting(report, HealStageView::Model, read);
    let last = waiting(report, HealStageView::Effort { model }, effort);
    if asked_for_a_model(host).len() == 0 {
        assert(requests(step, book, host) == seq![read] + requests(last, book, host));
    } else {
        let ask = waiting(report, HealStageView::DefaultModel, HealRequestView::ReadDefaultModel);
        assert(requests(ask, book, host) == seq![HealRequestView::ReadDefaultModel] + requests(
            last,
            book,
            host,
        ));
        assert(requests(step, book, host) == seq![read] + requests(ask, book, host));
    }
    assert(requests(step, book, host) =~= seq![read] + asked_for_a_model(host) + seq![
        effort,
        question(report, host),
    ] + asked_last(host));
}

proof fn lemma_requests_of_decision(
    report: FailureReportView,
    book: Map<Seq<char>, HealAttempt>,
    host: HostAnswers,
)
    ensures
        ({
            let read = HealRequestView::ReadPref("healing.cooldown-secs"@);
            let max_attempts = resolved_max_attempts(host.prefs.max_attempts);
            let step = waiting(report, HealStageView::CooldownSecs { max_attempts }, read);
            requests(step, book, host) == seq![read] + asked_after_decision(book, report, host)
        }),
{
    lemma_pref_names();
    let read = HealRequestView::ReadPref("healing.cooldown-secs"@);
    let max_attempts = resolved_max_attempts(host.prefs.max_attempts);
    let step = waiting(report, HealStageView::CooldownSecs { max_attempts }, read);
    let after = recorded(book, report.source_id, decided(book, report, host), host.now_ms);
    let save = HealRequestView::SaveAttempts(Some(attempts_wire(after)));
    match decided(book, report, host) {
        HealDecision::Skip(reason) => {
            assert(requests(skipped(reason@), after, host) =~= Seq::empty());
            assert(requests(step, book, host) == seq![read] + requests(
                skipped(reason@),
                after,
                host,
            ));
        },
        HealDecision::GiveUp => {
            let saving = waiting(report, HealStageView::GiveUpSaved { max_attempts }, save);
            let run = HealRunView { report, stage: HealStageView::GiveUpSaved { max_attempts } };
            let (end, _) = next_step(run, after, None, host.now_ms);
            assert(requests(end, after, host) =~= Seq::empty());
            assert(requests(saving, after, host) =~= seq![save]);
            assert(requests(step, book, host) == seq![read] + requests(saving, after, host));
        },
        HealDecision::Heal => {
            let saving = waiting(report, HealStageView::HealSaved, save);
            let model = waiting(
                report,
                HealStageView::Model,
                HealRequestView::ReadPref("healing.diagnose-model"@),
            );
            lemma_requests_of_model(report, after, host);
            assert(requests(saving, after, host) == seq![save] + requests(model, after, host));
            assert(requests(step, book, host) == seq![read] + requests(saving, after, host));
            assert(requests(saving, after, host) =~= asked_after_decision(book, report, host));
        },
    }
}

/// What an evaluation asks for once it has decided: nothing where it skips, saving the
/// record where it gives up, and where it heals saving the record, a model, an effort, the
/// diagnosis, and whether fixes are applied, where there is one.
pub open spec fn asked_after_decision(
    book: Map<Seq<char>, HealAttempt>,
    report: FailureReportView,
    host: HostAnswers,
) -> Seq<HealRequestView> {
    let after = recorded(book, report.source_id, decided(book, report, host), host.now_ms);
    let save = HealRequestView::SaveAttempts(Some(attempts_wire(after)));
    match decided(book, report, host) {
        HealDecision::Skip(_) => Seq::empty(),
        HealDecision::GiveUp => seq![save],
        HealDecision::Heal => seq![save, HealRequestView::ReadPref("healing.diagnose-model"@)]
            + asked_for_a_model(host) + seq![
            HealRequestView::ReadPref("healing.diagnose-effort"@),
            question(report, host),
        ] + asked_last(host),
    }
}

/// Everything that an evaluation asks of its host, in order. The changed record is saved
/// before the side model is asked, the default model is asked for where none is set, and
/// whether fixes are applied is read last, where there is a fix.
pub proof fn law_requests_come_in_order(
    book: Map<Seq<char>, HealAttempt>,
    report: FailureReportView,
    host: HostAnswers,
)
    ensures
        requests(first_step(report), book, host) == if resolved_enabled(host.prefs.enabled) {
            read_first() + asked_after_decision(book, report, host)
        } else {
            seq![HealRequestView::ReadPref("healing.enabled"@)]
        },
{
    lemma_pref_names();
    let on = HealRequestView::ReadPref("healing.enabled"@);
    let cap = HealRequestView::ReadPref("healing.max-attempts"@);
    let rest = HealRequestView::ReadPref("healing.cooldown-secs"@);
    let max_attempts = resolved_max_attempts(host.prefs.max_attempts);
    let first = first_step(report);
    if resolved_enabled(host.prefs.enabled) {
        let second = waiting(report, HealStageView::MaxAttempts, cap);
        let third = waiting(report, HealStageView::CooldownSecs { max_attempts }, rest);
        lemma_requests_of_decision(report, book, host);
        assert(requests(second, book, host) == seq![cap] + requests(third, book, host));
        assert(requests(first, book, host) == seq![on] + requests(second, book, host));
        assert(requests(first, book, host) =~= read_first() + asked_after_decision(
            book,
            report,
            host,
        ));
    } else {
        let end = skipped("healing disabled"@);
        assert(requests(end, book, host) =~= Seq::empty());
        assert(requests(first, book, host) == seq![on] + requests(end, book, host));
        assert(requests(first, book, host) =~= seq![on]);
    }
}

/// The side model is asked just where a run is healed, and once; and then it is the model
/// and the effort that the preferences come to, about the instruction and the failure of the
/// report.
pub proof fn law_side_model_is_asked_about_the_run(
    book: Map<Seq<char>, HealAttempt>,
    report: FailureReportView,
    host: HostAnswers,
)
    ensures
        ({
            let all = requests(first_step(report), book, host);
            let heals = resolved_enabled(host.prefs.enabled) && decided(book, report, host)
                == HealDecision::Heal;
            &&& !heals ==> forall|k: int|
                0 <= k < all.len() ==> !(#[trigger] all[k] is CallSideModel)
            &&& heals ==> exists|at: int|
                {
                    &&& 0 <= at < all.len()
                    &&& #[trigger] all[at] == (HealRequestView::CallSideModel {
                        model: resolved_diagnose_model(
                            host.prefs.diagnose_model,
                            host.default_model,
                        ),
                        effort: resolved_diagnose_effort(host.prefs.diagnose_effort),
                        system: HEAL_SYSTEM@,
                        user: diagnosis_message(report.instruction, report.failure),
                    })
                    &&& forall|k: int|
                        0 <= k < all.len() && k != at ==> !(#[trigger] all[k] is CallSideModel)
                }
        }),
{
    law_requests_come_in_order(book, report, host);
    let all = requests(first_step(report), book, host);
    if resolved_enabled(host.prefs.enabled) && decided(book, report, host) == HealDecision::Heal {
        let at = 6 + asked_for_a_model(host).len() as int;
        assert(all[at] == question(report, host));
        assert forall|k: int| 0 <= k < all.len() && k != at implies !(
        #[trigger] all[k] is CallSideModel) by {}
    }
}

/// The note of an escalation tells how many attempts were allowed.
pub proof fn law_note_tells_the_cap(max_attempts: u32)
    ensures
        ({
            let note = exhausted_note(max_attempts);
            let n = note.len() as int;
            &&& n > 57
            &&& note.take(16) == "It failed after "@
            &&& note.skip(n - 41) == " auto-fix attempt(s). Review it manually."@
            &&& unsigned_value(note.subrange(16, n - 41)) == Some(max_attempts as nat)
            &&& note.subrange(16, n - 41) == decimal(max_attempts as nat)
        }),
{
    let note = exhausted_note(max_attempts);
    let d = decimal(max_attempts as nat);
    law_decimal_reads_back(max_attempts as nat);
    law_decimal_has_no_zero_in_front(max_attempts as nat);
    reveal_strlit("It failed after ");
    reveal_strlit(" auto-fix attempt(s). Review it manually.");
    assert("It failed after "@.len() == 16);
    assert(" auto-fix attempt(s). Review it manually."@.len() == 41);
    let n = note.len() as int;
    assert(note.take(16) =~= "It failed after "@);
    assert(note.subrange(16, n - 41) =~= d);
    assert(note.skip(n - 41) =~= " auto-fix attempt(s). Review it manually."@);
}

/// What an evaluation comes to: nothing while healing is off; where the failure is not to be
/// healed, the reason; where the attempts are used up, an escalation of the source with the
/// cap; and where it is healed, a skip or, where the reply holds a diagnosis, a verdict on
/// the run. The record is that of the decision, and is not touched while healing is off.
pub proof fn law_what_an_evaluation_comes_to(
    book: Map<Seq<char>, HealAttempt>,
    report: FailureReportView,
    host: HostAnswers,
)
    ensures
        ({
            let (verdict, after) = driven(first_step(report), book, host);
            let on = resolved_enabled(host.prefs.enabled);
            let answer = decided(book, report, host);
            &&& !on ==> after == book && verdict == (HealVerdictView::Skip {
                reason: "healing disabled"@,
            })
            &&& on ==> after == recorded(book, report.source_id, answer, host.now_ms)
            &&& on && answer == HealDecision::GiveUp ==> (
            verdict matches HealVerdictView::QueueExhausted { source_id, note } && source_id
                == report.source_id && note == exhausted_note(
                resolved_max_attempts(host.prefs.max_attempts),
            ))
            &&& on && answer is Skip ==> (answer matches HealDecision::Skip(reason) && verdict == (
            HealVerdictView::Skip { reason: reason@ }))
            &&& on && answer == HealDecision::Heal && host.reply is None ==> verdict == (
            HealVerdictView::Skip { reason: "no diagnosis (model unreachable or empty)"@ })
            &&& on && answer == HealDecision::Heal ==> (host.reply matches Some(reply) ==> match diagnosis_of_reply(
                reply,
            ) {
                None => verdict == (HealVerdictView::Skip {
                    reason: "no diagnosis (model unreachable or empty)"@,
                }),
                Some((diagnosis, corrected)) => verdict == diagnosed(
                    report,
                    diagnosis,
                    corrected,
                    resolved_auto_decide(host.prefs.auto_decide),
                ),
            })
        }),
{
    law_evaluation_comes_to_the_verdict(book, report, host);
}

/// A run that is healed gets the diagnosis and the prompt of the reply: the agent is re-run
/// with the prompt, or the fix is proposed with both, as the preference says.
pub proof fn law_healed_run_gets_the_prompt_of_the_reply(
    book: Map<Seq<char>, HealAttempt>,
    report: FailureReportView,
    host: HostAnswers,
    agent_id: Option<Seq<char>>,
    object: Seq<char>,
    members: Map<Seq<char>, JsonView>,
    diagnosis: Seq<char>,
    corrected: Seq<char>,
)
    requires
        resolved_enabled(host.prefs.enabled),
        decided(book, report, host) == HealDecision::Heal,
        report.source == (HealSourceView::Agent { agent_id }),
        host.reply == Some(object),
        is_balanced(object),
        json_value(object) == Some(JsonView::Object(members)),
        text_under(members, "diagnosis"@) == Some(diagnosis),
        text_under(members, "corrected_prompt"@) == Some(corrected),
        trimmed(diagnosis).len() > 0,
        trimmed(corrected).len() > 0,
    ensures
        driven(first_step(report), book, host).0 == if resolved_auto_decide(
            host.prefs.auto_decide,
        ) {
            HealVerdictView::RerunAgent { agent_id, prompt: trimmed(corrected) }
        } else {
            HealVerdictView::QueueFix {
                source_id: report.source_id,
                agent_id,
                diagnosis: trimmed(diagnosis),
                corrected: trimmed(corrected),
            }
        },
{
    let nothing = Seq::<char>::empty();
    law_reply_is_read_for_both(nothing, object, nothing, members, diagnosis, corrected);
    assert(nothing + object + nothing =~= object);
    law_what_an_evaluation_comes_to(book, report, host);
    crate::text::lemma_trimmed_is_fixed(corrected);
}

/// The models of an evaluation under way hold what the values hold.
pub proof fn law_evaluation_models_are_faithful(
    run: HealRun,
    request: HealRequest,
    verdict: HealVerdict,
    key: &'static str,
    a: String,
    b: String,
    c: String,
    n: u32,
)
    ensures
        run@.report == run.report@,
        run@.stage == run.stage@,
        HealRequest::ReadPref(key)@ == HealRequestView::ReadPref(key@),
        HealRequest::SaveAttempts(a)@ == HealRequestView::SaveAttempts(json_value(a@)),
        HealRequest::ReadDefaultModel@ == HealRequestView::ReadDefaultModel,
        (HealRequest::CallSideModel { model: a, effort: b, system: key, user: c })@ == (
        HealRequestView::CallSideModel { model: a@, effort: b@, system: key@, user: c@ }),
        (HealStep::Continue { run, request })@ == (HealStepView::Continue {
            run: run@,
            request: request@,
        }),
        HealStep::Finished(verdict)@ == HealStepView::Finished(verdict@),
        HealStage::Enabled@ == HealStageView::Enabled,
        HealStage::MaxAttempts@ == HealStageView::MaxAttempts,
        (HealStage::CooldownSecs { max_attempts: n })@ == (HealStageView::CooldownSecs {
            max_attempts: n,
        }),
        HealStage::HealSaved@ == HealStageView::HealSaved,
        (HealStage::GiveUpSaved { max_attempts: n })@ == (HealStageView::GiveUpSaved {
            max_attempts: n,
        }),
        HealStage::Model@ == HealStageView::Model,
        HealStage::DefaultModel@ == HealStageView::DefaultModel,
        (HealStage::Effort { model: a })@ == (HealStageView::Effort { model: a@ }),
        HealStage::Reply@ == HealStageView::Reply,
        (HealStage::AutoDecide { diagnosis: a, corrected: b })@ == (HealStageView::AutoDecide {
            diagnosis: a@,
            corrected: b@,
        }),
{
}

} // verus!
