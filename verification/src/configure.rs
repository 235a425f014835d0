//! The course of a configuration request.
//!
//! A request that changes preferences and one that only asks for the configuration take
//! the same course: a [`ConfigRun`] has the host write what the request asks for, reads
//! the six preferences, and answers with what they resolve to. Whether a write succeeds
//! does not matter to it: the answer tells what is in force.

use vstd::prelude::*;

use crate::api::config_body;
use crate::config::{
    config_wire, config_writes, holds, holds_number, law_config_is_told_field_by_field,
    law_config_request_takes_effect, law_fields_resolve_by_name, lemma_written_split, pref_in,
    prefs_in, resolve_config, resolved_auto_decide, resolved_config, resolved_cooldown_secs,
    resolved_diagnose_effort, resolved_diagnose_model, resolved_enabled, resolved_max_attempts,
    set_config, writes_view, written, HealingConfigBody, HealingConfigRequest, HealingPrefs,
    HealingPrefsModel, HEALING_AUTO_DECIDE_PREF, HEALING_COOLDOWN_SECS_PREF,
    HEALING_DIAGNOSE_EFFORT_PREF, HEALING_DIAGNOSE_MODEL_PREF, HEALING_ENABLED_PREF,
    HEALING_MAX_ATTEMPTS_PREF,
};
use crate::contracts::text_view;
use crate::json::{json_value, JsonView};
use crate::text::{is_blank, trimmed};

verus! {

/// The status of an answer: all is well.
pub const STATUS_OK: u16 = 200;

/// What a configuration request is waiting for.
#[derive(Debug, Clone, Copy, PartialEq, Eq, Structural)]
pub enum ConfigStage {
    Written,
    Enabled,
    AutoDecide,
    MaxAttempts,
    CooldownSecs,
    Model,
    DefaultModel,
    Effort,
}

/// A configuration request under way.
#[derive(Debug)]
pub struct ConfigRun {
    /// What is left to write, in order.
    pub pending: Vec<(&'static str, String)>,
    /// What was read.
    pub prefs: HealingPrefs,
    pub default_model: String,
    pub stage: ConfigStage,
}

/// The mathematical model of a configuration request under way.
pub struct ConfigRunView {
    pub pending: Seq<(Seq<char>, Seq<char>)>,
    pub prefs: HealingPrefsModel,
    pub default_model: Seq<char>,
    pub stage: ConfigStage,
}

impl View for ConfigRun {
    type V = ConfigRunView;

    open spec fn view(&self) -> ConfigRunView {
        ConfigRunView {
            pending: writes_view(self.pending@),
            prefs: self.prefs@,
            default_model: self.default_model@,
            stage: self.stage,
        }
    }
}

/// What a configuration request needs from its host.
#[derive(Debug, PartialEq, Eq)]
pub enum ConfigNeed {
    /// Set a preference. The answer does not matter.
    WritePref { key: &'static str, value: String },
    /// The preference of this name, where it is set.
    ReadPref(&'static str),
    /// The default model.
    ReadDefaultModel,
}

/// The mathematical model of what a configuration request needs.
pub enum ConfigNeedView {
    WritePref { key: Seq<char>, value: Seq<char> },
    ReadPref(Seq<char>),
    ReadDefaultModel,
}

impl View for ConfigNeed {
    type V = ConfigNeedView;

    open spec fn view(&self) -> ConfigNeedView {
        match *self {
            ConfigNeed::WritePref { key, value } => ConfigNeedView::WritePref {
                key: key@,
                value: value@,
            },
            ConfigNeed::ReadPref(key) => ConfigNeedView::ReadPref(key@),
            ConfigNeed::ReadDefaultModel => ConfigNeedView::ReadDefaultModel,
        }
    }
}

/// Where a configuration request stands: it needs something, or it is answered.
#[derive(Debug)]
pub enum ConfigStep {
    Continue { run: ConfigRun, need: ConfigNeed },
    Answered { status: u16, body: String },
}

/// The mathematical model of where a configuration request stands. The body of the answer
/// is modelled by what it reads as.
pub enum ConfigStepView {
    Continue { run: ConfigRunView, need: ConfigNeedView },
    Answered { status: u16, body: Option<JsonView> },
}

impl View for ConfigStep {
    type V = ConfigStepView;

    open spec fn view(&self) -> ConfigStepView {
        match *self {
            ConfigStep::Continue { run, need } => ConfigStepView::Continue {
                run: run@,
                need: need@,
            },
            ConfigStep::Answered { status, body } => ConfigStepView::Answered {
                status,
                body: json_value(body@),
            },
        }
    }
}

/// Nothing read yet.
pub open spec fn no_prefs() -> HealingPrefsModel {
    HealingPrefsModel {
        enabled: None,
        auto_decide: None,
        max_attempts: None,
        cooldown_secs: None,
        diagnose_model: None,
        diagnose_effort: None,
    }
}

/// A request that goes on to the stage `stage` and reads a preference.
pub open spec fn reads(
    run: ConfigRunView,
    prefs: HealingPrefsModel,
    stage: ConfigStage,
    key: Seq<char>,
) -> ConfigStepView {
    ConfigStepView::Continue {
        run: ConfigRunView { prefs, stage, ..run },
        need: ConfigNeedView::ReadPref(key),
    }
}

/// A request with `pending` left to write.
pub open spec fn writing(run: ConfigRunView) -> ConfigStepView {
    if run.pending.len() == 0 {
        reads(run, run.prefs, ConfigStage::Enabled, HEALING_ENABLED_PREF@)
    } else {
        ConfigStepView::Continue {
            run: ConfigRunView { pending: run.pending.drop_first(), ..run },
            need: ConfigNeedView::WritePref { key: run.pending[0].0, value: run.pending[0].1 },
        }
    }
}

/// How a request that asks for `request` begins.
pub open spec fn configuring(request: HealingConfigRequest) -> ConfigStepView {
    writing(
        ConfigRunView {
            pending: config_writes(request),
            prefs: no_prefs(),
            default_model: Seq::empty(),
            stage: ConfigStage::Written,
        },
    )
}

/// Where a request stands after an answer of its host.
pub open spec fn next_config(run: ConfigRunView, answer: Option<Seq<char>>) -> ConfigStepView {
    let prefs = run.prefs;
    match run.stage {
        ConfigStage::Written => writing(run),
        ConfigStage::Enabled => reads(
            run,
            HealingPrefsModel { enabled: answer, ..prefs },
            ConfigStage::AutoDecide,
            HEALING_AUTO_DECIDE_PREF@,
        ),
        ConfigStage::AutoDecide => reads(
            run,
            HealingPrefsModel { auto_decide: answer, ..prefs },
            ConfigStage::MaxAttempts,
            HEALING_MAX_ATTEMPTS_PREF@,
        ),
        ConfigStage::MaxAttempts => reads(
            run,
            HealingPrefsModel { max_attempts: answer, ..prefs },
            ConfigStage::CooldownSecs,
            HEALING_COOLDOWN_SECS_PREF@,
        ),
        ConfigStage::CooldownSecs => reads(
            run,
            HealingPrefsModel { cooldown_secs: answer, ..prefs },
            ConfigStage::Model,
            HEALING_DIAGNOSE_MODEL_PREF@,
        ),
        ConfigStage::Model => {
            let read = HealingPrefsModel { diagnose_model: answer, ..prefs };
            if answer matches Some(model) && trimmed(model).len() > 0 {
                reads(run, read, ConfigStage::Effort, HEALING_DIAGNOSE_EFFORT_PREF@)
            } else {
                ConfigStepView::Continue {
                    run: ConfigRunView { prefs: read, stage: ConfigStage::DefaultModel, ..run },
                    need: ConfigNeedView::ReadDefaultModel,
                }
            }
        },
        ConfigStage::DefaultModel => reads(
            ConfigRunView {
                default_model: match answer {
                    Some(model) => model,
                    None => Seq::empty(),
                },
                ..run
            },
            prefs,
            ConfigStage::Effort,
            HEALING_DIAGNOSE_EFFORT_PREF@,
        ),
        ConfigStage::Effort => ConfigStepView::Answered {
            status: STATUS_OK,
            body: Some(
                config_wire(
                    resolved_config(
                        HealingPrefsModel { diagnose_effort: answer, ..prefs },
                        run.default_model,
                    ),
                ),
            ),
        },
    }
}

fn read(run: ConfigRun, key: &'static str) -> (step: ConfigStep)
    ensures
        step@ == reads(run@, run@.prefs, run@.stage, key@),
{
    ConfigStep::Continue { run, need: ConfigNeed::ReadPref(key) }
}

fn write(run: ConfigRun) -> (step: ConfigStep)
    ensures
        step@ == writing(run@),
{
    let mut run = run;
    let ghost before = run.pending@;
    if run.pending.len() == 0 {
        run.stage = ConfigStage::Enabled;
        read(run, HEALING_ENABLED_PREF)
    } else {
        let (key, value) = run.pending.remove(0);
        assert(writes_view(run.pending@) =~= writes_view(before).drop_first());
        assert(writes_view(before)[0] == (key@, value@));
        ConfigStep::Continue { run, need: ConfigNeed::WritePref { key, value } }
    }
}

impl ConfigRun {
    /// Begins a request. Without anything in it, it only asks for the configuration.
    pub fn begin(body: &HealingConfigBody) -> (step: ConfigStep)
        ensures
            step@ == configuring(body@),
    {
        write(
            ConfigRun {
                pending: set_config(body),
                prefs: HealingPrefs {
                    enabled: None,
                    auto_decide: None,
                    max_attempts: None,
                    cooldown_secs: None,
                    diagnose_model: None,
                    diagnose_effort: None,
                },
                default_model: String::new(),
                stage: ConfigStage::Written,
            },
        )
    }

    /// Goes on with the answer to what was needed last.
    pub fn step(self, answer: Option<String>) -> (step: ConfigStep)
        ensures
            step@ == next_config(self@, text_view(answer)),
    {
        let mut run = self;
        match run.stage {
            ConfigStage::Written => write(run),
            ConfigStage::Enabled => {
                run.prefs.enabled = answer;
                run.stage = ConfigStage::AutoDecide;
                read(run, HEALING_AUTO_DECIDE_PREF)
            },
            ConfigStage::AutoDecide => {
                run.prefs.auto_decide = answer;
                run.stage = ConfigStage::MaxAttempts;
                read(run, HEALING_MAX_ATTEMPTS_PREF)
            },
            ConfigStage::MaxAttempts => {
                run.prefs.max_attempts = answer;
                run.stage = ConfigStage::CooldownSecs;
                read(run, HEALING_COOLDOWN_SECS_PREF)
            },
            ConfigStage::CooldownSecs => {
                run.prefs.cooldown_secs = answer;
                run.stage = ConfigStage::Model;
                read(run, HEALING_DIAGNOSE_MODEL_PREF)
            },
            ConfigStage::Model => {
                let is_set: bool = match &answer {
                    Some(model) => !is_blank(model.as_str()),
                    None => false,
                };
                run.prefs.diagnose_model = answer;
                if is_set {
                    run.stage = ConfigStage::Effort;
                    read(run, HEALING_DIAGNOSE_EFFORT_PREF)
                } else {
                    run.stage = ConfigStage::DefaultModel;
                    ConfigStep::Continue { run, need: ConfigNeed::ReadDefaultModel }
                }
            },
            ConfigStage::DefaultModel => {
                run.default_model = match answer {
                    Some(model) => model,
                    None => String::new(),
                };
                run.stage = ConfigStage::Effort;
                read(run, HEALING_DIAGNOSE_EFFORT_PREF)
            },
            ConfigStage::Effort => {
                run.prefs.diagnose_effort = answer;
                let config = resolve_config(&run.prefs, run.default_model.as_str());
                ConfigStep::Answered { status: STATUS_OK, body: config_body(&config) }
            },
        }
    }
}

// ---------------------------------------------------------------------------
// Laws
// ---------------------------------------------------------------------------

/// How many more answers a request can take at most.
pub open spec fn config_answers_left(run: ConfigRunView) -> nat {
    match run.stage {
        ConfigStage::Written => 8 + run.pending.len(),
        ConfigStage::Enabled => 7,
        ConfigStage::AutoDecide => 6,
        ConfigStage::MaxAttempts => 5,
        ConfigStage::CooldownSecs => 4,
        ConfigStage::Model => 3,
        ConfigStage::DefaultModel => 2,
        ConfigStage::Effort => 1,
    }
}

/// A host that keeps preferences, as far as a configuration request sees it.
pub struct ConfigHost {
    pub store: Map<Seq<char>, Seq<char>>,
    pub default_model: Seq<char>,
    /// What it answers to setting a preference, by name: an error where it could not be
    /// saved.
    pub reports: spec_fn(Seq<char>) -> Option<Seq<char>>,
}

/// The answer of a host, and the host after it. A preference is set whether or not it can
/// be saved.
pub open spec fn config_answer(host: ConfigHost, need: ConfigNeedView) -> (
    Option<Seq<char>>,
    ConfigHost,
) {
    match need {
        ConfigNeedView::WritePref { key, value } => (
            (host.reports)(key),
            ConfigHost { store: host.store.insert(key, value), ..host },
        ),
        ConfigNeedView::ReadPref(key) => (pref_in(host.store, key), host),
        ConfigNeedView::ReadDefaultModel => (Some(host.default_model), host),
    }
}

/// The status and the body that a request is answered with in the end, and the preferences
/// that are in force then.
pub open spec fn answered(step: ConfigStepView, host: ConfigHost) -> (
    u16,
    Option<JsonView>,
    Map<Seq<char>, Seq<char>>,
)
    decreases
            match step {
                ConfigStepView::Continue { run, .. } => config_answers_left(run) + 1,
                ConfigStepView::Answered { .. } => 0,
            },
{
    match step {
        ConfigStepView::Answered { status, body } => (status, body, host.store),
        ConfigStepView::Continue { run, need } => {
            let (answer, after) = config_answer(host, need);
            answered(next_config(run, answer), after)
        },
    }
}

/// A request has written everything before it reads anything.
proof fn lemma_writes_come_first(run: ConfigRunView, host: ConfigHost)
    requires
        run.stage == ConfigStage::Written,
    ensures
        answered(writing(run), host) == answered(
            writing(ConfigRunView { pending: Seq::empty(), ..run }),
            ConfigHost { store: written(host.store, run.pending), ..host },
        ),
    decreases run.pending.len(),
{
    if run.pending.len() == 0 {
        assert(run.pending =~= Seq::empty());
    } else {
        let first = run.pending[0];
        let rest = run.pending.drop_first();
        let after = ConfigHost { store: host.store.insert(first.0, first.1), ..host };
        lemma_writes_come_first(ConfigRunView { pending: rest, ..run }, after);
        lemma_written_split(host.store, seq![first], rest);
        assert(seq![first] + rest =~= run.pending);
        assert(seq![first].drop_last() =~= Seq::empty());
        assert(written(host.store, seq![first].drop_last()) == host.store);
        assert(written(host.store, seq![first]) == after.store);
    }
}

/// A configuration request is always answered with success and with the configuration that
/// is in force after it, whatever became of saving it; and what is in force after it is
/// what was in force before, with what it asks for written to it.
pub proof fn law_config_answer_tells_what_is_in_force(
    request: HealingConfigRequest,
    host: ConfigHost,
)
    ensures
        ({
            let store = written(host.store, config_writes(request));
            answered(configuring(request), host) == (
                STATUS_OK,
                Some(config_wire(resolved_config(prefs_in(store), host.default_model))),
                store,
            )
        }),
{
    let run = ConfigRunView {
        pending: config_writes(request),
        prefs: no_prefs(),
        default_model: Seq::empty(),
        stage: ConfigStage::Written,
    };
    lemma_writes_come_first(run, host);
    reveal_with_fuel(answered, 9);
}

/// Asking for the configuration after a request gives what the request was answered with.
pub proof fn law_config_is_what_the_request_was_told(
    request: HealingConfigRequest,
    host: ConfigHost,
    nothing: HealingConfigRequest,
)
    requires
        config_writes(nothing).len() == 0,
    ensures
        ({
            let (status, body, store) = answered(configuring(request), host);
            answered(configuring(nothing), ConfigHost { store, ..host }) == (status, body, store)
        }),
{
    law_config_answer_tells_what_is_in_force(request, host);
    let store = written(host.store, config_writes(request));
    law_config_answer_tells_what_is_in_force(nothing, ConfigHost { store, ..host });
}

/// The answer to a request tells each value that the request gave, under the name of its
/// field: a switch as it is, a cap or a cooldown in range as the number that was sent, a
/// model that is not blank and an effort to the letter.
pub proof fn law_answer_tells_what_was_asked_for(request: HealingConfigRequest, host: ConfigHost)
    ensures
        ({
            let (status, body, _) = answered(configuring(request), host);
            &&& status == 200
            &&& body matches Some(json) && {
                &&& request.enabled matches Some(b) ==> holds(json, "enabled"@, JsonView::Bool(b))
                &&& request.auto_decide matches Some(b) ==> holds(
                    json,
                    "auto_decide"@,
                    JsonView::Bool(b),
                )
                &&& request.max_attempts matches Some(n) ==> (0 < n <= u32::MAX ==> holds_number(
                    json,
                    "max_attempts"@,
                    n as int,
                ))
                &&& request.cooldown_secs matches Some(n) ==> (n >= 0 ==> holds_number(
                    json,
                    "cooldown_secs"@,
                    n as int,
                ))
                &&& request.diagnose_model matches Some(t) ==> (trimmed(t).len() > 0 ==> holds(
                    json,
                    "diagnose_model"@,
                    JsonView::Text(t),
                ))
                &&& request.diagnose_effort matches Some(t) ==> holds(
                    json,
                    "diagnose_effort"@,
                    JsonView::Text(t),
                )
            }
        }),
{
    law_config_answer_tells_what_is_in_force(request, host);
    law_config_request_takes_effect(host.store, request, host.default_model);
    let store = written(host.store, config_writes(request));
    law_config_is_told_field_by_field(resolved_config(prefs_in(store), host.default_model));
}

/// The answer to a request tells each value that is in force, under the name of its field,
/// also where the request gave none.
pub proof fn law_answer_tells_each_field(request: HealingConfigRequest, host: ConfigHost)
    ensures
        ({
            let (_, body, store) = answered(configuring(request), host);
            &&& body matches Some(json) && {
                &&& holds(
                    json,
                    "enabled"@,
                    JsonView::Bool(resolved_enabled(pref_in(store, "healing.enabled"@))),
                )
                &&& holds(
                    json,
                    "auto_decide"@,
                    JsonView::Bool(resolved_auto_decide(pref_in(store, "healing.auto-decide"@))),
                )
                &&& holds_number(
                    json,
                    "max_attempts"@,
                    resolved_max_attempts(pref_in(store, "healing.max-attempts"@)) as int,
                )
                &&& holds_number(
                    json,
                    "cooldown_secs"@,
                    resolved_cooldown_secs(pref_in(store, "healing.cooldown-secs"@)) as int,
                )
                &&& holds(
                    json,
                    "diagnose_model"@,
                    JsonView::Text(
                        resolved_diagnose_model(
                            pref_in(store, "healing.diagnose-model"@),
                            host.default_model,
                        ),
                    ),
                )
                &&& holds(
                    json,
                    "diagnose_effort"@,
                    JsonView::Text(
                        resolved_diagnose_effort(pref_in(store, "healing.diagnose-effort"@)),
                    ),
                )
            }
        }),
{
    law_config_answer_tells_what_is_in_force(request, host);
    let store = written(host.store, config_writes(request));
    law_fields_resolve_by_name(store, host.default_model);
    law_config_is_told_field_by_field(resolved_config(prefs_in(store), host.default_model));
}

/// The models of a request under way hold what the values hold.
pub proof fn law_request_models_are_faithful(
    run: ConfigRun,
    need: ConfigNeed,
    key: &'static str,
    value: String,
    status: u16,
)
    ensures
        run@.pending.len() == run.pending@.len(),
        forall|k: int|
            0 <= k < run.pending@.len() ==> #[trigger] run@.pending[k] == (
                run.pending@[k].0@,
                run.pending@[k].1@,
            ),
        run@.prefs == run.prefs@,
        run@.default_model == run.default_model@,
        run@.stage == run.stage,
        (ConfigNeed::WritePref { key, value })@ == (ConfigNeedView::WritePref {
            key: key@,
            value: value@,
        }),
        ConfigNeed::ReadPref(key)@ == ConfigNeedView::ReadPref(key@),
        ConfigNeed::ReadDefaultModel@ == ConfigNeedView::ReadDefaultModel,
        (ConfigStep::Continue { run, need })@ == (ConfigStepView::Continue {
            run: run@,
            need: need@,
        }),
        (ConfigStep::Answered { status, body: value })@ == (ConfigStepView::Answered {
            status,
            body: json_value(value@),
        }),
{
}

} // verus!
