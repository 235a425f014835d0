//! What a host does with a verdict.

use vstd::prelude::*;
use vstd::string::StringExecFns;

use crate::contracts::{text_view, HealVerdict, HealVerdictView, HEAL_PREFIX};
use crate::decision::{decision, HealAttempt, HealConfig};

verus! {

/// The action of a host that a verdict asks for.
#[derive(Debug, PartialEq, Eq)]
pub enum HostAction {
    /// No action; the reason is worth logging.
    Nothing { reason: String },
    /// Re-run the agent under the id `run_id` with the prompt `prompt`.
    RerunAgent { agent_id: Option<String>, run_id: String, prompt: String },
    /// Re-run the workflow from scratch.
    RerunWorkflow { source_id: String },
    /// Propose a fix of an agent run, once for each source.
    QueueHealFix {
        source_id: String,
        agent_id: Option<String>,
        diagnosis: String,
        corrected: String,
    },
    /// Propose a re-run of a workflow, once for each source.
    QueueHealWorkflow { source_id: String, diagnosis: String },
    /// Ask for a review of a source that is given up.
    QueueHealExhausted { source_id: String, note: String },
}

/// The mathematical model of the action of a host.
pub enum HostActionView {
    Nothing { reason: Seq<char> },
    RerunAgent { agent_id: Option<Seq<char>>, run_id: Seq<char>, prompt: Seq<char> },
    RerunWorkflow { source_id: Seq<char> },
    QueueHealFix {
        source_id: Seq<char>,
        agent_id: Option<Seq<char>>,
        diagnosis: Seq<char>,
        corrected: Seq<char>,
    },
    QueueHealWorkflow { source_id: Seq<char>, diagnosis: Seq<char> },
    QueueHealExhausted { source_id: Seq<char>, note: Seq<char> },
}

impl View for HostAction {
    type V = HostActionView;

    open spec fn view(&self) -> HostActionView {
        match *self {
            HostAction::Nothing { reason } => HostActionView::Nothing { reason: reason@ },
            HostAction::RerunAgent { agent_id, run_id, prompt } => HostActionView::RerunAgent {
                agent_id: text_view(agent_id),
                run_id: run_id@,
                prompt: prompt@,
            },
            HostAction::RerunWorkflow { source_id } => HostActionView::RerunWorkflow {
                source_id: source_id@,
            },
            HostAction::QueueHealFix { source_id, agent_id, diagnosis, corrected } => {
                HostActionView::QueueHealFix {
                    source_id: source_id@,
                    agent_id: text_view(agent_id),
                    diagnosis: diagnosis@,
                    corrected: corrected@,
                }
            },
            HostAction::QueueHealWorkflow { source_id, diagnosis } => {
                HostActionView::QueueHealWorkflow { source_id: source_id@, diagnosis: diagnosis@ }
            },
            HostAction::QueueHealExhausted { source_id, note } => {
                HostActionView::QueueHealExhausted { source_id: source_id@, note: note@ }
            },
        }
    }
}

/// The id of a heal re-run.
pub open spec fn minted(token: Seq<char>) -> Seq<char> {
    HEAL_PREFIX@ + token
}

/// The action that a verdict asks for, with `token` to tell the re-run from others.
pub open spec fn dispatched(verdict: HealVerdictView, token: Seq<char>) -> HostActionView {
    match verdict {
        HealVerdictView::Skip { reason } => HostActionView::Nothing { reason },
        HealVerdictView::RerunAgent { agent_id, prompt } => HostActionView::RerunAgent {
            agent_id,
            run_id: minted(token),
            prompt,
        },
        HealVerdictView::RerunWorkflow { source_id } => HostActionView::RerunWorkflow {
            source_id,
        },
        HealVerdictView::QueueFix { source_id, agent_id, diagnosis, corrected } => {
            HostActionView::QueueHealFix { source_id, agent_id, diagnosis, corrected }
        },
        HealVerdictView::QueueWorkflow { source_id, diagnosis } => {
            HostActionView::QueueHealWorkflow { source_id, diagnosis }
        },
        HealVerdictView::QueueExhausted { source_id, note } => HostActionView::QueueHealExhausted {
            source_id,
            note,
        },
        HealVerdictView::Unknown => HostActionView::Nothing { reason: "unknown action"@ },
    }
}

/// Whether a text is a random UUID in its simple form: 32 hexadecimal digits in lower
/// case, with the version and the variant in their places.
pub open spec fn is_simple_uuid(s: Seq<char>) -> bool {
    &&& s.len() == 32
    &&& forall|i: int|
        0 <= i < s.len() ==> ('0' <= #[trigger] s[i] <= '9' || 'a' <= s[i] <= 'f')
    &&& s[12] == '4'
    &&& (s[16] == '8' || s[16] == '9' || s[16] == 'a' || s[16] == 'b')
}

/// Draws a random UUID with `uuid::Uuid::new_v4` and writes it with `Uuid::simple`.
/// Claims the form of the text; which UUID it is rests on chance.
#[verifier::external_body]
fn fresh_token() -> (token: String)
    ensures
        is_simple_uuid(token@),
{
    uuid::Uuid::new_v4().simple().to_string()
}

/// The action that `verdict` asks for, with `token` to tell the re-run from others.
pub fn action_of(verdict: HealVerdict, token: &str) -> (action: HostAction)
    ensures
        action@ == dispatched(verdict@, token@),
{
    match verdict {
        HealVerdict::Skip { reason } => HostAction::Nothing { reason },
        HealVerdict::RerunAgent { agent_id, prompt } => HostAction::RerunAgent {
            agent_id,
            run_id: HEAL_PREFIX.to_owned().concat(token),
            prompt,
        },
        HealVerdict::RerunWorkflow { source_id } => HostAction::RerunWorkflow { source_id },
        HealVerdict::QueueFix { source_id, agent_id, diagnosis, corrected } => {
            HostAction::QueueHealFix { source_id, agent_id, diagnosis, corrected }
        },
        HealVerdict::QueueWorkflow { source_id, diagnosis } => HostAction::QueueHealWorkflow {
            source_id,
            diagnosis,
        },
        HealVerdict::QueueExhausted { source_id, note } => HostAction::QueueHealExhausted {
            source_id,
            note,
        },
        HealVerdict::Unknown => HostAction::Nothing { reason: "unknown action".to_owned() },
    }
}

/// The action that `verdict` asks for. An agent is re-run under a fresh id that marks
/// the run as a heal re-run.
pub fn apply_verdict(verdict: HealVerdict) -> (action: HostAction)
    ensures
        exists|token: Seq<char>|
            is_simple_uuid(token) && action@ == #[trigger] dispatched(verdict@, token),
{
    let token: String = fresh_token();
    action_of(verdict, token.as_str())
}

/// A run under a minted id is never healed: the marker that is put on a re-run is the
/// one that the decision looks for.
pub proof fn law_minted_run_is_never_healed(
    verdict: HealVerdictView,
    token: Seq<char>,
    attempt: Option<HealAttempt>,
    cfg: HealConfig,
    now_ms: i64,
)
    ensures
        dispatched(verdict, token) matches HostActionView::RerunAgent { run_id, .. }
            ==> decision(run_id, attempt, cfg, now_ms) is Skip,
{
    assert(HEAL_PREFIX@.is_prefix_of(minted(token)));
}

/// Re-runs with different tokens have different ids.
pub proof fn law_minted_ids_differ(a: Seq<char>, b: Seq<char>)
    requires
        a != b,
    ensures
        minted(a) != minted(b),
{
    if minted(a) == minted(b) {
        let n = HEAL_PREFIX@.len() as int;
        assert(minted(a).skip(n) =~= a);
        assert(minted(b).skip(n) =~= b);
    }
}

/// A verdict to skip, and one with an action that is not known, ask for nothing.
pub proof fn law_skip_and_unknown_do_nothing(verdict: HealVerdictView, token: Seq<char>)
    ensures
        dispatched(verdict, token) is Nothing <==> verdict is Skip || verdict is Unknown,
{
}

/// The action carries over the fields of the verdict, each as it is; a re-run of an agent
/// has an id that is the marker of heal re-runs with the token behind it.
pub proof fn law_action_carries_the_verdict(verdict: HealVerdictView, token: Seq<char>)
    ensures
        match (verdict, dispatched(verdict, token)) {
            (
                HealVerdictView::RerunAgent { agent_id, prompt },
                HostActionView::RerunAgent { agent_id: id, run_id, prompt: p },
            ) => id == agent_id && p == prompt && run_id == "healrun_"@ + token,
            (
                HealVerdictView::RerunWorkflow { source_id },
                HostActionView::RerunWorkflow { source_id: s },
            ) => s == source_id,
            (
                HealVerdictView::QueueFix { source_id, agent_id, diagnosis, corrected },
                HostActionView::QueueHealFix {
                    source_id: s,
                    agent_id: id,
                    diagnosis: d,
                    corrected: c,
                },
            ) => s == source_id && id == agent_id && d == diagnosis && c == corrected,
            (
                HealVerdictView::QueueWorkflow { source_id, diagnosis },
                HostActionView::QueueHealWorkflow { source_id: s, diagnosis: d },
            ) => s == source_id && d == diagnosis,
            (
                HealVerdictView::QueueExhausted { source_id, note },
                HostActionView::QueueHealExhausted { source_id: s, note: n },
            ) => s == source_id && n == note,
            (HealVerdictView::Skip { reason }, HostActionView::Nothing { reason: r }) => r == reason,
            (HealVerdictView::Unknown, HostActionView::Nothing { .. }) => true,
            _ => false,
        },
{
}

/// The model of an action holds what the action holds.
pub proof fn law_action_models_are_faithful(
    a: String,
    b: String,
    c: String,
    id: Option<String>,
)
    ensures
        (HostAction::Nothing { reason: a })@ == (HostActionView::Nothing { reason: a@ }),
        (HostAction::RerunAgent { agent_id: id, run_id: a, prompt: b })@ == (
        HostActionView::RerunAgent { agent_id: text_view(id), run_id: a@, prompt: b@ }),
        (HostAction::RerunWorkflow { source_id: a })@ == (HostActionView::RerunWorkflow {
            source_id: a@,
        }),
        (HostAction::QueueHealFix { source_id: a, agent_id: id, diagnosis: b, corrected: c })@ == (
        HostActionView::QueueHealFix {
            source_id: a@,
            agent_id: text_view(id),
            diagnosis: b@,
            corrected: c@,
        }),
        (HostAction::QueueHealWorkflow { source_id: a, diagnosis: b })@ == (
        HostActionView::QueueHealWorkflow { source_id: a@, diagnosis: b@ }),
        (HostAction::QueueHealExhausted { source_id: a, note: b })@ == (
        HostActionView::QueueHealExhausted { source_id: a@, note: b@ }),
{
}

} // verus!
