//! The self-healing loop for failed runs.
//!
//! When the run of an agent or a workflow fails, the loop asks a side model why, and
//! decides whether to re-run it with a corrected instruction, to propose that to the
//! user, to escalate, or to leave the run alone. So that a failing fix cannot keep itself going, a
//! heal re-run is never healed, each source is healed a bounded number of times with a
//! growing distance, and a source whose attempts are used up is escalated once.
//!
//! - [`decision`]: the rules, and what they promise over any sequence of failures;
//! - [`engine`]: the record of heals, and the course of one evaluation;
//! - [`overlap`]: evaluations that are under way at once;
//! - [`diagnosis`]: what is asked of the side model, and what its reply comes to;
//! - [`extract`]: the JSON object in a reply;
//! - [`dispatch`]: what a host does with a verdict;
//! - [`contracts`]: the verdict on the wire, and the bound on reported context;
//! - [`config`]: the preferences, and requests that change them;
//! - [`configure`]: the course of a configuration request;
//! - [`store`]: what is kept in files;
//! - [`api`], [`auth`], [`gateway`]: what the routes answer, who may ask, and how a
//!   completion is asked for;
//! - [`json`], [`text`], [`textmap`]: JSON trees, texts and maps keyed by texts.

pub mod api;
pub mod auth;
pub mod config;
pub mod configure;
pub mod contracts;
pub mod decision;
pub mod diagnosis;
pub mod dispatch;
pub mod engine;
pub mod extract;
pub mod gateway;
pub mod json;
pub mod overlap;
pub mod store;
pub mod text;
pub mod textmap;

pub use auth::bearer_ok;
pub use config::{
    resolve_auto_decide, resolve_config, resolve_enabled, set_config, HealingConfigBody,
    HealingConfigView, HEALING_AUTO_DECIDE_PREF, HEALING_COOLDOWN_SECS_PREF,
    HEALING_DIAGNOSE_EFFORT_PREF, HEALING_DIAGNOSE_MODEL_PREF, HEALING_ENABLED_PREF,
    HEALING_MAX_ATTEMPTS_PREF,
};
pub use contracts::{
    truncate_context, HealVerdict, HEAL_PREFIX, MAX_CONTEXT_CHARS, SOURCE_KIND_AGENT,
    SOURCE_KIND_WORKFLOW,
};
pub use decision::{decide_heal, HealAttempt, HealConfig, HealDecision};
pub use diagnosis::{FailureReport, HealSource};
pub use dispatch::{apply_verdict, HostAction};
pub use engine::{HealEngine, HealRequest, HealRun, HealStep};
pub use extract::extract_json_object;
pub use json::Json;
