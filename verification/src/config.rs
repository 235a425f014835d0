//! The `healing.*` preferences: how raw values resolve to a configuration, and which
//! of them a configuration request writes.

use vstd::prelude::*;

use crate::contracts::text_view;
use crate::decision::HealConfig;
use crate::json::{put, signed_number, unsigned_number, Json, JsonView};
use crate::text::{
    ascii_lowered, decimal, is_blank, is_word, parse_signed, parse_unsigned, render_signed,
    render_unsigned, signed_decimal, signed_value, trimmed, unsigned_up_to,
};

verus! {

// ---------------------------------------------------------------------------
// Names and defaults
// ---------------------------------------------------------------------------

/// Master switch of the loop. On unless it is set otherwise.
pub const HEALING_ENABLED_PREF: &'static str = "healing.enabled";

/// Whether a fix is applied rather than queued. Off unless it is set otherwise.
pub const HEALING_AUTO_DECIDE_PREF: &'static str = "healing.auto-decide";

/// How many times a source is healed before it is given up.
pub const HEALING_MAX_ATTEMPTS_PREF: &'static str = "healing.max-attempts";

/// The rest of a source after a heal, in seconds, scaled by the number of its heals.
pub const HEALING_COOLDOWN_SECS_PREF: &'static str = "healing.cooldown-secs";

/// Model of the diagnosis call. Blank means the default model.
pub const HEALING_DIAGNOSE_MODEL_PREF: &'static str = "healing.diagnose-model";

/// Reasoning effort of the diagnosis call.
pub const HEALING_DIAGNOSE_EFFORT_PREF: &'static str = "healing.diagnose-effort";

pub const DEFAULT_MAX_ATTEMPTS: u32 = 2;

pub const DEFAULT_COOLDOWN_SECS: i64 = 60;

// ---------------------------------------------------------------------------
// Resolving one preference
// ---------------------------------------------------------------------------

/// The characters of an optional text.
pub open spec fn str_view(text: Option<&str>) -> Option<Seq<char>> {
    match text {
        Some(t) => Some(t@),
        None => None,
    }
}

/// The spellings of true.
pub open spec fn is_truthy(s: Seq<char>) -> bool {
    let word = ascii_lowered(trimmed(s));
    word == "1"@ || word == "true"@ || word == "yes"@ || word == "on"@
}

/// Whether a preference value spells true.
pub fn truthy(v: &str) -> (answer: bool)
    ensures
        answer == is_truthy(v@),
{
    is_word(v, "1") || is_word(v, "true") || is_word(v, "yes") || is_word(v, "on")
}

pub open spec fn resolved_enabled(pref: Option<Seq<char>>) -> bool {
    match pref {
        Some(v) => is_truthy(v),
        None => true,
    }
}

/// The master switch: on where it is unset.
pub fn resolve_enabled(pref: Option<&str>) -> (enabled: bool)
    ensures
        enabled == resolved_enabled(str_view(pref)),
{
    match pref {
        Some(v) => truthy(v),
        None => true,
    }
}

pub open spec fn resolved_auto_decide(pref: Option<Seq<char>>) -> bool {
    match pref {
        Some(v) => is_truthy(v),
        None => false,
    }
}

/// Whether fixes are applied: not where it is unset.
pub fn resolve_auto_decide(pref: Option<&str>) -> (auto: bool)
    ensures
        auto == resolved_auto_decide(str_view(pref)),
{
    match pref {
        Some(v) => truthy(v),
        None => false,
    }
}

pub open spec fn resolved_max_attempts(pref: Option<Seq<char>>) -> u32 {
    match pref {
        Some(v) => match unsigned_up_to(v, u32::MAX as nat) {
            Some(n) => if n > 0 {
                n as u32
            } else {
                DEFAULT_MAX_ATTEMPTS
            },
            None => DEFAULT_MAX_ATTEMPTS,
        },
        None => DEFAULT_MAX_ATTEMPTS,
    }
}

/// The attempt cap: the default where it is unset, no number, or zero.
pub fn resolve_max_attempts(pref: Option<&str>) -> (max_attempts: u32)
    ensures
        max_attempts == resolved_max_attempts(str_view(pref)),
        max_attempts > 0,
{
    match pref {
        Some(v) => match parse_unsigned(v, u32::MAX as u64) {
            Some(n) => if n > 0 {
                n as u32
            } else {
                DEFAULT_MAX_ATTEMPTS
            },
            None => DEFAULT_MAX_ATTEMPTS,
        },
        None => DEFAULT_MAX_ATTEMPTS,
    }
}

pub open spec fn resolved_cooldown_secs(pref: Option<Seq<char>>) -> i64 {
    match pref {
        Some(v) => match signed_value(v) {
            Some(n) => if 0 <= n <= i64::MAX {
                n as i64
            } else {
                DEFAULT_COOLDOWN_SECS
            },
            None => DEFAULT_COOLDOWN_SECS,
        },
        None => DEFAULT_COOLDOWN_SECS,
    }
}

/// The cooldown: the default where it is unset, no number, or negative.
pub fn resolve_cooldown_secs(pref: Option<&str>) -> (cooldown_secs: i64)
    ensures
        cooldown_secs == resolved_cooldown_secs(str_view(pref)),
        cooldown_secs >= 0,
{
    match pref {
        Some(v) => match parse_signed(v) {
            Some(n) => if n >= 0 {
                n
            } else {
                DEFAULT_COOLDOWN_SECS
            },
            None => DEFAULT_COOLDOWN_SECS,
        },
        None => DEFAULT_COOLDOWN_SECS,
    }
}

pub open spec fn resolved_diagnose_model(
    pref: Option<Seq<char>>,
    default_model: Seq<char>,
) -> Seq<char> {
    match pref {
        Some(v) => if trimmed(v).len() == 0 {
            default_model
        } else {
            v
        },
        None => default_model,
    }
}

/// The diagnosis model: the default where it is unset or blank.
pub fn resolve_diagnose_model(pref: Option<&str>, default_model: &str) -> (model: String)
    ensures
        model@ == resolved_diagnose_model(str_view(pref), default_model@),
{
    match pref {
        Some(v) => if is_blank(v) {
            default_model.to_owned()
        } else {
            v.to_owned()
        },
        None => default_model.to_owned(),
    }
}

pub open spec fn resolved_diagnose_effort(pref: Option<Seq<char>>) -> Seq<char> {
    match pref {
        Some(v) => v,
        None => Seq::empty(),
    }
}

/// The diagnosis effort: empty where it is unset.
pub fn resolve_diagnose_effort(pref: Option<&str>) -> (effort: String)
    ensures
        effort@ == resolved_diagnose_effort(str_view(pref)),
{
    match pref {
        Some(v) => v.to_owned(),
        None => String::new(),
    }
}

// ---------------------------------------------------------------------------
// The whole configuration
// ---------------------------------------------------------------------------

impl HealConfig {
    /// The bounds that two raw preferences resolve to.
    pub fn resolve(max_attempts: Option<&str>, cooldown_secs: Option<&str>) -> (cfg: HealConfig)
        ensures
            cfg == resolved_bounds(str_view(max_attempts), str_view(cooldown_secs)),
    {
        HealConfig {
            max_attempts: resolve_max_attempts(max_attempts),
            cooldown_secs: resolve_cooldown_secs(cooldown_secs),
        }
    }
}

pub open spec fn resolved_bounds(
    max_attempts: Option<Seq<char>>,
    cooldown_secs: Option<Seq<char>>,
) -> HealConfig {
    HealConfig {
        max_attempts: resolved_max_attempts(max_attempts),
        cooldown_secs: resolved_cooldown_secs(cooldown_secs),
    }
}

/// The raw values of the six preferences, each as far as it is set.
#[derive(Debug, Default)]
pub struct HealingPrefs {
    pub enabled: Option<String>,
    pub auto_decide: Option<String>,
    pub max_attempts: Option<String>,
    pub cooldown_secs: Option<String>,
    pub diagnose_model: Option<String>,
    pub diagnose_effort: Option<String>,
}

/// The mathematical model of the raw values.
pub struct HealingPrefsModel {
    pub enabled: Option<Seq<char>>,
    pub auto_decide: Option<Seq<char>>,
    pub max_attempts: Option<Seq<char>>,
    pub cooldown_secs: Option<Seq<char>>,
    pub diagnose_model: Option<Seq<char>>,
    pub diagnose_effort: Option<Seq<char>>,
}

impl View for HealingPrefs {
    type V = HealingPrefsModel;

    open spec fn view(&self) -> HealingPrefsModel {
        HealingPrefsModel {
            enabled: text_view(self.enabled),
            auto_decide: text_view(self.auto_decide),
            max_attempts: text_view(self.max_attempts),
            cooldown_secs: text_view(self.cooldown_secs),
            diagnose_model: text_view(self.diagnose_model),
            diagnose_effort: text_view(self.diagnose_effort),
        }
    }
}

/// The resolved configuration, as a client may see it.
#[derive(Debug, Clone)]
pub struct HealingConfigView {
    pub enabled: bool,
    pub auto_decide: bool,
    pub max_attempts: u32,
    pub cooldown_secs: i64,
    pub diagnose_model: String,
    pub diagnose_effort: String,
}

/// The mathematical model of a resolved configuration.
pub struct HealingConfigModel {
    pub enabled: bool,
    pub auto_decide: bool,
    pub max_attempts: u32,
    pub cooldown_secs: i64,
    pub diagnose_model: Seq<char>,
    pub diagnose_effort: Seq<char>,
}

impl View for HealingConfigView {
    type V = HealingConfigModel;

    open spec fn view(&self) -> HealingConfigModel {
        HealingConfigModel {
            enabled: self.enabled,
            auto_decide: self.auto_decide,
            max_attempts: self.max_attempts,
            cooldown_secs: self.cooldown_secs,
            diagnose_model: self.diagnose_model@,
            diagnose_effort: self.diagnose_effort@,
        }
    }
}

/// The configuration that raw preferences resolve to.
pub open spec fn resolved_config(
    prefs: HealingPrefsModel,
    default_model: Seq<char>,
) -> HealingConfigModel {
    HealingConfigModel {
        enabled: resolved_enabled(prefs.enabled),
        auto_decide: resolved_auto_decide(prefs.auto_decide),
        max_attempts: resolved_max_attempts(prefs.max_attempts),
        cooldown_secs: resolved_cooldown_secs(prefs.cooldown_secs),
        diagnose_model: resolved_diagnose_model(prefs.diagnose_model, default_model),
        diagnose_effort: resolved_diagnose_effort(prefs.diagnose_effort),
    }
}

fn as_text(text: &Option<String>) -> (t: Option<&str>)
    ensures
        str_view(t) == text_view(*text),
{
    match text {
        Some(t) => Some(t.as_str()),
        None => None,
    }
}

/// Resolves the raw preferences.
pub fn resolve_config(prefs: &HealingPrefs, default_model: &str) -> (config: HealingConfigView)
    ensures
        config@ == resolved_config(prefs@, default_model@),
{
    HealingConfigView {
        enabled: resolve_enabled(as_text(&prefs.enabled)),
        auto_decide: resolve_auto_decide(as_text(&prefs.auto_decide)),
        max_attempts: resolve_max_attempts(as_text(&prefs.max_attempts)),
        cooldown_secs: resolve_cooldown_secs(as_text(&prefs.cooldown_secs)),
        diagnose_model: resolve_diagnose_model(as_text(&prefs.diagnose_model), default_model),
        diagnose_effort: resolve_diagnose_effort(as_text(&prefs.diagnose_effort)),
    }
}

/// The JSON form of a resolved configuration.
pub open spec fn config_wire(config: HealingConfigModel) -> JsonView {
    JsonView::Object(
        map![
            "enabled"@ => JsonView::Bool(config.enabled),
            "auto_decide"@ => JsonView::Bool(config.auto_decide),
            "max_attempts"@ => JsonView::Number(unsigned_number(config.max_attempts as u64)),
            "cooldown_secs"@ => JsonView::Number(signed_number(config.cooldown_secs)),
            "diagnose_model"@ => JsonView::Text(config.diagnose_model),
            "diagnose_effort"@ => JsonView::Text(config.diagnose_effort),
        ],
    )
}

impl HealingConfigView {
    /// The JSON form of this configuration.
    pub fn to_json(&self) -> (json: Json)
        ensures
            json@ == config_wire(self@),
    {
        let mut members: Vec<(String, Json)> = Vec::new();
        put(&mut members, "enabled", Json::Bool(self.enabled));
        put(&mut members, "auto_decide", Json::Bool(self.auto_decide));
        put(&mut members, "max_attempts", Json::from_unsigned(self.max_attempts as u64));
        put(&mut members, "cooldown_secs", Json::from_signed(self.cooldown_secs));
        put(&mut members, "diagnose_model", Json::from_text(self.diagnose_model.as_str()));
        put(&mut members, "diagnose_effort", Json::from_text(self.diagnose_effort.as_str()));
        Json::Object(members)
    }
}

// ---------------------------------------------------------------------------
// Writing preferences
// ---------------------------------------------------------------------------

/// A request to change the configuration: only what is given changes.
#[derive(Debug, Default)]
pub struct HealingConfigBody {
    pub enabled: Option<bool>,
    pub auto_decide: Option<bool>,
    pub max_attempts: Option<u64>,
    pub cooldown_secs: Option<i64>,
    pub diagnose_model: Option<String>,
    pub diagnose_effort: Option<String>,
}

/// The mathematical model of a configuration request.
pub struct HealingConfigRequest {
    pub enabled: Option<bool>,
    pub auto_decide: Option<bool>,
    pub max_attempts: Option<u64>,
    pub cooldown_secs: Option<i64>,
    pub diagnose_model: Option<Seq<char>>,
    pub diagnose_effort: Option<Seq<char>>,
}

impl View for HealingConfigBody {
    type V = HealingConfigRequest;

    open spec fn view(&self) -> HealingConfigRequest {
        HealingConfigRequest {
            enabled: self.enabled,
            auto_decide: self.auto_decide,
            max_attempts: self.max_attempts,
            cooldown_secs: self.cooldown_secs,
            diagnose_model: text_view(self.diagnose_model),
            diagnose_effort: text_view(self.diagnose_effort),
        }
    }
}

/// The request that a JSON value makes. A member that is absent or of another type
/// asks for nothing.
pub open spec fn request_of_wire(json: JsonView) -> HealingConfigRequest {
    HealingConfigRequest {
        enabled: match json.member("enabled"@) {
            Some(v) => v.bool(),
            None => None,
        },
        auto_decide: match json.member("auto_decide"@) {
            Some(v) => v.bool(),
            None => None,
        },
        max_attempts: match json.member("max_attempts"@) {
            Some(v) => v.unsigned(),
            None => None,
        },
        cooldown_secs: match json.member("cooldown_secs"@) {
            Some(v) => v.signed(),
            None => None,
        },
        diagnose_model: json.text_at("diagnose_model"@),
        diagnose_effort: json.text_at("diagnose_effort"@),
    }
}

fn owned(text: Option<&str>) -> (t: Option<String>)
    ensures
        text_view(t) == str_view(text),
{
    match text {
        Some(t) => Some(t.to_owned()),
        None => None,
    }
}

impl HealingConfigBody {
    /// The request that `json` makes.
    pub fn from_json(json: &Json) -> (body: HealingConfigBody)
        ensures
            body@ == request_of_wire(json@),
    {
        HealingConfigBody {
            enabled: match json.get("enabled") {
                Some(v) => v.as_bool(),
                None => None,
            },
            auto_decide: match json.get("auto_decide") {
                Some(v) => v.as_bool(),
                None => None,
            },
            max_attempts: match json.get("max_attempts") {
                Some(v) => v.as_u64(),
                None => None,
            },
            cooldown_secs: match json.get("cooldown_secs") {
                Some(v) => v.as_i64(),
                None => None,
            },
            diagnose_model: owned(json.text_at("diagnose_model")),
            diagnose_effort: owned(json.text_at("diagnose_effort")),
        }
    }
}

/// How a truth value is kept as a preference.
pub open spec fn bool_text(b: bool) -> Seq<char> {
    if b {
        "true"@
    } else {
        "false"@
    }
}

/// At most one preference to write.
pub open spec fn one_write(name: Seq<char>, value: Option<Seq<char>>) -> Seq<
    (Seq<char>, Seq<char>),
> {
    match value {
        Some(v) => seq![(name, v)],
        None => Seq::empty(),
    }
}

/// The preferences that a request writes, in order.
pub open spec fn config_writes(request: HealingConfigRequest) -> Seq<(Seq<char>, Seq<char>)> {
    one_write(
        HEALING_ENABLED_PREF@,
        match request.enabled {
            Some(b) => Some(bool_text(b)),
            None => None,
        },
    ) + one_write(
        HEALING_AUTO_DECIDE_PREF@,
        match request.auto_decide {
            Some(b) => Some(bool_text(b)),
            None => None,
        },
    ) + one_write(
        HEALING_MAX_ATTEMPTS_PREF@,
        match request.max_attempts {
            Some(n) => Some(decimal(n as nat)),
            None => None,
        },
    ) + one_write(
        HEALING_COOLDOWN_SECS_PREF@,
        match request.cooldown_secs {
            Some(n) => Some(signed_decimal(n as int)),
            None => None,
        },
    ) + one_write(HEALING_DIAGNOSE_MODEL_PREF@, request.diagnose_model) + one_write(
        HEALING_DIAGNOSE_EFFORT_PREF@,
        request.diagnose_effort,
    )
}

/// The characters of a list of preferences to write.
pub open spec fn writes_view(writes: Seq<(&'static str, String)>) -> Seq<(Seq<char>, Seq<char>)> {
    writes.map_values(|w: (&'static str, String)| (w.0@, w.1@))
}

fn bool_word(b: bool) -> (word: &'static str)
    ensures
        word@ == bool_text(b),
{
    if b {
        "true"
    } else {
        "false"
    }
}

fn push_write(writes: &mut Vec<(&'static str, String)>, name: &'static str, value: Option<String>)
    ensures
        writes_view(final(writes)@) == writes_view(old(writes)@) + one_write(
            name@,
            text_view(value),
        ),
{
    match value {
        Some(v) => {
            writes.push((name, v));
        },
        None => {},
    }
    assert(writes_view(writes@) == writes_view(old(writes)@) + one_write(name@, text_view(value)));
}

/// The preferences that a request writes, in order.
pub fn set_config(body: &HealingConfigBody) -> (writes: Vec<(&'static str, String)>)
    ensures
        writes_view(writes@) == config_writes(body@),
{
    let mut writes: Vec<(&'static str, String)> = Vec::new();
    assert(writes_view(writes@) == Seq::<(Seq<char>, Seq<char>)>::empty());
    push_write(
        &mut writes,
        HEALING_ENABLED_PREF,
        match body.enabled {
            Some(b) => Some(bool_word(b).to_owned()),
            None => None,
        },
    );
    push_write(
        &mut writes,
        HEALING_AUTO_DECIDE_PREF,
        match body.auto_decide {
            Some(b) => Some(bool_word(b).to_owned()),
            None => None,
        },
    );
    push_write(
        &mut writes,
        HEALING_MAX_ATTEMPTS_PREF,
        match body.max_attempts {
            Some(n) => Some(render_unsigned(n)),
            None => None,
        },
    );
    push_write(
        &mut writes,
        HEALING_COOLDOWN_SECS_PREF,
        match body.cooldown_secs {
            Some(n) => Some(render_signed(n)),
            None => None,
        },
    );
    push_write(
        &mut writes,
        HEALING_DIAGNOSE_MODEL_PREF,
        match &body.diagnose_model {
            Some(s) => Some(s.clone()),
            None => None,
        },
    );
    push_write(
        &mut writes,
        HEALING_DIAGNOSE_EFFORT_PREF,
        match &body.diagnose_effort {
            Some(s) => Some(s.clone()),
            None => None,
        },
    );
    assert(writes_view(writes@) == config_writes(body@));
    writes
}

// ---------------------------------------------------------------------------
// Laws
// ---------------------------------------------------------------------------

/// What a store holds after preferences are written to it in order.
pub open spec fn written(
    store: Map<Seq<char>, Seq<char>>,
    writes: Seq<(Seq<char>, Seq<char>)>,
) -> Map<Seq<char>, Seq<char>>
    decreases writes.len(),
{
    if writes.len() == 0 {
        store
    } else {
        written(store, writes.drop_last()).insert(writes.last().0, writes.last().1)
    }
}

/// The preference called `name`, where a store has it.
pub open spec fn pref_in(store: Map<Seq<char>, Seq<char>>, name: Seq<char>) -> Option<Seq<char>> {
    if store.contains_key(name) {
        Some(store[name])
    } else {
        None
    }
}

/// The raw preferences that a store holds.
pub open spec fn prefs_in(store: Map<Seq<char>, Seq<char>>) -> HealingPrefsModel {
    HealingPrefsModel {
        enabled: pref_in(store, HEALING_ENABLED_PREF@),
        auto_decide: pref_in(store, HEALING_AUTO_DECIDE_PREF@),
        max_attempts: pref_in(store, HEALING_MAX_ATTEMPTS_PREF@),
        cooldown_secs: pref_in(store, HEALING_COOLDOWN_SECS_PREF@),
        diagnose_model: pref_in(store, HEALING_DIAGNOSE_MODEL_PREF@),
        diagnose_effort: pref_in(store, HEALING_DIAGNOSE_EFFORT_PREF@),
    }
}

/// Writing lists one after the other is writing what they make together.
pub proof fn lemma_written_split(
    store: Map<Seq<char>, Seq<char>>,
    first: Seq<(Seq<char>, Seq<char>)>,
    second: Seq<(Seq<char>, Seq<char>)>,
)
    ensures
        written(store, first + second) == written(written(store, first), second),
    decreases second.len(),
{
    if second.len() == 0 {
        assert(first + second == first);
    } else {
        assert((first + second).drop_last() == first + second.drop_last());
        lemma_written_split(store, first, second.drop_last());
    }
}

/// Writing at most one preference.
proof fn lemma_one_write(
    store: Map<Seq<char>, Seq<char>>,
    name: Seq<char>,
    value: Option<Seq<char>>,
)
    ensures
        written(store, one_write(name, value)) == match value {
            Some(v) => store.insert(name, v),
            None => store,
        },
{
    match value {
        Some(v) => {
            let writes = one_write(name, value);
            assert(writes.drop_last() == Seq::<(Seq<char>, Seq<char>)>::empty());
            assert(written(store, writes.drop_last()) == store);
        },
        None => {},
    }
}

/// The six names are told apart by their length.
pub proof fn lemma_pref_names()
    ensures
        HEALING_ENABLED_PREF@.len() == 15,
        HEALING_AUTO_DECIDE_PREF@.len() == 19,
        HEALING_MAX_ATTEMPTS_PREF@.len() == 20,
        HEALING_COOLDOWN_SECS_PREF@.len() == 21,
        HEALING_DIAGNOSE_MODEL_PREF@.len() == 22,
        HEALING_DIAGNOSE_EFFORT_PREF@.len() == 23,
{
    reveal_strlit("healing.enabled");
    reveal_strlit("healing.auto-decide");
    reveal_strlit("healing.max-attempts");
    reveal_strlit("healing.cooldown-secs");
    reveal_strlit("healing.diagnose-model");
    reveal_strlit("healing.diagnose-effort");
}

/// The kept forms of true and false are read as what they stand for.
proof fn lemma_bool_text(b: bool)
    ensures
        is_truthy(bool_text(b)) == b,
{
    reveal_strlit("1");
    reveal_strlit("true");
    reveal_strlit("yes");
    reveal_strlit("on");
    reveal_strlit("false");
    let s = bool_text(b);
    crate::text::lemma_trimmed_of_tight(s);
    assert(ascii_lowered(s) == s);
    if !b {
        assert(s.len() == 5);
        assert("true"@.len() == 4 && "1"@.len() == 1 && "yes"@.len() == 3 && "on"@.len() == 2);
    }
}

/// What a store holds after the writes of a request, one after the other.
pub open spec fn set_where_given(
    store: Map<Seq<char>, Seq<char>>,
    name: Seq<char>,
    value: Option<Seq<char>>,
) -> Map<Seq<char>, Seq<char>> {
    match value {
        Some(v) => store.insert(name, v),
        None => store,
    }
}

proof fn lemma_all_written(store: Map<Seq<char>, Seq<char>>, request: HealingConfigRequest)
    ensures
        ({
            let s1 = set_where_given(
                store,
                HEALING_ENABLED_PREF@,
                match request.enabled {
                    Some(b) => Some(bool_text(b)),
                    None => None,
                },
            );
            let s2 = set_where_given(
                s1,
                HEALING_AUTO_DECIDE_PREF@,
                match request.auto_decide {
                    Some(b) => Some(bool_text(b)),
                    None => None,
                },
            );
            let s3 = set_where_given(
                s2,
                HEALING_MAX_ATTEMPTS_PREF@,
                match request.max_attempts {
                    Some(n) => Some(decimal(n as nat)),
                    None => None,
                },
            );
            let s4 = set_where_given(
                s3,
                HEALING_COOLDOWN_SECS_PREF@,
                match request.cooldown_secs {
                    Some(n) => Some(signed_decimal(n as int)),
                    None => None,
                },
            );
            let s5 = set_where_given(s4, HEALING_DIAGNOSE_MODEL_PREF@, request.diagnose_model);
            let s6 = set_where_given(s5, HEALING_DIAGNOSE_EFFORT_PREF@, request.diagnose_effort);
            written(store, config_writes(request)) == s6
        }),
{
    let enabled = match request.enabled {
        Some(b) => Some(bool_text(b)),
        None => None,
    };
    let auto_decide = match request.auto_decide {
        Some(b) => Some(bool_text(b)),
        None => None,
    };
    let max_attempts = match request.max_attempts {
        Some(n) => Some(decimal(n as nat)),
        None => None,
    };
    let cooldown_secs = match request.cooldown_secs {
        Some(n) => Some(signed_decimal(n as int)),
        None => None,
    };
    let w1 = one_write(HEALING_ENABLED_PREF@, enabled);
    let w2 = one_write(HEALING_AUTO_DECIDE_PREF@, auto_decide);
    let w3 = one_write(HEALING_MAX_ATTEMPTS_PREF@, max_attempts);
    let w4 = one_write(HEALING_COOLDOWN_SECS_PREF@, cooldown_secs);
    let w5 = one_write(HEALING_DIAGNOSE_MODEL_PREF@, request.diagnose_model);
    let w6 = one_write(HEALING_DIAGNOSE_EFFORT_PREF@, request.diagnose_effort);
    assert(config_writes(request) == w1 + w2 + w3 + w4 + w5 + w6);
    lemma_written_split(store, w1 + w2 + w3 + w4 + w5, w6);
    lemma_written_split(store, w1 + w2 + w3 + w4, w5);
    lemma_written_split(store, w1 + w2 + w3, w4);
    lemma_written_split(store, w1 + w2, w3);
    lemma_written_split(store, w1, w2);
    let s1 = written(store, w1);
    let s2 = written(s1, w2);
    let s3 = written(s2, w3);
    let s4 = written(s3, w4);
    let s5 = written(s4, w5);
    lemma_one_write(store, HEALING_ENABLED_PREF@, enabled);
    lemma_one_write(s1, HEALING_AUTO_DECIDE_PREF@, auto_decide);
    lemma_one_write(s2, HEALING_MAX_ATTEMPTS_PREF@, max_attempts);
    lemma_one_write(s3, HEALING_COOLDOWN_SECS_PREF@, cooldown_secs);
    lemma_one_write(s4, HEALING_DIAGNOSE_MODEL_PREF@, request.diagnose_model);
    lemma_one_write(s5, HEALING_DIAGNOSE_EFFORT_PREF@, request.diagnose_effort);
}

/// A configuration request is what the next resolution sees: every member that was
/// given takes effect (a cap or a cooldown out of range, or a blank model, as its
/// default), and every member that was not given resolves as before.
pub proof fn law_config_request_takes_effect(
    store: Map<Seq<char>, Seq<char>>,
    request: HealingConfigRequest,
    default_model: Seq<char>,
)
    ensures
        ({
            let before = resolved_config(prefs_in(store), default_model);
            let after = resolved_config(
                prefs_in(written(store, config_writes(request))),
                default_model,
            );
            &&& after.enabled == match request.enabled {
                Some(b) => b,
                None => before.enabled,
            }
            &&& after.auto_decide == match request.auto_decide {
                Some(b) => b,
                None => before.auto_decide,
            }
            &&& after.max_attempts == match request.max_attempts {
                Some(n) => if 0 < n <= u32::MAX {
                    n as u32
                } else {
                    DEFAULT_MAX_ATTEMPTS
                },
                None => before.max_attempts,
            }
            &&& after.cooldown_secs == match request.cooldown_secs {
                Some(n) => if n >= 0 {
                    n
                } else {
                    DEFAULT_COOLDOWN_SECS
                },
                None => before.cooldown_secs,
            }
            &&& after.diagnose_model == match request.diagnose_model {
                Some(s) => if trimmed(s).len() == 0 {
                    default_model
                } else {
                    s
                },
                None => before.diagnose_model,
            }
            &&& after.diagnose_effort == match request.diagnose_effort {
                Some(s) => s,
                None => before.diagnose_effort,
            }
        }),
{
    lemma_all_written(store, request);
    lemma_pref_names();
    lemma_bool_text(true);
    lemma_bool_text(false);
    if let Some(n) = request.max_attempts {
        crate::text::law_decimal_reads_back(n as nat);
    }
    if let Some(n) = request.cooldown_secs {
        crate::text::law_signed_decimal_reads_back(n as int);
    }
}

/// A request writes no preference but the six.
pub proof fn law_config_request_touches_no_other(
    store: Map<Seq<char>, Seq<char>>,
    request: HealingConfigRequest,
    name: Seq<char>,
)
    requires
        name != HEALING_ENABLED_PREF@,
        name != HEALING_AUTO_DECIDE_PREF@,
        name != HEALING_MAX_ATTEMPTS_PREF@,
        name != HEALING_COOLDOWN_SECS_PREF@,
        name != HEALING_DIAGNOSE_MODEL_PREF@,
        name != HEALING_DIAGNOSE_EFFORT_PREF@,
    ensures
        pref_in(written(store, config_writes(request)), name) == pref_in(store, name),
{
    lemma_written_elsewhere(store, config_writes(request), name);
}

/// Writes under other names leave a preference as it was.
proof fn lemma_written_elsewhere(
    store: Map<Seq<char>, Seq<char>>,
    writes: Seq<(Seq<char>, Seq<char>)>,
    name: Seq<char>,
)
    requires
        forall|i: int| 0 <= i < writes.len() ==> (#[trigger] writes[i]).0 != name,
    ensures
        pref_in(written(store, writes), name) == pref_in(store, name),
    decreases writes.len(),
{
    if writes.len() > 0 {
        assert(writes.last() == writes[writes.len() - 1]);
        lemma_written_elsewhere(store, writes.drop_last(), name);
    }
}

/// A request in which every member is absent or of another type writes nothing.
pub proof fn law_mistyped_members_are_ignored(json: JsonView)
    requires
        json.member("enabled"@) matches Some(v) ==> !(v is Bool),
        json.member("auto_decide"@) matches Some(v) ==> !(v is Bool),
        json.member("max_attempts"@) matches Some(v) ==> !(v is Number),
        json.member("cooldown_secs"@) matches Some(v) ==> !(v is Number),
        json.member("diagnose_model"@) matches Some(v) ==> !(v is Text),
        json.member("diagnose_effort"@) matches Some(v) ==> !(v is Text),
    ensures
        config_writes(request_of_wire(json)).len() == 0,
{
}

/// The loop is on and proposes rather than applies where nothing is set.
pub proof fn law_defaults(default_model: Seq<char>)
    ensures
        resolved_config(prefs_in(Map::empty()), default_model) == (HealingConfigModel {
            enabled: true,
            auto_decide: false,
            max_attempts: 2,
            cooldown_secs: 60,
            diagnose_model: default_model,
            diagnose_effort: Seq::empty(),
        }),
{
}

proof fn lemma_config_words()
    ensures
        "enabled"@.len() == 7,
        "auto_decide"@.len() == 11,
        "max_attempts"@.len() == 12,
        "cooldown_secs"@.len() == 13,
        "diagnose_model"@.len() == 14,
        "diagnose_effort"@.len() == 15,
{
    reveal_strlit("enabled");
    reveal_strlit("auto_decide");
    reveal_strlit("max_attempts");
    reveal_strlit("cooldown_secs");
    reveal_strlit("diagnose_model");
    reveal_strlit("diagnose_effort");
}

/// What a member of a JSON object holds.
pub open spec fn holds(json: JsonView, name: Seq<char>, value: JsonView) -> bool {
    json matches JsonView::Object(members) && members.contains_key(name) && members[name] == value
}

/// Whether a member of a JSON object is a number that is `n`.
pub open spec fn holds_number(json: JsonView, name: Seq<char>, n: int) -> bool {
    &&& json matches JsonView::Object(members) && members.contains_key(name) && (
    members[name] matches JsonView::Number(number) && (number.signed matches Some(i) ==> i == n) && (
    number.unsigned matches Some(u) ==> u == n) && (0 <= n <= u64::MAX ==> number.unsigned is Some)
        && (i64::MIN <= n <= i64::MAX ==> number.signed is Some))
}

/// The answer determines the configuration: each member of the JSON form holds the field of
/// its name, and there are no others.
pub proof fn law_config_is_told_field_by_field(config: HealingConfigModel)
    ensures
        holds(config_wire(config), "enabled"@, JsonView::Bool(config.enabled)),
        holds(config_wire(config), "auto_decide"@, JsonView::Bool(config.auto_decide)),
        holds_number(config_wire(config), "max_attempts"@, config.max_attempts as int),
        holds_number(config_wire(config), "cooldown_secs"@, config.cooldown_secs as int),
        holds(config_wire(config), "diagnose_model"@, JsonView::Text(config.diagnose_model)),
        holds(config_wire(config), "diagnose_effort"@, JsonView::Text(config.diagnose_effort)),
        config_wire(config)->Object_0.dom() == set![
            "enabled"@,
            "auto_decide"@,
            "max_attempts"@,
            "cooldown_secs"@,
            "diagnose_model"@,
            "diagnose_effort"@,
        ],
{
    lemma_config_words();
    assert(config_wire(config)->Object_0.dom() =~= set![
        "enabled"@,
        "auto_decide"@,
        "max_attempts"@,
        "cooldown_secs"@,
        "diagnose_model"@,
        "diagnose_effort"@,
    ]);
}

/// Different configurations have different JSON forms.
pub proof fn law_config_is_told_apart(one: HealingConfigModel, other: HealingConfigModel)
    requires
        config_wire(one) == config_wire(other),
    ensures
        one == other,
{
    law_config_is_told_field_by_field(one);
    law_config_is_told_field_by_field(other);
}

/// A request asks for just what its members of the right type say, each under its own name
/// and whatever the others are.
pub proof fn law_request_is_read_member_by_member(members: Map<Seq<char>, JsonView>)
    ensures
        ({
            let request = request_of_wire(JsonView::Object(members));
            &&& forall|b: bool|
                request.enabled == Some(b) <==> #[trigger] holds(
                    JsonView::Object(members),
                    "enabled"@,
                    JsonView::Bool(b),
                )
            &&& forall|b: bool|
                request.auto_decide == Some(b) <==> #[trigger] holds(
                    JsonView::Object(members),
                    "auto_decide"@,
                    JsonView::Bool(b),
                )
            &&& members.contains_key("max_attempts"@) && members["max_attempts"@] is Number
                ==> request.max_attempts == members["max_attempts"@]->Number_0.unsigned
            &&& !(members.contains_key("max_attempts"@) && members["max_attempts"@] is Number)
                ==> request.max_attempts is None
            &&& members.contains_key("cooldown_secs"@) && members["cooldown_secs"@] is Number
                ==> request.cooldown_secs == members["cooldown_secs"@]->Number_0.signed
            &&& !(members.contains_key("cooldown_secs"@) && members["cooldown_secs"@] is Number)
                ==> request.cooldown_secs is None
            &&& forall|t: Seq<char>|
                request.diagnose_model == Some(t) <==> #[trigger] holds(
                    JsonView::Object(members),
                    "diagnose_model"@,
                    JsonView::Text(t),
                )
            &&& forall|t: Seq<char>|
                request.diagnose_effort == Some(t) <==> #[trigger] holds(
                    JsonView::Object(members),
                    "diagnose_effort"@,
                    JsonView::Text(t),
                )
        }),
{
    let json = JsonView::Object(members);
    assert(json->Object_0 == members);
}

/// Whether a text is a word up to the case of its letters and white space at its edges.
pub open spec fn spells(s: Seq<char>, word: Seq<char>) -> bool {
    &&& trimmed(s).len() == word.len()
    &&& forall|i: int|
        0 <= i < word.len() ==> crate::text::same_letter(#[trigger] trimmed(s)[i], word[i])
}

/// What spells true: one of four words, in any case, with or without white space around it.
/// A switch that is set is on just where it spells true.
pub proof fn law_four_words_are_true(s: Seq<char>)
    ensures
        is_truthy(s) <==> spells(s, "1"@) || spells(s, "true"@) || spells(s, "yes"@) || spells(
            s,
            "on"@,
        ),
        resolved_enabled(Some(s)) == is_truthy(s),
        resolved_auto_decide(Some(s)) == is_truthy(s),
        resolved_enabled(None) && !resolved_auto_decide(None),
{
    reveal_strlit("1");
    reveal_strlit("true");
    reveal_strlit("yes");
    reveal_strlit("on");
    crate::text::law_case_is_all_that_is_lost(trimmed(s), "1"@);
    crate::text::law_case_is_all_that_is_lost(trimmed(s), "true"@);
    crate::text::law_case_is_all_that_is_lost(trimmed(s), "yes"@);
    crate::text::law_case_is_all_that_is_lost(trimmed(s), "on"@);
}

/// A cap or a cooldown is the number that the preference reads as, where that is in range,
/// and else the default: two attempts, sixty seconds.
pub proof fn law_bounds_are_the_numbers_set(s: Seq<char>, n: int)
    ensures
        resolved_max_attempts(None) == 2,
        resolved_cooldown_secs(None) == 60,
        resolved_max_attempts(Some(s)) != 2 ==> crate::text::unsigned_value(s) == Some(
            resolved_max_attempts(Some(s)) as nat,
        ),
        resolved_cooldown_secs(Some(s)) != 60 ==> signed_value(s) == Some(
            resolved_cooldown_secs(Some(s)) as int,
        ),
        crate::text::unsigned_value(s) matches Some(m) ==> (0 < m <= u32::MAX ==> resolved_max_attempts(
            Some(s),
        ) == m),
        signed_value(s) matches Some(m) ==> (0 <= m <= i64::MAX ==> resolved_cooldown_secs(Some(s))
            == m),
        0 < n <= u32::MAX ==> resolved_max_attempts(Some(decimal(n as nat))) == n,
        0 <= n <= i64::MAX ==> resolved_cooldown_secs(Some(decimal(n as nat))) == n,
        resolved_max_attempts(Some(s)) > 0,
        resolved_cooldown_secs(Some(s)) >= 0,
{
    if n >= 0 {
        crate::text::law_decimal_reads_back(n as nat);
        crate::text::law_signed_decimal_reads_back(n);
    }
}

/// A model and an effort are taken to the letter; only a model that is all white space, or
/// not set, gives way to the default, and only an effort that is not set is empty.
pub proof fn law_model_and_effort_are_taken_to_the_letter(s: Seq<char>, default_model: Seq<char>)
    ensures
        resolved_diagnose_model(None, default_model) == default_model,
        resolved_diagnose_effort(None).len() == 0,
        resolved_diagnose_effort(Some(s)) == s,
        (exists|k: int| 0 <= k < s.len() && !crate::text::is_white_space(#[trigger] s[k]))
            ==> resolved_diagnose_model(Some(s), default_model) == s,
        (forall|k: int| 0 <= k < s.len() ==> crate::text::is_white_space(#[trigger] s[k]))
            ==> resolved_diagnose_model(Some(s), default_model) == default_model,
{
    crate::text::law_blank_is_all_white_space(s);
}

/// Each field of the configuration comes from the preference of its own name, and each of
/// the bounds from its own.
pub proof fn law_fields_resolve_by_name(store: Map<Seq<char>, Seq<char>>, default_model: Seq<char>)
    ensures
        ({
            let config = resolved_config(prefs_in(store), default_model);
            &&& config.enabled == resolved_enabled(pref_in(store, "healing.enabled"@))
            &&& config.auto_decide == resolved_auto_decide(pref_in(store, "healing.auto-decide"@))
            &&& config.max_attempts == resolved_max_attempts(pref_in(store, "healing.max-attempts"@))
            &&& config.cooldown_secs == resolved_cooldown_secs(
                pref_in(store, "healing.cooldown-secs"@),
            )
            &&& config.diagnose_model == resolved_diagnose_model(
                pref_in(store, "healing.diagnose-model"@),
                default_model,
            )
            &&& config.diagnose_effort == resolved_diagnose_effort(
                pref_in(store, "healing.diagnose-effort"@),
            )
            &&& resolved_bounds(
                pref_in(store, "healing.max-attempts"@),
                pref_in(store, "healing.cooldown-secs"@),
            ) == (HealConfig {
                max_attempts: config.max_attempts,
                cooldown_secs: config.cooldown_secs,
            })
        }),
        forall|name: Seq<char>| #[trigger]
            store.contains_key(name) ==> pref_in(store, name) == Some(store[name]),
        forall|name: Seq<char>| !#[trigger]
            store.contains_key(name) ==> pref_in(store, name) is None,
{
}

/// A request keeps the values it gives, each under the name of its own preference, switches
/// as `true` and `false` and numbers in decimal, and leaves the others as they were.
pub proof fn law_request_is_kept_by_name(
    store: Map<Seq<char>, Seq<char>>,
    request: HealingConfigRequest,
)
    ensures
        ({
            let after = written(store, config_writes(request));
            &&& pref_in(after, "healing.enabled"@) == match request.enabled {
                Some(true) => Some("true"@),
                Some(false) => Some("false"@),
                None => pref_in(store, "healing.enabled"@),
            }
            &&& pref_in(after, "healing.auto-decide"@) == match request.auto_decide {
                Some(true) => Some("true"@),
                Some(false) => Some("false"@),
                None => pref_in(store, "healing.auto-decide"@),
            }
            &&& request.max_attempts matches Some(n) ==> (pref_in(after, "healing.max-attempts"@) matches Some(
                text,
            ) && text == decimal(n as nat) && crate::text::unsigned_value(text) == Some(n as nat))
            &&& request.max_attempts is None ==> pref_in(after, "healing.max-attempts"@) == pref_in(
                store,
                "healing.max-attempts"@,
            )
            &&& request.cooldown_secs matches Some(n) ==> (pref_in(after, "healing.cooldown-secs"@) matches Some(
                text,
            ) && text == signed_decimal(n as int) && signed_value(text) == Some(n as int))
            &&& request.cooldown_secs is None ==> pref_in(after, "healing.cooldown-secs"@)
                == pref_in(store, "healing.cooldown-secs"@)
            &&& pref_in(after, "healing.diagnose-model"@) == match request.diagnose_model {
                Some(text) => Some(text),
                None => pref_in(store, "healing.diagnose-model"@),
            }
            &&& pref_in(after, "healing.diagnose-effort"@) == match request.diagnose_effort {
                Some(text) => Some(text),
                None => pref_in(store, "healing.diagnose-effort"@),
            }
        }),
{
    lemma_all_written(store, request);
    lemma_pref_names();
    if let Some(n) = request.max_attempts {
        crate::text::law_decimal_reads_back(n as nat);
    }
    if let Some(n) = request.cooldown_secs {
        crate::text::law_signed_decimal_reads_back(n as int);
    }
}

/// The models of preferences, configurations and requests hold what the values hold.
pub proof fn law_config_models_are_faithful(
    prefs: HealingPrefs,
    config: HealingConfigView,
    body: HealingConfigBody,
)
    ensures
        prefs@.enabled == text_view(prefs.enabled),
        prefs@.auto_decide == text_view(prefs.auto_decide),
        prefs@.max_attempts == text_view(prefs.max_attempts),
        prefs@.cooldown_secs == text_view(prefs.cooldown_secs),
        prefs@.diagnose_model == text_view(prefs.diagnose_model),
        prefs@.diagnose_effort == text_view(prefs.diagnose_effort),
        config@.enabled == config.enabled,
        config@.auto_decide == config.auto_decide,
        config@.max_attempts == config.max_attempts,
        config@.cooldown_secs == config.cooldown_secs,
        config@.diagnose_model == config.diagnose_model@,
        config@.diagnose_effort == config.diagnose_effort@,
        body@.enabled == body.enabled,
        body@.auto_decide == body.auto_decide,
        body@.max_attempts == body.max_attempts,
        body@.cooldown_secs == body.cooldown_secs,
        body@.diagnose_model == text_view(body.diagnose_model),
        body@.diagnose_effort == text_view(body.diagnose_effort),
        forall|s: &str| #[trigger] str_view(Some(s)) == Some(s@),
        str_view(None) is None,
        forall|s: String| #[trigger] text_view(Some(s)) == Some(s@),
        text_view(None) is None,
{
}

/// A request that is no object asks for nothing.
pub proof fn law_other_requests_ask_for_nothing(json: JsonView)
    requires
        !(json is Object),
    ensures
        request_of_wire(json) == (HealingConfigRequest {
            enabled: None,
            auto_decide: None,
            max_attempts: None,
            cooldown_secs: None,
            diagnose_model: None,
            diagnose_effort: None,
        }),
{
}

} // verus!
