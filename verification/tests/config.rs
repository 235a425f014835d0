use ryu_healing::api::config_body;
use ryu_healing::config::{
    resolve_cooldown_secs, resolve_diagnose_effort, resolve_diagnose_model, resolve_max_attempts,
    truthy, HealingPrefs,
};
use ryu_healing::configure::{ConfigNeed, ConfigRun, ConfigStep};
use ryu_healing::json::parse_json;
use ryu_healing::store::PrefStore;
use ryu_healing::{
    resolve_auto_decide, resolve_config, resolve_enabled, set_config, HealConfig,
    HealingConfigBody, HealingConfigView, HEALING_AUTO_DECIDE_PREF, HEALING_COOLDOWN_SECS_PREF,
    HEALING_DIAGNOSE_EFFORT_PREF, HEALING_DIAGNOSE_MODEL_PREF, HEALING_ENABLED_PREF,
    HEALING_MAX_ATTEMPTS_PREF,
};

#[test]
fn truthy_accepts_common_true_spellings() {
    for v in ["1", "true", "TRUE", "Yes", " on ", "  yes"] {
        assert!(truthy(v), "expected truthy for {v:?}");
    }
    for v in ["0", "false", "no", "off", "", "nope", "2"] {
        assert!(!truthy(v), "expected falsy for {v:?}");
    }
}

#[test]
fn resolve_enabled_defaults_on_and_honors_pref() {
    assert!(resolve_enabled(None), "default is ON");
    assert!(!resolve_enabled(Some("false")));
    assert!(resolve_enabled(Some("yes")));
}

#[test]
fn resolve_auto_decide_defaults_off() {
    assert!(!resolve_auto_decide(None), "default is OFF");
    assert!(resolve_auto_decide(Some("on")));
}

#[test]
fn resolve_max_attempts_default_and_validation() {
    assert_eq!(resolve_max_attempts(None), 2);
    assert_eq!(resolve_max_attempts(Some("5")), 5);
    // Zero is rejected.
    assert_eq!(resolve_max_attempts(Some("0")), 2);
    // So is what is not a number.
    assert_eq!(resolve_max_attempts(Some("abc")), 2);
}

#[test]
fn resolve_cooldown_secs_default_and_validation() {
    assert_eq!(resolve_cooldown_secs(None), 60);
    // Zero is allowed.
    assert_eq!(resolve_cooldown_secs(Some("0")), 0);
    // Negative is rejected.
    assert_eq!(resolve_cooldown_secs(Some("-1")), 60);
}

#[test]
fn resolve_diagnose_model_falls_back_to_host_default() {
    assert_eq!(resolve_diagnose_model(None, "default-model"), "default-model");
    // White space alone is as good as unset.
    assert_eq!(
        resolve_diagnose_model(Some("   "), "default-model"),
        "default-model"
    );
    assert_eq!(resolve_diagnose_model(Some("gpt-x"), "default-model"), "gpt-x");
}

#[test]
fn resolve_diagnose_effort_default_empty() {
    assert_eq!(resolve_diagnose_effort(None), "");
    assert_eq!(resolve_diagnose_effort(Some("high")), "high");
}

#[test]
fn resolve_config_aggregates_all_fields() {
    let prefs = HealingPrefs {
        enabled: Some("false".into()),
        auto_decide: Some("true".into()),
        max_attempts: Some("4".into()),
        cooldown_secs: Some("30".into()),
        diagnose_model: Some("m1".into()),
        diagnose_effort: Some("low".into()),
    };
    let view = resolve_config(&prefs, "default-model");
    assert!(!view.enabled);
    assert!(view.auto_decide);
    assert_eq!(view.max_attempts, 4);
    assert_eq!(view.cooldown_secs, 30);
    assert_eq!(view.diagnose_model, "m1");
    assert_eq!(view.diagnose_effort, "low");
}

#[test]
fn numbers_are_read_as_they_stand() {
    assert_eq!(resolve_max_attempts(Some("+7")), 7);
    assert_eq!(resolve_max_attempts(Some(" 7")), 2);
    assert_eq!(resolve_max_attempts(Some("-7")), 2);
    assert_eq!(resolve_max_attempts(Some("4294967295")), u32::MAX);
    assert_eq!(resolve_max_attempts(Some("4294967296")), 2);
    assert_eq!(resolve_cooldown_secs(Some("+90")), 90);
    assert_eq!(resolve_cooldown_secs(Some("90s")), 60);
    assert_eq!(
        resolve_cooldown_secs(Some("9223372036854775807")),
        i64::MAX
    );
    assert_eq!(resolve_cooldown_secs(Some("9223372036854775808")), 60);
}

#[test]
fn bounds_resolve_from_their_preferences() {
    let cfg = HealConfig::resolve(Some("9"), None);
    assert_eq!(cfg.max_attempts, 9);
    assert_eq!(cfg.cooldown_secs, 60);
}

/// The preferences of a store, as a host reads them.
fn prefs_of(store: &PrefStore) -> HealingPrefs {
    HealingPrefs {
        enabled: store.pref_get(HEALING_ENABLED_PREF),
        auto_decide: store.pref_get(HEALING_AUTO_DECIDE_PREF),
        max_attempts: store.pref_get(HEALING_MAX_ATTEMPTS_PREF),
        cooldown_secs: store.pref_get(HEALING_COOLDOWN_SECS_PREF),
        diagnose_model: store.pref_get(HEALING_DIAGNOSE_MODEL_PREF),
        diagnose_effort: store.pref_get(HEALING_DIAGNOSE_EFFORT_PREF),
    }
}

/// Writes what a request asks for, and gives the resolved configuration.
fn post(store: &mut PrefStore, body: &str) -> HealingConfigView {
    let body = HealingConfigBody::from_json(&parse_json(body).unwrap());
    for (key, value) in set_config(&body) {
        store.pref_set(key, &value);
    }
    resolve_config(&prefs_of(store), "default-model")
}

#[test]
fn config_get_returns_resolved_view() {
    let mut store = PrefStore::new();
    store.pref_set(HEALING_ENABLED_PREF, "false");
    store.pref_set(HEALING_MAX_ATTEMPTS_PREF, "7");
    let view = resolve_config(&prefs_of(&store), "default-model");
    let v = parse_json(&config_body(&view)).unwrap();
    assert_eq!(v.get("enabled").and_then(|b| b.as_bool()), Some(false));
    assert_eq!(v.get("max_attempts").and_then(|n| n.as_u64()), Some(7));
}

#[test]
fn the_configuration_has_its_wire_form() {
    let view = resolve_config(&HealingPrefs::default(), "m");
    assert_eq!(
        config_body(&view),
        r#"{"auto_decide":false,"cooldown_secs":60,"diagnose_effort":"","diagnose_model":"m","enabled":true,"max_attempts":2}"#
    );
}

#[test]
fn set_config_writes_every_provided_pref() {
    let mut store = PrefStore::new();
    post(
        &mut store,
        r#"{"enabled":false,"auto_decide":true,"max_attempts":5,"cooldown_secs":0,"diagnose_model":"m-x","diagnose_effort":"high"}"#,
    );
    let get = |key: &str| store.pref_get(key);
    assert_eq!(get(HEALING_ENABLED_PREF).as_deref(), Some("false"));
    assert_eq!(get(HEALING_AUTO_DECIDE_PREF).as_deref(), Some("true"));
    assert_eq!(get(HEALING_MAX_ATTEMPTS_PREF).as_deref(), Some("5"));
    assert_eq!(get(HEALING_COOLDOWN_SECS_PREF).as_deref(), Some("0"));
    assert_eq!(get(HEALING_DIAGNOSE_MODEL_PREF).as_deref(), Some("m-x"));
    assert_eq!(get(HEALING_DIAGNOSE_EFFORT_PREF).as_deref(), Some("high"));
}

#[test]
fn set_config_ignores_absent_and_mistyped_fields() {
    // `enabled` as a string is ignored; `max_attempts` as a string too.
    let body = parse_json(r#"{"enabled":"true","max_attempts":"9","unrelated":1}"#).unwrap();
    assert!(set_config(&HealingConfigBody::from_json(&body)).is_empty());
    let none = parse_json("[true]").unwrap();
    assert!(set_config(&HealingConfigBody::from_json(&none)).is_empty());
}

#[test]
fn each_documented_field_writes_one_preference() {
    for (body, key, value) in [
        (r#"{"enabled":true}"#, HEALING_ENABLED_PREF, "true"),
        (r#"{"auto_decide":true}"#, HEALING_AUTO_DECIDE_PREF, "true"),
        (r#"{"max_attempts":1}"#, HEALING_MAX_ATTEMPTS_PREF, "1"),
        (r#"{"cooldown_secs":1}"#, HEALING_COOLDOWN_SECS_PREF, "1"),
        (r#"{"diagnose_model":"x"}"#, HEALING_DIAGNOSE_MODEL_PREF, "x"),
        (r#"{"diagnose_effort":"x"}"#, HEALING_DIAGNOSE_EFFORT_PREF, "x"),
    ] {
        let read = HealingConfigBody::from_json(&parse_json(body).unwrap());
        assert_eq!(set_config(&read), vec![(key, value.to_string())]);
    }
}

#[test]
fn numbers_are_written_as_the_request_has_them() {
    let read = |body: &str| set_config(&HealingConfigBody::from_json(&parse_json(body).unwrap()));
    assert_eq!(
        read(r#"{"max_attempts":18446744073709551615,"cooldown_secs":-9223372036854775808}"#),
        vec![
            (
                HEALING_MAX_ATTEMPTS_PREF,
                "18446744073709551615".to_string()
            ),
            (
                HEALING_COOLDOWN_SECS_PREF,
                "-9223372036854775808".to_string()
            ),
        ]
    );
    assert!(read(r#"{"max_attempts":-1,"cooldown_secs":1.5}"#).is_empty());
    assert!(read(r#"{"max_attempts":1e1}"#).is_empty());
}

#[test]
fn a_request_takes_effect_and_touches_nothing_else() {
    let mut store = PrefStore::new();
    store.pref_set("other", "kept");
    let view = post(
        &mut store,
        r#"{"enabled":false,"auto_decide":true,"max_attempts":3,"cooldown_secs":5,"diagnose_model":"m"}"#,
    );
    assert!(!view.enabled);
    assert!(view.auto_decide);
    assert_eq!(view.max_attempts, 3);
    assert_eq!(view.cooldown_secs, 5);
    assert_eq!(view.diagnose_model, "m");
    assert_eq!(view.diagnose_effort, "");
    // Out of range: written, and resolved to the default.
    let view = post(&mut store, r#"{"max_attempts":0,"cooldown_secs":-4}"#);
    assert_eq!(view.max_attempts, 2);
    assert_eq!(view.cooldown_secs, 60);
    assert!(!view.enabled);
    assert_eq!(store.pref_get("other").as_deref(), Some("kept"));
    assert_eq!(store.pref_get(HEALING_MAX_ATTEMPTS_PREF).as_deref(), Some("0"));
}

#[test]
fn defaults_are_the_documented_ones() {
    let view = resolve_config(&HealingPrefs::default(), "bundled");
    assert!(view.enabled);
    assert!(!view.auto_decide);
    assert_eq!(view.max_attempts, 2);
    assert_eq!(view.cooldown_secs, 60);
    assert_eq!(view.diagnose_model, "bundled");
    assert_eq!(view.diagnose_effort, "");
}

/// Runs a configuration request to its answer. The writes land in the store, and each is
/// reported as `report` says. Gives what was needed, too.
fn answer_request(
    store: &mut PrefStore,
    body: &str,
    report: Option<&str>,
) -> (u16, String, Vec<String>) {
    let body = HealingConfigBody::from_json(&parse_json(body).unwrap());
    let mut step = ConfigRun::begin(&body);
    let mut needed: Vec<String> = Vec::new();
    loop {
        match step {
            ConfigStep::Answered { status, body } => return (status, body, needed),
            ConfigStep::Continue { run, need } => {
                let answer = match need {
                    ConfigNeed::WritePref { key, value } => {
                        needed.push(format!("{key}={value}"));
                        store.pref_set(key, &value);
                        report.map(|r| r.to_string())
                    }
                    ConfigNeed::ReadPref(key) => {
                        needed.push(key.to_string());
                        store.pref_get(key)
                    }
                    ConfigNeed::ReadDefaultModel => {
                        needed.push("default".to_string());
                        Some("default-model".to_string())
                    }
                };
                step = run.step(answer);
            }
        }
    }
}

#[test]
fn a_request_is_answered_with_what_is_in_force() {
    for report in [None, Some("disk full")] {
        let mut store = PrefStore::new();
        let (status, body, needed) = answer_request(
            &mut store,
            r#"{"auto_decide":true,"diagnose_model":"m","max_attempts":9}"#,
            report,
        );
        assert_eq!(status, 200);
        assert_eq!(
            body,
            r#"{"auto_decide":true,"cooldown_secs":60,"diagnose_effort":"","diagnose_model":"m","enabled":true,"max_attempts":9}"#
        );
        assert_eq!(
            needed,
            vec![
                "healing.auto-decide=true",
                "healing.max-attempts=9",
                "healing.diagnose-model=m",
                "healing.enabled",
                "healing.auto-decide",
                "healing.max-attempts",
                "healing.cooldown-secs",
                "healing.diagnose-model",
                "healing.diagnose-effort",
            ]
        );
        // Asking again gives the same.
        let (status, again, needed) = answer_request(&mut store, "{}", report);
        assert_eq!((status, again), (200, body));
        assert_eq!(needed.len(), 6);
    }
}

#[test]
fn the_default_model_is_asked_for_where_none_is_set() {
    let mut store = PrefStore::new();
    store.pref_set(HEALING_DIAGNOSE_MODEL_PREF, "  ");
    let (status, body, needed) = answer_request(&mut store, r#"{"enabled":false}"#, None);
    assert_eq!(status, 200);
    assert!(needed.contains(&"default".to_string()));
    let v = parse_json(&body).unwrap();
    assert_eq!(v.text_at("diagnose_model"), Some("default-model"));
    assert_eq!(v.get("enabled").and_then(|b| b.as_bool()), Some(false));
}
