use ryu_healing::decision::HealAttempt;
use ryu_healing::store::{load_attempts, save_attempts, PrefStore, ATTEMPTS_FILE, PREFS_FILE};
use ryu_healing::textmap::TextMap;

#[test]
fn attempts_load_missing_and_corrupt_yield_empty() {
    assert!(load_attempts(None).entries().is_empty());
    assert!(load_attempts(Some("{ not json")).entries().is_empty());
}

#[test]
fn attempts_save_then_load_roundtrips() {
    let mut map: TextMap<HealAttempt> = TextMap::new();
    map.insert(
        "src1",
        HealAttempt {
            count: 3,
            last_at: 42,
            given_up: true,
        },
    );
    let text = save_attempts(&map);
    let reloaded = load_attempts(Some(&text));
    let a = reloaded.get("src1").expect("entry");
    assert_eq!(a.count, 3);
    assert_eq!(a.last_at, 42);
    assert!(a.given_up);
}

#[test]
fn extreme_records_read_back() {
    let mut map: TextMap<HealAttempt> = TextMap::new();
    let extreme = HealAttempt {
        count: u32::MAX,
        last_at: i64::MIN,
        given_up: false,
    };
    let late = HealAttempt {
        count: 0,
        last_at: i64::MAX,
        given_up: false,
    };
    map.insert("\"q\\ü\n\u{0}", extreme);
    map.insert("", late);
    let text = save_attempts(&map);
    let reloaded = load_attempts(Some(&text));
    assert_eq!(reloaded.entries().len(), 2);
    assert_eq!(reloaded.get("\"q\\ü\n\u{0}"), Some(&extreme));
    assert_eq!(reloaded.get(""), Some(&late));
    assert_eq!(reloaded.get("absent"), None);
}

#[test]
fn one_bad_record_spoils_the_file() {
    let good = r#""a":{"count":1,"last_at":2,"given_up":false}"#;
    let read = |bad: &str| {
        load_attempts(Some(&format!("{{{good},{bad}}}")))
            .entries()
            .len()
    };
    assert_eq!(read(r#""b":{"count":1,"last_at":2,"given_up":true}"#), 2);
    assert_eq!(read(r#""b":{"count":1,"last_at":2}"#), 0);
    assert_eq!(read(r#""b":{"count":-1,"last_at":2,"given_up":true}"#), 0);
    assert_eq!(read(r#""b":{"count":4294967296,"last_at":2,"given_up":true}"#), 0);
    assert_eq!(read(r#""b":{"count":1,"last_at":2.0,"given_up":true}"#), 0);
    assert_eq!(read(r#""b":{"count":1,"last_at":2,"given_up":null}"#), 0);
    assert_eq!(read(r#""b":7"#), 0);
    assert_eq!(
        read(r#""b":{"count":1,"last_at":2,"given_up":true,"more":[]}"#),
        2
    );
    assert_eq!(read(r#""b":[1,2,true]"#), 2);
    assert_eq!(read(r#""b":[1,2]"#), 0);
    assert!(load_attempts(Some("[]")).entries().is_empty());
}

#[test]
fn prefs_roundtrip_through_file() {
    assert_eq!(
        PrefStore::load_prefs(None).pref_get("healing.enabled"),
        None
    );

    let mut store = PrefStore::new();
    store.pref_set("healing.enabled", "false");
    let text = store.save_prefs();

    let reloaded = PrefStore::load_prefs(Some(&text));
    assert_eq!(
        reloaded.pref_get("healing.enabled").as_deref(),
        Some("false")
    );
}

#[test]
fn prefs_are_kept_over_several_lines() {
    let mut store = PrefStore::new();
    store.pref_set("b", "2");
    store.pref_set("a", "x\"y");
    store.pref_set("b", "3");
    assert_eq!(
        store.save_prefs(),
        "{\n  \"a\": \"x\\\"y\",\n  \"b\": \"3\"\n}"
    );
    assert_eq!(PrefStore::new().save_prefs(), "{}");
}

#[test]
fn one_bad_preference_spoils_the_file() {
    let read = |text: &str| PrefStore::load_prefs(Some(text)).pref_get("a");
    assert_eq!(read(r#"{"a":"1","b":"2"}"#).as_deref(), Some("1"));
    assert_eq!(read(r#"{"a":"1","b":2}"#), None);
    assert_eq!(read(r#"{"a":"1","b":null}"#), None);
    assert_eq!(read(r#"["a"]"#), None);
    assert_eq!(read(r#"{"a":"1"} x"#), None);
}

#[test]
fn the_files_have_their_names() {
    assert_eq!(ATTEMPTS_FILE, "healing-attempts.json");
    assert_eq!(PREFS_FILE, "healing-prefs.json");
}

#[test]
fn no_source_and_no_preference_has_a_special_name() {
    for name in [
        "$serde_json::private::RawValue",
        "$serde_json::private::Number",
    ] {
        let attempt = HealAttempt {
            count: 2,
            last_at: 5,
            given_up: true,
        };
        let mut attempts: TextMap<HealAttempt> = TextMap::new();
        attempts.insert(name, attempt);
        attempts.insert("other", attempt);
        let reloaded = load_attempts(Some(&save_attempts(&attempts)));
        assert_eq!(reloaded.get(name), Some(&attempt));
        assert_eq!(reloaded.get("other"), Some(&attempt));

        let mut store = PrefStore::new();
        store.pref_set(name, "1");
        let reloaded = PrefStore::load_prefs(Some(&store.save_prefs()));
        assert_eq!(reloaded.pref_get(name).as_deref(), Some("1"));
    }
}

#[test]
fn a_repeated_preference_counts_by_its_last_value() {
    let read = |text: &str| PrefStore::load_prefs(Some(text)).pref_get("a");
    assert_eq!(read(r#"{"a":"1","a":"2"}"#).as_deref(), Some("2"));
    // Every one of them has to be a string.
    assert_eq!(read(r#"{"a":1,"a":"2"}"#), None);
}

#[test]
fn a_repeated_field_of_a_record_counts_by_its_last_value() {
    let loaded = load_attempts(Some(
        r#"{"s":{"count":1,"count":2,"last_at":3,"given_up":false}}"#,
    ));
    assert_eq!(loaded.get("s").map(|a| a.count), Some(2));
}

#[test]
fn a_member_that_is_no_field_has_to_be_readable() {
    let read = |member: &str| {
        load_attempts(Some(&format!(
            "{{\"s\":{{\"count\":1,\"last_at\":3,\"given_up\":false,\"x\":{member}}}}}"
        )))
        .entries()
        .len()
    };
    assert_eq!(read("1e99"), 1);
    assert_eq!(read("1e999"), 0);
    assert_eq!(read(&format!("{}{}", "[".repeat(200), "]".repeat(200))), 0);
}

/// A preference that is set is in force before it is saved, and the text of the file holds
/// all that is in force.
#[test]
fn a_set_preference_is_in_force() {
    let mut store = PrefStore::new();
    store.pref_set("kept", "k");
    let before = store.save_prefs();
    store.pref_set("a", "1");
    assert_eq!(store.pref_get("a").as_deref(), Some("1"));
    assert_eq!(store.pref_get("kept").as_deref(), Some("k"));
    let saved = PrefStore::load_prefs(Some(&store.save_prefs()));
    assert_eq!(saved.pref_get("a").as_deref(), Some("1"));
    assert_eq!(saved.pref_get("kept").as_deref(), Some("k"));
    // The file as it was, where saving failed.
    let unsaved = PrefStore::load_prefs(Some(&before));
    assert_eq!(unsaved.pref_get("a"), None);
    assert_eq!(unsaved.pref_get("kept").as_deref(), Some("k"));
}
