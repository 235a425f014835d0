//! What the loop keeps between runs of the process: the preferences, and the record of
//! the heals of each source.
//!
//! Both are kept as JSON objects. A file that is missing or corrupt reads as empty.

use vstd::prelude::*;

use crate::config::{holds, holds_number, pref_in, str_view};
use crate::decision::HealAttempt;
use crate::json::{
    is_plain, json_value, last_positions, lemma_plain_within, members_tree, parse_json, put,
    readable_levels, signed_number, unsigned_number, Json, JsonView,
};
use crate::textmap::{distinct_names, named, TextMap};

verus! {

/// The name of the file that holds the record of heals.
pub const ATTEMPTS_FILE: &'static str = "healing-attempts.json";

/// The name of the file that holds the preferences.
pub const PREFS_FILE: &'static str = "healing-prefs.json";

/// The JSON value that the text of a file is, where there is a file and its text is
/// JSON.
pub open spec fn file_value(text: Option<Seq<char>>) -> Option<JsonView> {
    match text {
        Some(t) => json_value(t),
        None => None,
    }
}

// ---------------------------------------------------------------------------
// The record of heals
// ---------------------------------------------------------------------------

/// The JSON form of one record.
pub open spec fn attempt_wire(attempt: HealAttempt) -> JsonView {
    JsonView::Object(
        map![
            "count"@ => JsonView::Number(unsigned_number(attempt.count as u64)),
            "last_at"@ => JsonView::Number(signed_number(attempt.last_at)),
            "given_up"@ => JsonView::Bool(attempt.given_up),
        ],
    )
}

/// The record that three JSON values make: a count, a time and a flag.
pub open spec fn attempt_of_fields(
    count: Option<JsonView>,
    last_at: Option<JsonView>,
    given_up: Option<JsonView>,
) -> Option<HealAttempt> {
    match (count, last_at, given_up) {
        (Some(c), Some(l), Some(g)) => match (c.unsigned(), l.signed(), g.bool()) {
            (Some(count), Some(last_at), Some(given_up)) => if count <= u32::MAX {
                Some(HealAttempt { count: count as u32, last_at, given_up })
            } else {
                None
            },
            _ => None,
        },
        _ => None,
    }
}

/// The record that a JSON value stands for: an object with the three fields, or an
/// array of just them.
pub open spec fn attempt_of_wire(json: JsonView) -> Option<HealAttempt> {
    match json {
        JsonView::Array(fields) => if fields.len() == 3 {
            attempt_of_fields(Some(fields[0]), Some(fields[1]), Some(fields[2]))
        } else {
            None
        },
        _ => attempt_of_fields(
            json.member("count"@),
            json.member("last_at"@),
            json.member("given_up"@),
        ),
    }
}

/// The JSON form of the record of all sources.
pub open spec fn attempts_wire(attempts: Map<Seq<char>, HealAttempt>) -> JsonView {
    JsonView::Object(attempts.map_values(|a: HealAttempt| attempt_wire(a)))
}

/// The record of all sources that a JSON value stands for: empty unless it is an object
/// of records throughout.
pub open spec fn attempts_of_wire(json: JsonView) -> Map<Seq<char>, HealAttempt> {
    match json {
        JsonView::Object(members) => if forall|id: Seq<char>| #[trigger]
            members.contains_key(id) ==> attempt_of_wire(members[id]) is Some {
            members.map_values(|v: JsonView| attempt_of_wire(v)->0)
        } else {
            Map::empty()
        },
        _ => Map::empty(),
    }
}

/// The record of all sources that a file holds.
pub open spec fn attempts_of_file(text: Option<Seq<char>>) -> Map<Seq<char>, HealAttempt> {
    match file_value(text) {
        Some(json) => attempts_of_wire(json),
        None => Map::empty(),
    }
}

fn attempt_to_json(attempt: &HealAttempt) -> (json: Json)
    ensures
        json@ == attempt_wire(*attempt),
{
    let mut members: Vec<(String, Json)> = Vec::new();
    put(&mut members, "count", Json::from_unsigned(attempt.count as u64));
    put(&mut members, "last_at", Json::from_signed(attempt.last_at));
    put(&mut members, "given_up", Json::Bool(attempt.given_up));
    Json::Object(members)
}

/// The model behind an optional value.
pub open spec fn json_view(json: Option<&Json>) -> Option<JsonView> {
    match json {
        Some(j) => Some(j@),
        None => None,
    }
}

fn attempt_from_fields(
    count: Option<&Json>,
    last_at: Option<&Json>,
    given_up: Option<&Json>,
) -> (attempt: Option<HealAttempt>)
    ensures
        attempt == attempt_of_fields(json_view(count), json_view(last_at), json_view(given_up)),
{
    match (count, last_at, given_up) {
        (Some(c), Some(l), Some(g)) => match (c.as_u64(), l.as_i64(), g.as_bool()) {
            (Some(count), Some(last_at), Some(given_up)) => if count <= u32::MAX as u64 {
                Some(HealAttempt { count: count as u32, last_at, given_up })
            } else {
                None
            },
            _ => None,
        },
        _ => None,
    }
}

fn attempt_from_json(json: &Json) -> (attempt: Option<HealAttempt>)
    ensures
        attempt == attempt_of_wire(json@),
{
    match json {
        Json::Array(fields) => {
            proof {
                crate::json::lemma_elements_tree(fields@);
            }
            if fields.len() == 3 {
                attempt_from_fields(Some(&fields[0]), Some(&fields[1]), Some(&fields[2]))
            } else {
                None
            }
        },
        _ => attempt_from_fields(json.get("count"), json.get("last_at"), json.get("given_up")),
    }
}

/// The JSON form of the record of all sources.
pub fn attempts_to_json(attempts: &TextMap<HealAttempt>) -> (json: Json)
    ensures
        json@ == attempts_wire(attempts@),
{
    let entries = attempts.entries();
    let mut members: Vec<(String, Json)> = Vec::new();
    let ghost wire = |a: HealAttempt| attempt_wire(a);
    let mut i: usize = 0;
    assert(entries@.take(0) == Seq::<(String, HealAttempt)>::empty());
    assert(members_tree(members@) == named(entries@.take(0)).map_values(wire));
    while i < entries.len()
        invariant
            i <= entries.len(),
            wire == (|a: HealAttempt| attempt_wire(a)),
            members_tree(members@) == named(entries@.take(i as int)).map_values(wire),
        decreases entries.len() - i,
    {
        assert(entries@.take(i + 1).drop_last() == entries@.take(i as int));
        put(&mut members, entries[i].0.as_str(), attempt_to_json(&entries[i].1));
        assert(members_tree(members@) == named(entries@.take(i + 1)).map_values(wire));
        i = i + 1;
    }
    assert(entries@.take(i as int) == entries@);
    Json::Object(members)
}

/// The record of all sources that `json` stands for.
pub fn attempts_from_json(json: &Json) -> (attempts: TextMap<HealAttempt>)
    ensures
        attempts@ == attempts_of_wire(json@),
{
    let mut attempts: TextMap<HealAttempt> = TextMap::new();
    match json {
        Json::Object(members) => {
            let positions: TextMap<usize> = last_positions(members);
            let entries = positions.entries();
            let ghost tree = members_tree(members@);
            let mut i: usize = 0;
            assert(entries@.take(0) == Seq::<(String, usize)>::empty());
            assert(attempts@ == named(entries@.take(0)).map_values(
                |p: usize| attempt_of_wire(members@[p as int].1@)->0,
            ));
            while i < entries.len()
                invariant
                    i <= entries.len(),
                    json@ == JsonView::Object(tree),
                    tree == members_tree(members@),
                    named(entries@) == positions@,
                    distinct_names(entries@),
                    positions@.dom() == tree.dom(),
                    forall|name: Seq<char>| #[trigger]
                        positions@.contains_key(name) ==> {
                            &&& positions@[name] < members.len()
                            &&& tree[name] == members[positions@[name] as int].1@
                        },
                    forall|name: Seq<char>| #[trigger]
                        named(entries@.take(i as int)).contains_key(name) ==> attempt_of_wire(
                            members@[named(entries@.take(i as int))[name] as int].1@,
                        ) is Some,
                    attempts@ == named(entries@.take(i as int)).map_values(
                        |p: usize| attempt_of_wire(members@[p as int].1@)->0,
                    ),
                decreases entries.len() - i,
            {
                proof {
                    crate::textmap::lemma_named_at(entries@, i as int);
                    assert(positions@.contains_key(entries@[i as int].0@));
                    assert(entries@.take(i + 1).drop_last() == entries@.take(i as int));
                }
                match attempt_from_json(&members[entries[i].1].1) {
                    Some(attempt) => {
                        attempts.insert(entries[i].0.as_str(), attempt);
                        assert(attempts@ == named(entries@.take(i + 1)).map_values(
                            |p: usize| attempt_of_wire(members@[p as int].1@)->0,
                        ));
                    },
                    None => {
                        assert(tree.contains_key(entries@[i as int].0@));
                        return TextMap::new();
                    },
                }
                i = i + 1;
            }
            assert(entries@.take(i as int) == entries@);
            proof {
                assert forall|id: Seq<char>| #[trigger] tree.contains_key(id) implies attempt_of_wire(
                    tree[id],
                ) is Some by {
                    assert(positions@.contains_key(id));
                }
                assert(attempts@ == tree.map_values(|v: JsonView| attempt_of_wire(v)->0)) by {
                    assert forall|id: Seq<char>| #[trigger] tree.contains_key(id) implies attempts@[id]
                        == attempt_of_wire(tree[id])->0 by {
                        assert(positions@.contains_key(id));
                    }
                }
            }
            attempts
        },
        _ => attempts,
    }
}

/// The record of all sources that a file holds; `text` is the content of the file,
/// where it can be read.
///
/// The text is decoded by way of a tree. A decoder made for the record alone would refuse
/// a record in which a field occurs twice, where here the later one counts; and it would
/// pass over a member that is no field without looking at it, where here one with a number
/// out of range or nested too deep makes the text unreadable. What [`save_attempts`] writes
/// holds neither.
pub fn load_attempts(text: Option<&str>) -> (attempts: TextMap<HealAttempt>)
    ensures
        attempts@ == attempts_of_file(str_view(text)),
{
    match text {
        Some(t) => match parse_json(t) {
            Some(json) => attempts_from_json(&json),
            None => TextMap::new(),
        },
        None => TextMap::new(),
    }
}

/// The text of the file that holds the record of all sources.
pub fn save_attempts(attempts: &TextMap<HealAttempt>) -> (text: String)
    ensures
        json_value(text@) == Some(attempts_wire(attempts@)),
        attempts_of_file(Some(text@)) == attempts@,
{
    let json: Json = attempts_to_json(attempts);
    proof {
        lemma_attempts_are_plain(attempts@);
        lemma_plain_within(json@, 2, readable_levels());
        law_attempts_read_back(attempts@);
    }
    json.to_text().unwrap()
}

/// The JSON form of the record of all sources is an object of objects.
pub proof fn lemma_attempts_are_plain(attempts: Map<Seq<char>, HealAttempt>)
    ensures
        is_plain(attempts_wire(attempts), 2),
{
    reveal_with_fuel(is_plain, 3);
    let members = attempts.map_values(|a: HealAttempt| attempt_wire(a));
    assert forall|id: Seq<char>| #[trigger] members.contains_key(id) implies is_plain(
        members[id],
        1,
    ) by {
        assert(members[id] == attempt_wire(attempts[id]));
        let fields = attempt_wire(attempts[id])->Object_0;
        assert forall|key: Seq<char>| #[trigger] fields.contains_key(key) implies is_plain(
            fields[key],
            0,
        ) by {}
    }
    assert(is_plain(JsonView::Object(members), 2));
}

proof fn lemma_attempt_words()
    ensures
        "count"@ != "last_at"@,
        "count"@ != "given_up"@,
        "last_at"@ != "given_up"@,
{
    reveal_strlit("count");
    reveal_strlit("last_at");
    reveal_strlit("given_up");
    assert("count"@.len() == 5 && "last_at"@.len() == 7 && "given_up"@.len() == 8);
}

/// What is on record survives being saved and loaded: reading the JSON form of a record
/// of all sources gives that record back.
pub proof fn law_attempts_read_back(attempts: Map<Seq<char>, HealAttempt>)
    ensures
        attempts_of_wire(attempts_wire(attempts)) == attempts,
{
    lemma_attempt_words();
    let members = attempts.map_values(|a: HealAttempt| attempt_wire(a));
    assert forall|id: Seq<char>| #[trigger] members.contains_key(id) implies attempt_of_wire(
        members[id],
    ) == Some(attempts[id]) by {
        assert(members[id] == attempt_wire(attempts[id]));
    }
    assert(attempts_of_wire(attempts_wire(attempts)) =~= attempts);
}

// ---------------------------------------------------------------------------
// The preferences
// ---------------------------------------------------------------------------

/// The characters of stored texts.
pub open spec fn texts(map: Map<Seq<char>, String>) -> Map<Seq<char>, Seq<char>> {
    map.map_values(|s: String| s@)
}

/// The JSON form of the preferences.
pub open spec fn prefs_wire(prefs: Map<Seq<char>, Seq<char>>) -> JsonView {
    JsonView::Object(prefs.map_values(|s: Seq<char>| JsonView::Text(s)))
}

/// The strings, by name, that a text is a JSON object of, where it is one of strings
/// throughout. Where a name occurs twice the later one counts.
pub uninterp spec fn text_members(text: Seq<char>) -> Option<Map<Seq<char>, Seq<char>>>;

/// The preferences that a file holds.
pub open spec fn prefs_of_file(text: Option<Seq<char>>) -> Map<Seq<char>, Seq<char>> {
    match text {
        Some(t) => match text_members(t) {
            Some(prefs) => prefs,
            None => Map::empty(),
        },
        None => Map::empty(),
    }
}

/// Calls `serde_json::from_str` for a `HashMap<String, String>`. Claims that whether the
/// text is an object of strings, and of which, depends on its characters alone; and that
/// where it is one, it is read as that object by `serde_json::from_str` for a
/// `serde_json::Value` too. Not claimed is when it is one: a text may be read as an object
/// of strings for a `serde_json::Value` and not here, because of a name that occurs twice.
#[verifier::external_body]
fn read_texts(text: &str) -> (members: Option<Vec<(String, String)>>)
    ensures
        match members {
            Some(m) => text_members(text@) == Some(texts(named(m@))) && json_value(text@) == Some(
                prefs_wire(texts(named(m@))),
            ),
            None => text_members(text@) is None,
        },
{
    let members: Option<std::collections::HashMap<String, String>> = serde_json::from_str(text).ok();
    members.map(|m| m.into_iter().collect())
}

/// Calls `serde_json::to_string_pretty` for a map of strings. Claims that there is always a
/// text, and that `serde_json::from_str` reads the strings back from it.
#[verifier::external_body]
fn write_texts(members: &Vec<(String, String)>) -> (text: Option<String>)
    requires
        distinct_names(members@),
    ensures
        text is Some,
        text_members(text->0@) == Some(texts(named(members@))),
        json_value(text->0@) == Some(prefs_wire(texts(named(members@)))),
{
    let map: std::collections::BTreeMap<&String, &String> = members.iter().map(
        |member| (&member.0, &member.1),
    ).collect();
    serde_json::to_string_pretty(&map).ok()
}

/// A store of preferences.
#[derive(Debug)]
pub struct PrefStore {
    prefs: TextMap<String>,
}

impl View for PrefStore {
    type V = Map<Seq<char>, Seq<char>>;

    closed spec fn view(&self) -> Map<Seq<char>, Seq<char>> {
        texts(self.prefs@)
    }
}

impl PrefStore {
    /// The store with nothing set.
    pub fn new() -> (store: PrefStore)
        ensures
            store@ == Map::<Seq<char>, Seq<char>>::empty(),
    {
        let store = PrefStore { prefs: TextMap::new() };
        assert(store@ == Map::<Seq<char>, Seq<char>>::empty());
        store
    }

    /// The preference called `key`, where it is set.
    pub fn pref_get(&self, key: &str) -> (value: Option<String>)
        ensures
            crate::contracts::text_view(value) == pref_in(self@, key@),
    {
        match self.prefs.get(key) {
            Some(value) => Some(value.clone()),
            None => None,
        }
    }

    /// Sets the preference called `key`.
    pub fn pref_set(&mut self, key: &str, value: &str)
        ensures
            final(self)@ == old(self)@.insert(key@, value@),
    {
        self.prefs.insert(key, value.to_owned());
        assert(self@ == old(self)@.insert(key@, value@));
    }

    /// The text of the file that holds the preferences.
    pub fn save_prefs(&self) -> (text: String)
        ensures
            json_value(text@) == Some(prefs_wire(self@)),
            text_members(text@) == Some(self@),
            prefs_of_file(Some(text@)) == self@,
    {
        write_texts(self.prefs.entries()).unwrap()
    }

    /// The store with these preferences set, one after the other.
    pub fn of_members(members: &Vec<(String, String)>) -> (store: PrefStore)
        ensures
            store@ == texts(named(members@)),
    {
        let mut store: PrefStore = PrefStore::new();
        let mut i: usize = 0;
        assert(members@.take(0) == Seq::<(String, String)>::empty());
        assert(store@ == texts(named(members@.take(0))));
        while i < members.len()
            invariant
                i <= members.len(),
                store@ == texts(named(members@.take(i as int))),
            decreases members.len() - i,
        {
            assert(members@.take(i + 1).drop_last() == members@.take(i as int));
            store.pref_set(members[i].0.as_str(), members[i].1.as_str());
            assert(store@ == texts(named(members@.take(i + 1))));
            i = i + 1;
        }
        assert(members@.take(i as int) == members@);
        store
    }

    /// The preferences that a file holds; `text` is the content of the file, where it
    /// can be read. They are empty unless it is an object of strings throughout. Left
    /// unsaid is which repeated names make a text unreadable.
    pub fn load_prefs(text: Option<&str>) -> (store: PrefStore)
        ensures
            store@ == prefs_of_file(str_view(text)),
            store@ == Map::<Seq<char>, Seq<char>>::empty() || file_value(str_view(text)) == Some(
                prefs_wire(store@),
            ),
    {
        match text {
            Some(t) => match read_texts(t) {
                Some(members) => PrefStore::of_members(&members),
                None => PrefStore::new(),
            },
            None => PrefStore::new(),
        }
    }
}

/// What a file holds after it was to be replaced by `text` in one move, which is `done` or
/// changes nothing.
pub open spec fn replaced(file: Option<Seq<char>>, text: Seq<char>, done: bool) -> Option<
    Seq<char>,
> {
    if done {
        Some(text)
    } else {
        file
    }
}

/// A preference that is set is in force whether or not it can be saved, and no other is
/// touched. Where it is saved the file holds all that is in force; where it is not the file
/// is as it was.
pub proof fn law_set_preference_is_in_force(
    prefs: Map<Seq<char>, Seq<char>>,
    key: Seq<char>,
    value: Seq<char>,
    file: Option<Seq<char>>,
    text: Seq<char>,
    saved: bool,
)
    requires
        text_members(text) == Some(prefs.insert(key, value)),
    ensures
        pref_in(prefs.insert(key, value), key) == Some(value),
        forall|other: Seq<char>|
            other != key ==> #[trigger] pref_in(prefs.insert(key, value), other) == pref_in(
                prefs,
                other,
            ),
        saved ==> prefs_of_file(replaced(file, text, saved)) == prefs.insert(key, value),
        !saved ==> prefs_of_file(replaced(file, text, saved)) == prefs_of_file(file),
{
}

/// A record is kept field by field under its source, and nothing else is kept.
pub proof fn law_record_is_kept_field_by_field(attempts: Map<Seq<char>, HealAttempt>)
    ensures
        attempts_wire(attempts) matches JsonView::Object(members) && members.dom() == attempts.dom()
            && forall|id: Seq<char>| #[trigger]
            members.contains_key(id) ==> {
                &&& holds_number(members[id], "count"@, attempts[id].count as int)
                &&& holds_number(members[id], "last_at"@, attempts[id].last_at as int)
                &&& holds(members[id], "given_up"@, JsonView::Bool(attempts[id].given_up))
            },
{
    lemma_attempt_words();
    let members = attempts.map_values(|a: HealAttempt| attempt_wire(a));
    assert(members.dom() =~= attempts.dom());
    assert forall|id: Seq<char>| #[trigger] members.contains_key(id) implies {
        &&& holds_number(members[id], "count"@, attempts[id].count as int)
        &&& holds_number(members[id], "last_at"@, attempts[id].last_at as int)
        &&& holds(members[id], "given_up"@, JsonView::Bool(attempts[id].given_up))
    } by {
        assert(members[id] == attempt_wire(attempts[id]));
    }
}

/// A record is read from three fields, each under its own name or, in an array, in this
/// order; without one of them, or with one of another type or out of range, it is none.
pub proof fn law_record_is_read_field_by_field(
    fields: Map<Seq<char>, JsonView>,
    count: JsonView,
    last_at: JsonView,
    given_up: JsonView,
)
    requires
        holds(JsonView::Object(fields), "count"@, count),
        holds(JsonView::Object(fields), "last_at"@, last_at),
        holds(JsonView::Object(fields), "given_up"@, given_up),
    ensures
        ({
            let read = attempt_of_wire(JsonView::Object(fields));
            let fits = count is Number && count->Number_0.unsigned is Some
                && count->Number_0.unsigned->0 <= u32::MAX && last_at is Number
                && last_at->Number_0.signed is Some && given_up is Bool;
            &&& read is Some <==> fits
            &&& read matches Some(a) ==> a.count == count->Number_0.unsigned->0 && a.last_at
                == last_at->Number_0.signed->0 && a.given_up == given_up->Bool_0
            &&& attempt_of_wire(JsonView::Array(seq![count, last_at, given_up])) == read
            &&& attempt_of_wire(JsonView::Object(fields.remove("count"@))) is None
            &&& attempt_of_wire(JsonView::Object(fields.remove("last_at"@))) is None
            &&& attempt_of_wire(JsonView::Object(fields.remove("given_up"@))) is None
        }),
{
    lemma_attempt_words();
    let json = JsonView::Object(fields);
    assert(json->Object_0 == fields);
    let row = seq![count, last_at, given_up];
    assert(row[0] == count && row[1] == last_at && row[2] == given_up);
}

/// A file is read whole or not at all: where every member is a record, as just these, and
/// else as nothing.
pub proof fn law_file_is_read_whole(
    text: Seq<char>,
    members: Map<Seq<char>, JsonView>,
    id: Seq<char>,
)
    requires
        json_value(text) == Some(JsonView::Object(members)),
        members.contains_key(id),
    ensures
        attempt_of_wire(members[id]) is None ==> attempts_of_file(Some(text)) == Map::<
            Seq<char>,
            HealAttempt,
        >::empty(),
        (forall|other: Seq<char>| #[trigger]
            members.contains_key(other) ==> attempt_of_wire(members[other]) is Some)
            ==> attempts_of_file(Some(text)).dom() == members.dom() && attempt_of_wire(members[id])
            == Some(attempts_of_file(Some(text))[id]),
        attempts_of_file(None) == Map::<Seq<char>, HealAttempt>::empty(),
{
    let json = JsonView::Object(members);
    assert(json->Object_0 == members);
    if forall|other: Seq<char>| #[trigger]
        members.contains_key(other) ==> attempt_of_wire(members[other]) is Some {
        assert(attempts_of_file(Some(text)).dom() =~= members.dom());
    }
}

/// A store of texts is modelled text by text and name by name, and its JSON form holds each
/// under its name.
pub proof fn law_texts_are_modelled_to_the_letter(
    map: Map<Seq<char>, String>,
    prefs: Map<Seq<char>, Seq<char>>,
    text: Seq<char>,
)
    ensures
        texts(map).dom() == map.dom(),
        forall|name: Seq<char>| #[trigger]
            map.contains_key(name) ==> texts(map)[name] == map[name]@,
        prefs_wire(prefs) matches JsonView::Object(members) && members.dom() == prefs.dom()
            && forall|name: Seq<char>| #[trigger]
            members.contains_key(name) ==> members[name] == JsonView::Text(prefs[name]),
        prefs_of_file(None) == Map::<Seq<char>, Seq<char>>::empty(),
        text_members(text) matches Some(m) ==> prefs_of_file(Some(text)) == m,
        text_members(text) is None ==> prefs_of_file(Some(text)) == Map::<
            Seq<char>,
            Seq<char>,
        >::empty(),
{
    assert(texts(map).dom() =~= map.dom());
    assert(prefs_wire(prefs)->Object_0.dom() =~= prefs.dom());
}

/// What is neither an object nor an array of three is no record, and a file that is no
/// object, or no JSON, holds nothing.
pub proof fn law_other_values_are_no_record(json: JsonView, text: Seq<char>)
    ensures
        !(json is Object) && !(json is Array) ==> attempt_of_wire(json) is None,
        json is Array && json->Array_0.len() != 3 ==> attempt_of_wire(json) is None,
        json_value(text) is None ==> attempts_of_file(Some(text)) == Map::<
            Seq<char>,
            HealAttempt,
        >::empty(),
        json_value(text) == Some(json) && !(json is Object) ==> attempts_of_file(Some(text))
            == Map::<Seq<char>, HealAttempt>::empty(),
{
}

} // verus!
