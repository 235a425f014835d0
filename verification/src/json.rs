//! JSON values as far as the healing loop reads and writes them.
//!
//! [`Json`] is a plain tree. Text is turned into a tree by `serde_json`
//! ([`parse_json`]); everything that reads the tree afterwards is ordinary code of
//! this crate, stated over [`JsonView`].

use vstd::prelude::*;

use crate::extract::is_balanced;
use crate::text::same_text;
use crate::textmap::{distinct_names, lemma_named_at, named, TextMap};

verus! {

/// A JSON number: its value as an unsigned and as a signed integer, where it has one.
/// A number with a fraction or an exponent has neither.
#[derive(Debug, Clone, Copy, PartialEq, Eq)]
pub struct JsonNumber {
    pub unsigned: Option<u64>,
    pub signed: Option<i64>,
}

/// A JSON value.
#[derive(Debug, PartialEq, Eq)]
pub enum Json {
    Null,
    Bool(bool),
    Number(JsonNumber),
    Text(String),
    Array(Vec<Json>),
    /// Members in no particular order. Where a name occurs twice the later one counts.
    Object(Vec<(String, Json)>),
}

/// The mathematical model of a JSON value.
pub enum JsonView {
    Null,
    Bool(bool),
    Number(JsonNumber),
    Text(Seq<char>),
    Array(Seq<JsonView>),
    Object(Map<Seq<char>, JsonView>),
}

impl JsonView {
    /// The member called `key`, where this is an object that has one.
    pub open spec fn member(self, key: Seq<char>) -> Option<JsonView> {
        match self {
            JsonView::Object(members) => if members.contains_key(key) {
                Some(members[key])
            } else {
                None
            },
            _ => None,
        }
    }

    /// The element at `index`, where this is an array that has one.
    pub open spec fn element(self, index: int) -> Option<JsonView> {
        match self {
            JsonView::Array(elements) => if 0 <= index < elements.len() {
                Some(elements[index])
            } else {
                None
            },
            _ => None,
        }
    }

    /// The characters, where this is a string.
    pub open spec fn text(self) -> Option<Seq<char>> {
        match self {
            JsonView::Text(s) => Some(s),
            _ => None,
        }
    }

    /// The truth value, where this is one.
    pub open spec fn bool(self) -> Option<bool> {
        match self {
            JsonView::Bool(b) => Some(b),
            _ => None,
        }
    }

    /// The unsigned integer, where this is a number that is one.
    pub open spec fn unsigned(self) -> Option<u64> {
        match self {
            JsonView::Number(n) => n.unsigned,
            _ => None,
        }
    }

    /// The signed integer, where this is a number that is one.
    pub open spec fn signed(self) -> Option<i64> {
        match self {
            JsonView::Number(n) => n.signed,
            _ => None,
        }
    }

    /// The string at `key`, where this is an object with a string there.
    pub open spec fn text_at(self, key: Seq<char>) -> Option<Seq<char>> {
        match self.member(key) {
            Some(value) => value.text(),
            None => None,
        }
    }
}

impl Json {
    /// The model of this value.
    pub open spec fn tree(&self) -> JsonView
        decreases self,
    {
        match self {
            Json::Null => JsonView::Null,
            Json::Bool(b) => JsonView::Bool(*b),
            Json::Number(n) => JsonView::Number(*n),
            Json::Text(s) => JsonView::Text(s@),
            Json::Array(elements) => JsonView::Array(elements_tree(elements@)),
            Json::Object(members) => JsonView::Object(members_tree(members@)),
        }
    }
}

/// The models of the elements of an array.
pub open spec fn elements_tree(elements: Seq<Json>) -> Seq<JsonView>
    decreases elements,
{
    if elements.len() == 0 {
        Seq::empty()
    } else {
        elements_tree(elements.drop_last()).push(elements.last().tree())
    }
}

/// The models of the members of an object, by name.
pub open spec fn members_tree(members: Seq<(String, Json)>) -> Map<Seq<char>, JsonView>
    decreases members,
{
    if members.len() == 0 {
        Map::empty()
    } else {
        members_tree(members.drop_last()).insert(members.last().0@, members.last().1.tree())
    }
}

impl View for Json {
    type V = JsonView;

    open spec fn view(&self) -> JsonView {
        self.tree()
    }
}

// ---------------------------------------------------------------------------
// Reading
// ---------------------------------------------------------------------------

pub proof fn lemma_elements_tree(elements: Seq<Json>)
    ensures
        elements_tree(elements).len() == elements.len(),
        forall|i: int| 0 <= i < elements.len() ==> #[trigger] elements_tree(elements)[i] == elements[i].tree(),
    decreases elements.len(),
{
    if elements.len() > 0 {
        lemma_elements_tree(elements.drop_last());
    }
}

/// The member of an object that is `key` at its last occurrence.
proof fn lemma_members_tree_at(members: Seq<(String, Json)>, i: int)
    requires
        0 <= i < members.len(),
        forall|j: int| i < j < members.len() ==> (#[trigger] members[j]).0@ != members[i].0@,
    ensures
        members_tree(members).contains_key(members[i].0@),
        members_tree(members)[members[i].0@] == members[i].1.tree(),
    decreases members.len(),
{
    if i < members.len() - 1 {
        assert(members.last() == members[members.len() - 1]);
        lemma_members_tree_at(members.drop_last(), i);
    }
}

/// A name that no member carries is no key of the object.
proof fn lemma_members_tree_without(members: Seq<(String, Json)>, key: Seq<char>)
    requires
        forall|j: int| 0 <= j < members.len() ==> (#[trigger] members[j]).0@ != key,
    ensures
        !members_tree(members).contains_key(key),
    decreases members.len(),
{
    if members.len() > 0 {
        assert(members.last() == members[members.len() - 1]);
        lemma_members_tree_without(members.drop_last(), key);
    }
}

impl Json {
    /// The member called `key`, where this is an object that has one.
    pub fn get(&self, key: &str) -> (member: Option<&Json>)
        ensures
            match member {
                Some(value) => self@.member(key@) == Some(value@),
                None => self@.member(key@) is None,
            },
    {
        match self {
            Json::Object(members) => {
                let mut i: usize = members.len();
                while i > 0
                    invariant
                        i <= members.len(),
                        self@ == JsonView::Object(members_tree(members@)),
                        forall|j: int| i <= j < members.len() ==> (#[trigger] members[j]).0@ != key@,
                    decreases i,
                {
                    i = i - 1;
                    if same_text(members[i].0.as_str(), key) {
                        proof {
                            lemma_members_tree_at(members@, i as int);
                        }
                        return Some(&members[i].1);
                    }
                }
                proof {
                    lemma_members_tree_without(members@, key@);
                }
                None
            },
            _ => None,
        }
    }

    /// The element at `index`, where this is an array that has one.
    pub fn element(&self, index: usize) -> (element: Option<&Json>)
        ensures
            match element {
                Some(value) => self@.element(index as int) == Some(value@),
                None => self@.element(index as int) is None,
            },
    {
        match self {
            Json::Array(elements) => {
                proof {
                    lemma_elements_tree(elements@);
                }
                if index < elements.len() {
                    Some(&elements[index])
                } else {
                    None
                }
            },
            _ => None,
        }
    }

    /// The characters, where this is a string.
    pub fn as_str(&self) -> (text: Option<&str>)
        ensures
            match text {
                Some(t) => self@.text() == Some(t@),
                None => self@.text() is None,
            },
    {
        match self {
            Json::Text(s) => Some(s.as_str()),
            _ => None,
        }
    }

    /// The truth value, where this is one.
    pub fn as_bool(&self) -> (answer: Option<bool>)
        ensures
            answer == self@.bool(),
    {
        match self {
            Json::Bool(b) => Some(*b),
            _ => None,
        }
    }

    /// The unsigned integer, where this is a number that is one.
    pub fn as_u64(&self) -> (number: Option<u64>)
        ensures
            number == self@.unsigned(),
    {
        match self {
            Json::Number(n) => n.unsigned,
            _ => None,
        }
    }

    /// The signed integer, where this is a number that is one.
    pub fn as_i64(&self) -> (number: Option<i64>)
        ensures
            number == self@.signed(),
    {
        match self {
            Json::Number(n) => n.signed,
            _ => None,
        }
    }

    /// The string at `key`, where this is an object with a string there.
    pub fn text_at(&self, key: &str) -> (text: Option<&str>)
        ensures
            match text {
                Some(t) => self@.text_at(key@) == Some(t@),
                None => self@.text_at(key@) is None,
            },
    {
        match self.get(key) {
            Some(value) => value.as_str(),
            None => None,
        }
    }
}

/// Where in `members` each name occurs last.
pub(crate) fn last_positions(members: &Vec<(String, Json)>) -> (positions: TextMap<usize>)
    ensures
        positions@.dom() == members_tree(members@).dom(),
        forall|name: Seq<char>| #[trigger]
            positions@.contains_key(name) ==> {
                &&& positions@[name] < members.len()
                &&& members_tree(members@)[name] == members[positions@[name] as int].1@
            },
{
    let mut positions: TextMap<usize> = TextMap::new();
    let mut i: usize = 0;
    assert(members@.take(0) == Seq::<(String, Json)>::empty());
    assert(positions@.dom() == members_tree(members@.take(0)).dom());
    while i < members.len()
        invariant
            i <= members.len(),
            positions@.dom() == members_tree(members@.take(i as int)).dom(),
            forall|name: Seq<char>| #[trigger]
                positions@.contains_key(name) ==> {
                    &&& positions@[name] < i
                    &&& members_tree(members@.take(i as int))[name]
                        == members[positions@[name] as int].1@
                },
        decreases members.len() - i,
    {
        assert(members@.take(i + 1).drop_last() == members@.take(i as int));
        positions.insert(members[i].0.as_str(), i);
        assert(positions@.dom() == members_tree(members@.take(i + 1)).dom());
        i = i + 1;
    }
    assert(members@.take(i as int) == members@);
    positions
}

// ---------------------------------------------------------------------------
// Writing
// ---------------------------------------------------------------------------

/// The number that stands for `n`.
pub open spec fn unsigned_number(n: u64) -> JsonNumber {
    JsonNumber {
        unsigned: Some(n),
        signed: if n <= i64::MAX {
            Some(n as i64)
        } else {
            None
        },
    }
}

/// The number that stands for `n`.
pub open spec fn signed_number(n: i64) -> JsonNumber {
    JsonNumber {
        unsigned: if n >= 0 {
            Some(n as u64)
        } else {
            None
        },
        signed: Some(n),
    }
}

impl Json {
    /// A string.
    pub fn from_text(text: &str) -> (json: Json)
        ensures
            json@ == JsonView::Text(text@),
    {
        Json::Text(text.to_owned())
    }

    /// An unsigned number.
    pub fn from_unsigned(n: u64) -> (json: Json)
        ensures
            json@ == JsonView::Number(unsigned_number(n)),
    {
        Json::Number(
            JsonNumber {
                unsigned: Some(n),
                signed: if n <= i64::MAX as u64 {
                    Some(n as i64)
                } else {
                    None
                },
            },
        )
    }

    /// A signed number.
    pub fn from_signed(n: i64) -> (json: Json)
        ensures
            json@ == JsonView::Number(signed_number(n)),
    {
        Json::Number(
            JsonNumber {
                unsigned: if n >= 0 {
                    Some(n as u64)
                } else {
                    None
                },
                signed: Some(n),
            },
        )
    }
}

/// Adds the member `key` to an object under construction.
pub(crate) fn put(members: &mut Vec<(String, Json)>, key: &str, value: Json)
    ensures
        members_tree(final(members)@) == members_tree(old(members)@).insert(key@, value@),
{
    let ghost before = members@;
    members.push((key.to_owned(), value));
    assert(members@.drop_last() == before);
}

// ---------------------------------------------------------------------------
// Parsing
// ---------------------------------------------------------------------------

/// A parsed JSON value of `serde_json`.
#[verifier::external_type_specification]
#[verifier::external_body]
pub struct ExValue(serde_json::Value);

/// What a `serde_json::Value` holds: the variant, and below an array or an object
/// what each of its items holds.
pub uninterp spec fn value_tree(value: serde_json::Value) -> JsonView;

/// The value that a text is the JSON of, where it is the JSON of one.
pub uninterp spec fn json_value(text: Seq<char>) -> Option<JsonView>;

/// Whether a text begins with an opening brace.
pub open spec fn begins_with_brace(text: Seq<char>) -> bool {
    text.len() > 0 && text[0] == '{'
}

/// Calls `serde_json::from_str` for a `serde_json::Value`. Claims that whether the
/// text is JSON, and of which value, depends on its characters alone. A text with a number
/// out of range, or nested too deep, is not read, wherever in it that stands; where a name
/// occurs twice in an object the later member is kept. Claims further that a text that
/// begins with an opening brace is read as an object, if at all, and that one that ends
/// with a closing brace as well goes from the one to the other, however it is spread over
/// lines.
#[verifier::external_body]
fn read_value(text: &str) -> (value: Option<serde_json::Value>)
    ensures
        match value {
            Some(v) => json_value(text@) == Some(value_tree(v)),
            None => json_value(text@) is None,
        },
        value matches Some(v) ==> (begins_with_brace(text@) ==> value_tree(v) is Object),
        value is Some && begins_with_brace(text@) && text@.last() == '}' ==> is_balanced(text@),
{
    serde_json::from_str(text).ok()
}

/// Moves the content of a `serde_json::Value` into a [`Json`], variant by variant; a
/// number by `Number::as_u64` and `Number::as_i64`. Claims that the tree is what the
/// value holds.
#[verifier::external_body]
fn move_value(value: serde_json::Value) -> (json: Json)
    ensures
        json@ == value_tree(value),
{
    match value {
        serde_json::Value::Null => Json::Null,
        serde_json::Value::Bool(b) => Json::Bool(b),
        serde_json::Value::Number(n) => Json::Number(
            JsonNumber { unsigned: n.as_u64(), signed: n.as_i64() },
        ),
        serde_json::Value::String(s) => Json::Text(s),
        serde_json::Value::Array(a) => Json::Array(a.into_iter().map(move_value).collect()),
        serde_json::Value::Object(m) => Json::Object(
            m.into_iter().map(|(name, v)| (name, move_value(v))).collect(),
        ),
    }
}

/// The value that `text` is the JSON of, where it is the JSON of one.
pub fn parse_json(text: &str) -> (json: Option<Json>)
    ensures
        match json {
            Some(j) => json_value(text@) == Some(j@),
            None => json_value(text@) is None,
        },
        json matches Some(j) ==> (begins_with_brace(text@) ==> j@ is Object),
        json is Some && begins_with_brace(text@) && text@.last() == '}' ==> is_balanced(text@),
{
    match read_value(text) {
        Some(value) => Some(move_value(value)),
        None => None,
    }
}

// ---------------------------------------------------------------------------
// Rendering
// ---------------------------------------------------------------------------

/// Whether a number is a whole number that is as [`unsigned_number`] or
/// [`signed_number`] has it.
pub open spec fn is_whole(n: JsonNumber) -> bool {
    match n.unsigned {
        Some(u) => n == unsigned_number(u),
        None => n.signed matches Some(i) && n == signed_number(i),
    }
}

/// Whether a value has whole numbers only, and at most `levels` arrays and objects
/// inside one another.
pub open spec fn is_plain(json: JsonView, levels: nat) -> bool
    decreases levels,
{
    match json {
        JsonView::Number(n) => is_whole(n),
        JsonView::Array(elements) => {
            &&& levels > 0
            &&& forall|i: int|
                0 <= i < elements.len() ==> is_plain(#[trigger] elements[i], (levels - 1) as nat)
        },
        JsonView::Object(members) => {
            &&& levels > 0
            &&& forall|key: Seq<char>| #[trigger]
                members.contains_key(key) ==> is_plain(members[key], (levels - 1) as nat)
        },
        _ => true,
    }
}

/// How many arrays and objects inside one another `serde_json` reads.
pub open spec fn readable_levels() -> nat {
    127
}

/// `serde_json::Value::Null`.
#[verifier::external_body]
fn null_value() -> (value: serde_json::Value)
    ensures
        value_tree(value) == JsonView::Null,
{
    serde_json::Value::Null
}

/// `serde_json::Value::Bool`.
#[verifier::external_body]
fn value_of_bool(b: bool) -> (value: serde_json::Value)
    ensures
        value_tree(value) == JsonView::Bool(b),
{
    serde_json::Value::Bool(b)
}

/// `serde_json::Value::from` for an unsigned integer. Claims that the number is read
/// back by `as_u64`, and by `as_i64` where it fits.
#[verifier::external_body]
fn value_of_u64(n: u64) -> (value: serde_json::Value)
    ensures
        value_tree(value) == JsonView::Number(unsigned_number(n)),
{
    serde_json::Value::from(n)
}

/// `serde_json::Value::from` for a signed integer. Claims that the number is read back
/// by `as_i64`, and by `as_u64` where it is not negative.
#[verifier::external_body]
fn value_of_i64(n: i64) -> (value: serde_json::Value)
    ensures
        value_tree(value) == JsonView::Number(signed_number(n)),
{
    serde_json::Value::from(n)
}

/// `serde_json::Value::from` for a text.
#[verifier::external_body]
fn value_of_text(text: &str) -> (value: serde_json::Value)
    ensures
        value_tree(value) == JsonView::Text(text@),
{
    serde_json::Value::from(text)
}

/// `serde_json::Value::Array`. Claims that the elements are kept in their order.
#[verifier::external_body]
fn array_value(elements: Vec<serde_json::Value>) -> (value: serde_json::Value)
    ensures
        value_tree(value) == JsonView::Array(
            elements@.map_values(|v: serde_json::Value| value_tree(v)),
        ),
{
    serde_json::Value::Array(elements)
}

/// `serde_json::Value::Object` of an empty `serde_json::Map`.
#[verifier::external_body]
fn object_value() -> (value: serde_json::Value)
    ensures
        value_tree(value) == JsonView::Object(Map::empty()),
{
    serde_json::Value::Object(serde_json::Map::new())
}

/// Assigns to a member of an object through `IndexMut` of `serde_json::Value`. Claims
/// that the member is added, or replaced where there is one of its name, and that the
/// other members stay as they are.
#[verifier::external_body]
fn put_member(object: &mut serde_json::Value, name: &str, member: serde_json::Value)
    requires
        value_tree(*old(object)) is Object,
    ensures
        value_tree(*final(object)) == JsonView::Object(
            value_tree(*old(object))->Object_0.insert(name@, value_tree(member)),
        ),
{
    object[name] = member;
}

/// Calls `serde_json::to_string`. Claims that a value with whole numbers, nested no
/// deeper than `serde_json::from_str` reads, has a text that is read back as the value;
/// and that the text of an object goes from an opening brace to the brace that closes it.
/// The first holds of every member name because the features `raw_value` and
/// `arbitrary_precision` are off.
#[verifier::external_body]
fn write_value(value: &serde_json::Value) -> (text: Option<String>)
    requires
        is_plain(value_tree(*value), readable_levels()),
    ensures
        text is Some,
        json_value(text->0@) == Some(value_tree(*value)),
        value_tree(*value) is Object ==> is_balanced(text->0@),
{
    serde_json::to_string(value).ok()
}

/// The `serde_json::Value` of a number, where it is whole.
fn build_number(n: &JsonNumber) -> (value: Option<serde_json::Value>)
    ensures
        value is Some <==> is_whole(*n),
        value matches Some(v) ==> value_tree(v) == JsonView::Number(*n),
{
    match n.unsigned {
        Some(u) => {
            let signed: Option<i64> = if u <= i64::MAX as u64 {
                Some(u as i64)
            } else {
                None
            };
            if n.signed == signed {
                Some(value_of_u64(u))
            } else {
                None
            }
        },
        None => match n.signed {
            Some(i) => if i < 0 {
                Some(value_of_i64(i))
            } else {
                None
            },
            None => None,
        },
    }
}

/// The `serde_json::Value` of a tree, where it is plain to `levels` levels.
fn build_value(json: &Json, levels: usize) -> (value: Option<serde_json::Value>)
    ensures
        value is Some <==> is_plain(json@, levels as nat),
        value matches Some(v) ==> value_tree(v) == json@,
    decreases levels, 1int,
{
    match json {
        Json::Null => Some(null_value()),
        Json::Bool(b) => Some(value_of_bool(*b)),
        Json::Number(n) => build_number(n),
        Json::Text(s) => Some(value_of_text(s.as_str())),
        Json::Array(elements) => if levels == 0 {
            None
        } else {
            build_array(elements, levels)
        },
        Json::Object(members) => if levels == 0 {
            None
        } else {
            build_object(members, levels)
        },
    }
}

fn build_array(elements: &Vec<Json>, levels: usize) -> (value: Option<serde_json::Value>)
    requires
        levels > 0,
    ensures
        value is Some <==> is_plain(JsonView::Array(elements_tree(elements@)), levels as nat),
        value matches Some(v) ==> value_tree(v) == JsonView::Array(elements_tree(elements@)),
    decreases levels, 0int,
{
    let mut values: Vec<serde_json::Value> = Vec::new();
    let mut i: usize = 0;
    let ghost trees = elements_tree(elements@);
    proof {
        lemma_elements_tree(elements@);
    }
    while i < elements.len()
        invariant
            levels > 0,
            i <= elements.len(),
            values@.len() == i,
            trees.len() == elements@.len(),
            trees == elements_tree(elements@),
            forall|k: int| 0 <= k < trees.len() ==> (#[trigger] trees[k]) == elements@[k]@,
            forall|k: int| 0 <= k < i ==> value_tree(#[trigger] values@[k]) == trees[k],
            forall|k: int| 0 <= k < i ==> is_plain(#[trigger] trees[k], (levels - 1) as nat),
        decreases elements.len() - i,
    {
        match build_value(&elements[i], levels - 1) {
            Some(value) => {
                values.push(value);
            },
            None => {
                assert(!is_plain(trees[i as int], (levels - 1) as nat));
                assert(JsonView::Array(trees)->Array_0 == trees);
                return None;
            },
        }
        i = i + 1;
    }
    assert(values@.map_values(|v: serde_json::Value| value_tree(v)) =~= trees);
    Some(array_value(values))
}

fn build_object(members: &Vec<(String, Json)>, levels: usize) -> (value: Option<serde_json::Value>)
    requires
        levels > 0,
    ensures
        value is Some <==> is_plain(JsonView::Object(members_tree(members@)), levels as nat),
        value matches Some(v) ==> value_tree(v) == JsonView::Object(members_tree(members@)),
    decreases levels, 0int,
{
    let positions: TextMap<usize> = last_positions(members);
    let entries = positions.entries();
    let ghost tree = members_tree(members@);
    let mut object: serde_json::Value = object_value();
    let mut i: usize = 0;
    assert(entries@.take(0) == Seq::<(String, usize)>::empty());
    assert(named(entries@.take(0)).map_values(|p: usize| members@[p as int].1@) =~= Map::<
        Seq<char>,
        JsonView,
    >::empty());
    while i < entries.len()
        invariant
            levels > 0,
            i <= entries.len(),
            tree == members_tree(members@),
            named(entries@) == positions@,
            distinct_names(entries@),
            positions@.dom() == tree.dom(),
            forall|name: Seq<char>| #[trigger]
                positions@.contains_key(name) ==> {
                    &&& positions@[name] < members.len()
                    &&& tree[name] == members[positions@[name] as int].1@
                },
            forall|name: Seq<char>| #[trigger]
                named(entries@.take(i as int)).contains_key(name) ==> is_plain(
                    members@[named(entries@.take(i as int))[name] as int].1@,
                    (levels - 1) as nat,
                ),
            value_tree(object) == JsonView::Object(
                named(entries@.take(i as int)).map_values(|p: usize| members@[p as int].1@),
            ),
        decreases entries.len() - i,
    {
        proof {
            lemma_named_at(entries@, i as int);
            assert(positions@.contains_key(entries@[i as int].0@));
            assert(entries@.take(i + 1).drop_last() == entries@.take(i as int));
        }
        match build_value(&members[entries[i].1].1, levels - 1) {
            Some(value) => {
                put_member(&mut object, entries[i].0.as_str(), value);
                assert(named(entries@.take(i + 1)).map_values(|p: usize| members@[p as int].1@)
                    =~= named(entries@.take(i as int)).map_values(
                    |p: usize| members@[p as int].1@,
                ).insert(entries@[i as int].0@, members@[entries@[i as int].1 as int].1@));
            },
            None => {
                assert(tree.contains_key(entries@[i as int].0@));
                assert(JsonView::Object(tree)->Object_0 == tree);
                return None;
            },
        }
        i = i + 1;
    }
    assert(entries@.take(i as int) == entries@);
    proof {
        assert forall|name: Seq<char>| #[trigger] tree.contains_key(name) implies is_plain(
            tree[name],
            (levels - 1) as nat,
        ) by {
            assert(positions@.contains_key(name));
        }
        assert(positions@.map_values(|p: usize| members@[p as int].1@) =~= tree) by {
            assert forall|name: Seq<char>| #[trigger] tree.contains_key(name) implies positions@[name]
                < members.len() && tree[name] == members@[positions@[name] as int].1@ by {
                assert(positions@.contains_key(name));
            }
        }
    }
    Some(object)
}

impl Json {
    /// A text that is read as this value. There is one where the value has whole numbers
    /// only and is nested no deeper than can be read.
    pub fn to_text(&self) -> (text: Option<String>)
        ensures
            text is Some <==> is_plain(self@, readable_levels()),
            text matches Some(t) ==> json_value(t@) == Some(self@),
            text matches Some(t) ==> (self@ is Object ==> is_balanced(t@)),
    {
        match build_value(self, 127) {
            Some(value) => write_value(&value),
            None => None,
        }
    }
}

/// Room for more levels does no harm.
pub proof fn lemma_plain_within(json: JsonView, fewer: nat, more: nat)
    requires
        fewer <= more,
        is_plain(json, fewer),
    ensures
        is_plain(json, more),
    decreases fewer,
{
    match json {
        JsonView::Array(elements) => {
            assert forall|i: int| 0 <= i < elements.len() implies is_plain(
                #[trigger] elements[i],
                (more - 1) as nat,
            ) by {
                lemma_plain_within(elements[i], (fewer - 1) as nat, (more - 1) as nat);
            }
        },
        JsonView::Object(members) => {
            assert forall|key: Seq<char>| #[trigger] members.contains_key(key) implies is_plain(
                members[key],
                (more - 1) as nat,
            ) by {
                lemma_plain_within(members[key], (fewer - 1) as nat, (more - 1) as nat);
            }
        },
        _ => {},
    }
}

// ---------------------------------------------------------------------------
// Laws
// ---------------------------------------------------------------------------

/// A value is read as what it is and as nothing else.
pub proof fn law_values_are_read_as_what_they_are(
    b: bool,
    n: JsonNumber,
    t: Seq<char>,
    elements: Seq<JsonView>,
    members: Map<Seq<char>, JsonView>,
    key: Seq<char>,
    index: int,
)
    ensures
        JsonView::Bool(b).bool() == Some(b),
        JsonView::Number(n).unsigned() == n.unsigned,
        JsonView::Number(n).signed() == n.signed,
        JsonView::Text(t).text() == Some(t),
        0 <= index < elements.len() ==> JsonView::Array(elements).element(index) == Some(
            elements[index],
        ),
        !(0 <= index < elements.len()) ==> JsonView::Array(elements).element(index) is None,
        members.contains_key(key) ==> JsonView::Object(members).member(key) == Some(members[key]),
        !members.contains_key(key) ==> JsonView::Object(members).member(key) is None,
        forall|json: JsonView| !(json is Bool) ==> (#[trigger] json.bool()) is None,
        forall|json: JsonView| !(json is Number) ==> (#[trigger] json.unsigned()) is None,
        forall|json: JsonView| !(json is Number) ==> (#[trigger] json.signed()) is None,
        forall|json: JsonView| !(json is Text) ==> (#[trigger] json.text()) is None,
        forall|json: JsonView| !(json is Array) ==> (#[trigger] json.element(index)) is None,
        forall|json: JsonView| !(json is Object) ==> (#[trigger] json.member(key)) is None,
        forall|json: JsonView|
            (#[trigger] json.text_at(key)) == match json.member(key) {
                Some(JsonView::Text(s)) => Some(s),
                _ => None,
            },
{
}

/// A whole number is itself, as an unsigned and as a signed one, where it fits.
pub proof fn law_numbers_are_themselves(u: u64, i: i64)
    ensures
        unsigned_number(u).unsigned == Some(u),
        unsigned_number(u).signed matches Some(s) ==> s == u,
        unsigned_number(u).signed is None <==> u > i64::MAX,
        signed_number(i).signed == Some(i),
        signed_number(i).unsigned matches Some(s) ==> s == i,
        signed_number(i).unsigned is None <==> i < 0,
        u == i ==> unsigned_number(u) == signed_number(i),
{
}

/// The model of a tree holds what the tree holds: an array its elements in order, and an
/// object its members by name, the later of two of one name.
pub proof fn law_trees_are_modelled_whole(
    elements: Vec<Json>,
    members: Vec<(String, Json)>,
    text: String,
    b: bool,
    n: JsonNumber,
)
    ensures
        Json::Null@ == JsonView::Null,
        Json::Bool(b)@ == JsonView::Bool(b),
        Json::Number(n)@ == JsonView::Number(n),
        Json::Text(text)@ == JsonView::Text(text@),
        Json::Array(elements)@ matches JsonView::Array(models) && models.len() == elements@.len()
            && forall|k: int| 0 <= k < models.len() ==> #[trigger] models[k] == elements@[k]@,
        Json::Object(members)@ matches JsonView::Object(models) && (forall|k: int|
            0 <= k < members@.len() && (forall|l: int|
                k < l < members@.len() ==> (#[trigger] members@[l]).0@ != members@[k].0@)
                ==> models.contains_key((#[trigger] members@[k]).0@) && models[members@[k].0@]
                == members@[k].1@) && (forall|name: Seq<char>| #[trigger]
            models.contains_key(name) ==> exists|k: int|
                0 <= k < members@.len() && (#[trigger] members@[k]).0@ == name),
{
    lemma_elements_tree(elements@);
    let models = members_tree(members@);
    assert forall|k: int|
        0 <= k < members@.len() && (forall|l: int|
            k < l < members@.len() ==> (#[trigger] members@[l]).0@ != members@[k].0@) implies models.contains_key(
        (#[trigger] members@[k]).0@,
    ) && models[members@[k].0@] == members@[k].1@ by {
        lemma_members_tree_at(members@, k);
    }
    assert forall|name: Seq<char>| #[trigger] models.contains_key(name) implies exists|k: int|
        0 <= k < members@.len() && (#[trigger] members@[k]).0@ == name by {
        if forall|k: int| 0 <= k < members@.len() ==> (#[trigger] members@[k]).0@ != name {
            lemma_members_tree_without(members@, name);
        }
    }
}

} // verus!
