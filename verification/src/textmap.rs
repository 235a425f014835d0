//! Maps keyed by text.

use vstd::prelude::*;

use crate::text::same_text;

verus! {

/// What a list of named values maps each name to; the later of two with one name
/// counts.
pub open spec fn named<V>(entries: Seq<(String, V)>) -> Map<Seq<char>, V>
    decreases entries.len(),
{
    if entries.len() == 0 {
        Map::empty()
    } else {
        named(entries.drop_last()).insert(entries.last().0@, entries.last().1)
    }
}

/// Whether no name occurs twice.
pub open spec fn distinct_names<V>(entries: Seq<(String, V)>) -> bool {
    forall|i: int, j: int|
        0 <= i < j < entries.len() ==> (#[trigger] entries[i]).0@ != (#[trigger] entries[j]).0@
}

/// A map from texts to values.
#[derive(Debug)]
pub struct TextMap<V> {
    entries: Vec<(String, V)>,
}

impl<V> View for TextMap<V> {
    type V = Map<Seq<char>, V>;

    closed spec fn view(&self) -> Map<Seq<char>, V> {
        named(self.entries@)
    }
}

impl<V> TextMap<V> {
    #[verifier::type_invariant]
    spec fn well_formed(self) -> bool {
        distinct_names(self.entries@)
    }

    /// The map with no entry.
    pub fn new() -> (map: TextMap<V>)
        ensures
            map@ == Map::<Seq<char>, V>::empty(),
    {
        TextMap { entries: Vec::new() }
    }

    fn position(&self, key: &str) -> (position: Option<usize>)
        ensures
            match position {
                Some(i) => i < self.entries.len() && self.entries[i as int].0@ == key@,
                None => forall|i: int|
                    0 <= i < self.entries.len() ==> (#[trigger] self.entries[i]).0@ != key@,
            },
    {
        let mut i: usize = 0;
        while i < self.entries.len()
            invariant
                i <= self.entries.len(),
                forall|j: int| 0 <= j < i ==> (#[trigger] self.entries[j]).0@ != key@,
            decreases self.entries.len() - i,
        {
            if same_text(self.entries[i].0.as_str(), key) {
                return Some(i);
            }
            i = i + 1;
        }
        None
    }

    /// The value at `key`.
    pub fn get(&self, key: &str) -> (value: Option<&V>)
        ensures
            match value {
                Some(v) => self@.contains_key(key@) && self@[key@] == *v,
                None => !self@.contains_key(key@),
            },
    {
        proof {
            use_type_invariant(self);
        }
        match self.position(key) {
            Some(i) => {
                proof {
                    lemma_named_at(self.entries@, i as int);
                }
                Some(&self.entries[i].1)
            },
            None => {
                proof {
                    lemma_named_without(self.entries@, key@);
                }
                None
            },
        }
    }

    /// Puts `value` at `key`, in the place of what was there.
    pub fn insert(&mut self, key: &str, value: V)
        ensures
            final(self)@ == old(self)@.insert(key@, value),
    {
        proof {
            use_type_invariant(&*self);
        }
        let position: Option<usize> = self.position(key);
        let mut entries: Vec<(String, V)> = Vec::new();
        std::mem::swap(&mut entries, &mut self.entries);
        let ghost before = entries@;
        match position {
            Some(i) => {
                entries.set(i, (key.to_owned(), value));
                proof {
                    lemma_named_set(before, i as int, entries@[i as int]);
                }
            },
            None => {
                entries.push((key.to_owned(), value));
                assert(entries@.drop_last() == before);
            },
        }
        assert(distinct_names(entries@));
        self.entries = entries;
    }

    /// The entries, each name once.
    pub fn entries(&self) -> (entries: &Vec<(String, V)>)
        ensures
            named(entries@) == self@,
            distinct_names(entries@),
    {
        proof {
            use_type_invariant(self);
        }
        &self.entries
    }
}

/// The last value with a name is the one that the name maps to.
pub proof fn lemma_named_at<V>(entries: Seq<(String, V)>, i: int)
    requires
        0 <= i < entries.len(),
        forall|j: int| i < j < entries.len() ==> (#[trigger] entries[j]).0@ != entries[i].0@,
    ensures
        named(entries).contains_key(entries[i].0@),
        named(entries)[entries[i].0@] == entries[i].1,
    decreases entries.len(),
{
    if i < entries.len() - 1 {
        assert(entries.last() == entries[entries.len() - 1]);
        lemma_named_at(entries.drop_last(), i);
    }
}

/// A name that does not occur maps to nothing.
pub proof fn lemma_named_without<V>(entries: Seq<(String, V)>, key: Seq<char>)
    requires
        forall|j: int| 0 <= j < entries.len() ==> (#[trigger] entries[j]).0@ != key,
    ensures
        !named(entries).contains_key(key),
    decreases entries.len(),
{
    if entries.len() > 0 {
        assert(entries.last() == entries[entries.len() - 1]);
        lemma_named_without(entries.drop_last(), key);
    }
}

/// Setting the entry of a name that occurs once sets what the name maps to.
proof fn lemma_named_set<V>(entries: Seq<(String, V)>, i: int, entry: (String, V))
    requires
        0 <= i < entries.len(),
        distinct_names(entries),
        entry.0@ == entries[i].0@,
    ensures
        named(entries.update(i, entry)) == named(entries).insert(entry.0@, entry.1),
    decreases entries.len(),
{
    let last = entries.last();
    if i == entries.len() - 1 {
        assert(entries.update(i, entry).drop_last() == entries.drop_last());
    } else {
        lemma_named_set(entries.drop_last(), i, entry);
        assert(entries.update(i, entry).drop_last() == entries.drop_last().update(i, entry));
        assert(entries[i].0@ != entries[entries.len() - 1].0@);
    }
}

/// Entries are a map by name: each name has the value of its last entry, and there are no
/// other names.
pub proof fn law_last_entry_of_a_name_counts<V>(entries: Seq<(String, V)>, name: Seq<char>, k: int)
    ensures
        0 <= k < entries.len() && (forall|l: int|
            k < l < entries.len() ==> (#[trigger] entries[l]).0@ != entries[k].0@)
            ==> named(entries).contains_key(entries[k].0@) && named(entries)[entries[k].0@]
            == entries[k].1,
        named(entries).contains_key(name) <==> exists|l: int|
            0 <= l < entries.len() && (#[trigger] entries[l]).0@ == name,
        distinct_names(entries) <==> forall|i: int, j: int|
            0 <= i < j < entries.len() ==> (#[trigger] entries[i]).0@ != (#[trigger] entries[j]).0@,
    decreases entries.len(),
{
    if entries.len() > 0 {
        let rest = entries.drop_last();
        let last = entries.len() - 1;
        law_last_entry_of_a_name_counts(rest, name, k);
        if 0 <= k < last && (forall|l: int|
            k < l < entries.len() ==> (#[trigger] entries[l]).0@ != entries[k].0@) {
            assert forall|l: int| k < l < rest.len() implies (#[trigger] rest[l]).0@ != rest[k].0@ by {
                assert(rest[l] == entries[l]);
            }
            assert(entries[last].0@ != entries[k].0@);
        }
        if named(rest).contains_key(name) {
            let l = choose|l: int| 0 <= l < rest.len() && (#[trigger] rest[l]).0@ == name;
            assert(entries[l].0@ == name);
        }
        if entries[last].0@ == name {
            assert(named(entries).contains_key(name));
        }
        if exists|l: int| 0 <= l < entries.len() && (#[trigger] entries[l]).0@ == name {
            let l = choose|l: int| 0 <= l < entries.len() && (#[trigger] entries[l]).0@ == name;
            if l < last {
                assert(rest[l].0@ == name);
            }
        }
    }
}

} // verus!
