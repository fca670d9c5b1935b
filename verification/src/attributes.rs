//! Attribute maps: finite mappings from names to JSON values.

use crate::json::{
    distinct_keys, entries_model, json_clone, json_model, json_object, lemma_entries_model,
    JsonModel,
};
use crate::text::same_text;
use vstd::prelude::*;

verus! {

/// A finite mapping from attribute names to JSON values. Each name occurs
/// once; the order in which the entries are kept carries no meaning.
#[derive(Debug)]
pub struct Attributes {
    entries: Vec<(String, serde_json::Value)>,
}

/// Replacing the value of an entry changes the mapping as an insertion under
/// that entry's key does, and keeps the keys distinct.
proof fn lemma_replace_entry(
    entries: Seq<(String, serde_json::Value)>,
    i: int,
    entry: (String, serde_json::Value),
)
    requires
        distinct_keys(entries),
        0 <= i < entries.len(),
        entries[i].0@ == entry.0@,
    ensures
        distinct_keys(entries.update(i, entry)),
        entries_model(entries.update(i, entry)) == entries_model(entries).insert(
            entry.0@,
            json_model(entry.1),
        ),
    decreases entries.len(),
{
    let updated = entries.update(i, entry);
    let front = entries.drop_last();
    assert(distinct_keys(updated)) by {
        assert forall|a: int, b: int| 0 <= a < b < updated.len() implies (#[trigger] updated[a]).0@
            != (#[trigger] updated[b]).0@ by {
            assert(entries[a].0@ != entries[b].0@);
        }
    }
    if i == entries.len() - 1 {
        assert(updated.drop_last() =~= front);
        assert(entries_model(updated) =~= entries_model(entries).insert(
            entry.0@,
            json_model(entry.1),
        ));
    } else {
        assert(distinct_keys(front)) by {
            assert forall|a: int, b: int| 0 <= a < b < front.len() implies (#[trigger] front[a]).0@
                != (#[trigger] front[b]).0@ by {
                assert(entries[a].0@ != entries[b].0@);
            }
        }
        lemma_replace_entry(front, i, entry);
        assert(updated.drop_last() =~= front.update(i, entry));
        assert(updated.last() == entries.last());
        assert(entries[i].0@ != entries[entries.len() - 1].0@);
        assert(entries_model(updated) =~= entries_model(entries).insert(
            entry.0@,
            json_model(entry.1),
        ));
    }
}

/// Entries that agree key by key and content by content stand for one mapping.
proof fn lemma_same_entries(
    a: Seq<(String, serde_json::Value)>,
    b: Seq<(String, serde_json::Value)>,
)
    requires
        a.len() == b.len(),
        forall|i: int|
            0 <= i < a.len() ==> (#[trigger] a[i]).0@ == b[i].0@ && json_model(a[i].1)
                == json_model(b[i].1),
    ensures
        entries_model(a) == entries_model(b),
    decreases a.len(),
{
    if a.len() > 0 {
        lemma_same_entries(a.drop_last(), b.drop_last());
        assert(a.last() == a[a.len() - 1]);
    }
}

impl Clone for Attributes {
    fn clone(&self) -> (copy: Self)
        ensures
            copy@ == self@,
    {
        proof {
            use_type_invariant(self);
        }
        let mut entries: Vec<(String, serde_json::Value)> = Vec::new();
        let mut i: usize = 0;
        while i < self.entries.len()
            invariant
                i <= self.entries@.len(),
                entries@.len() == i,
                forall|k: int|
                    0 <= k < i ==> (#[trigger] entries@[k]).0@ == self.entries@[k].0@
                        && json_model(entries@[k].1) == json_model(self.entries@[k].1),
            decreases self.entries@.len() - i,
        {
            let key = self.entries[i].0.clone();
            let value = json_clone(&self.entries[i].1);
            entries.push((key, value));
            i = i + 1;
        }
        proof {
            lemma_same_entries(entries@, self.entries@);
            assert forall|a: int, b: int| 0 <= a < b < entries@.len() implies (
            #[trigger] entries@[a]).0@ != (#[trigger] entries@[b]).0@ by {
                assert(self.entries@[a].0@ != self.entries@[b].0@);
            }
        }
        Attributes { entries }
    }
}

impl View for Attributes {
    type V = Map<Seq<char>, JsonModel>;

    closed spec fn view(&self) -> Map<Seq<char>, JsonModel> {
        entries_model(self.entries@)
    }
}

impl Attributes {
    #[verifier::type_invariant]
    spec fn keys_differ(self) -> bool {
        distinct_keys(self.entries@)
    }

    /// The entries behind the mapping, each key once.
    pub closed spec fn spec_entries(&self) -> Seq<(String, serde_json::Value)> {
        self.entries@
    }

    /// The empty mapping.
    pub fn new() -> (attributes: Self)
        ensures
            attributes@ == Map::<Seq<char>, JsonModel>::empty(),
    {
        Attributes { entries: Vec::new() }
    }

    /// The mapping of the given entries, which are required to differ in
    /// their keys.
    pub(crate) fn from_distinct_entries(entries: Vec<(String, serde_json::Value)>) -> (attributes: Self)
        requires
            distinct_keys(entries@),
        ensures
            attributes@ == entries_model(entries@),
            attributes.spec_entries() == entries@,
    {
        Attributes { entries }
    }

    /// The position of the entry under `key`, if there is one.
    fn position(&self, key: &str) -> (r: Option<usize>)
        ensures
            match r {
                Some(i) => i < self.entries@.len() && self.entries@[i as int].0@ == key@,
                None => forall|i: int|
                    0 <= i < self.entries@.len() ==> (#[trigger] self.entries@[i]).0@ != key@,
            },
    {
        let mut i: usize = 0;
        while i < self.entries.len()
            invariant
                i <= self.entries@.len(),
                forall|k: int| 0 <= k < i ==> (#[trigger] self.entries@[k]).0@ != key@,
            decreases self.entries@.len() - i,
        {
            if same_text(self.entries[i].0.as_str(), key) {
                return Some(i);
            }
            i = i + 1;
        }
        None
    }

    /// Maps `key` to `value`, in place of any value it had.
    pub fn insert(&mut self, key: String, value: serde_json::Value)
        ensures
            final(self)@ == old(self)@.insert(key@, json_model(value)),
    {
        proof {
            use_type_invariant(&*self);
        }
        let found = self.position(key.as_str());
        let mut taken = Attributes::new();
        std::mem::swap(self, &mut taken);
        let mut entries = taken.entries;
        let ghost before = entries@;
        match found {
            Some(i) => {
                proof {
                    lemma_replace_entry(before, i as int, (key, value));
                }
                entries.set(i, (key, value));
            },
            None => {
                entries.push((key, value));
                proof {
                    assert(entries@.drop_last() =~= before);
                    assert forall|a: int, b: int| 0 <= a < b < entries@.len() implies (
                    #[trigger] entries@[a]).0@ != (#[trigger] entries@[b]).0@ by {
                        if b < before.len() {
                            assert(before[a].0@ != before[b].0@);
                        }
                    }
                }
            },
        }
        *self = Attributes { entries };
    }

    /// The value under `key`.
    pub fn get(&self, key: &str) -> (r: Option<&serde_json::Value>)
        ensures
            match r {
                Some(v) => self@.contains_key(key@) && json_model(*v) == self@[key@],
                None => !self@.contains_key(key@),
            },
    {
        proof {
            use_type_invariant(self);
            lemma_entries_model(self.entries@);
        }
        match self.position(key) {
            Some(i) => Some(&self.entries[i].1),
            None => None,
        }
    }

    /// Whether `key` has a value.
    pub fn contains_key(&self, key: &str) -> (r: bool)
        ensures
            r == self@.contains_key(key@),
    {
        self.get(key).is_some()
    }

    /// The number of keys.
    pub fn len(&self) -> (n: usize)
        ensures
            n == self@.len(),
            self@.dom().finite(),
    {
        proof {
            use_type_invariant(self);
            lemma_distinct_entries_len(self.entries@);
        }
        self.entries.len()
    }

    /// Whether no key has a value.
    pub fn is_empty(&self) -> (r: bool)
        ensures
            r == (self@ == Map::<Seq<char>, JsonModel>::empty()),
    {
        proof {
            use_type_invariant(self);
            lemma_entries_model(self.entries@);
            if self.entries@.len() > 0 {
                assert(self@.contains_key(self.entries@[0].0@));
            } else {
                assert(self@ =~= Map::<Seq<char>, JsonModel>::empty());
            }
        }
        self.entries.len() == 0
    }

    /// The entries of the mapping, each key once, in no particular order.
    pub fn entries(&self) -> (entries: &Vec<(String, serde_json::Value)>)
        ensures
            entries@ == self.spec_entries(),
            distinct_keys(entries@),
            entries_model(entries@) == self@,
    {
        proof {
            use_type_invariant(self);
        }
        &self.entries
    }

    /// The JSON object with the same members.
    pub fn to_json(&self) -> (v: serde_json::Value)
        ensures
            json_model(v) == JsonModel::Object(self@),
    {
        proof {
            use_type_invariant(self);
        }
        json_object(&self.entries)
    }
}

/// Entries with distinct keys stand for a mapping with as many keys.
pub proof fn lemma_distinct_entries_len(entries: Seq<(String, serde_json::Value)>)
    requires
        distinct_keys(entries),
    ensures
        entries_model(entries).dom().finite(),
        entries_model(entries).len() == entries.len(),
    decreases entries.len(),
{
    lemma_entries_model(entries);
    if entries.len() > 0 {
        let front = entries.drop_last();
        assert(distinct_keys(front)) by {
            assert forall|a: int, b: int| 0 <= a < b < front.len() implies (#[trigger] front[a]).0@
                != (#[trigger] front[b]).0@ by {
                assert(entries[a].0@ != entries[b].0@);
            }
        }
        lemma_distinct_entries_len(front);
        lemma_entries_model(front);
        assert(!entries_model(front).contains_key(entries.last().0@)) by {
            if entries_model(front).contains_key(entries.last().0@) {
                let i = choose|i: int|
                    0 <= i < front.len() && (#[trigger] front[i]).0@ == entries.last().0@;
                assert(entries[i].0@ != entries[entries.len() - 1].0@);
            }
        }
    }
}

} // verus!
