//! A map from texts to values.

use crate::text::same_text;
use vstd::prelude::*;

verus! {

/// Named values. No name occurs twice.
pub struct Fields<V> {
    entries: Vec<(String, V)>,
}

/// Whether no key occurs twice in a list of entries.
pub open spec fn distinct_keys<V>(entries: Seq<(String, V)>) -> bool {
    forall|i: int, j: int|
        0 <= i < entries.len() && 0 <= j < entries.len() && (#[trigger] entries[i]).0@ == (
        #[trigger] entries[j]).0@ ==> i == j
}

/// Whether `key` is the key of an entry.
pub open spec fn has_key<V>(entries: Seq<(String, V)>, key: Seq<char>) -> bool {
    exists|i: int| 0 <= i < entries.len() && (#[trigger] entries[i]).0@ == key
}

/// The map that a list of entries with distinct keys stands for.
pub open spec fn entry_map<V>(entries: Seq<(String, V)>) -> Map<Seq<char>, V> {
    Map::new(
        |key: Seq<char>| has_key(entries, key),
        |key: Seq<char>|
            entries[choose|i: int| 0 <= i < entries.len() && (#[trigger] entries[i]).0@ == key].1,
    )
}

impl<V> View for Fields<V> {
    type V = Map<Seq<char>, V>;

    closed spec fn view(&self) -> Map<Seq<char>, V> {
        entry_map(self.entries@)
    }
}

impl<V> Fields<V> {
    #[verifier::type_invariant]
    spec fn well_formed(self) -> bool {
        distinct_keys(self.entries@)
    }

    /// No fields.
    pub fn new() -> (fields: Self)
        ensures
            fields@ == Map::<Seq<char>, V>::empty(),
    {
        let fields = Fields { entries: Vec::new() };
        proof {
            assert(fields@ =~= Map::<Seq<char>, V>::empty());
        }
        fields
    }

    fn position(&self, key: &str) -> (at: Option<usize>)
        ensures
            at is Some <==> has_key(self.entries@, key@),
            at matches Some(i) ==> i < self.entries@.len() && self.entries@[i as int].0@ == key@,
    {
        let mut i: usize = 0;
        while i < self.entries.len()
            invariant
                i <= self.entries@.len(),
                forall|j: int| 0 <= j < i ==> (#[trigger] self.entries@[j]).0@ != key@,
            decreases self.entries@.len() - i,
        {
            if same_text(self.entries[i].0.as_str(), key) {
                return Some(i);
            }
            i = i + 1;
        }
        None
    }

    /// The value of the field `key`.
    pub fn get(&self, key: &str) -> (value: Option<&V>)
        ensures
            value is Some <==> self@.dom().contains(key@),
            value matches Some(v) ==> *v == self@[key@],
    {
        proof {
            use_type_invariant(self);
        }
        match self.position(key) {
            Some(i) => Some(&self.entries[i].1),
            None => None,
        }
    }

    /// The value of the field `key`, out of the fields.
    pub fn take(self, key: &str) -> (value: Option<V>)
        ensures
            value is Some <==> self@.dom().contains(key@),
            value matches Some(v) ==> v == self@[key@],
    {
        proof {
            use_type_invariant(&self);
        }
        match self.position(key) {
            Some(i) => {
                let mut entries = self.entries;
                Some(entries.remove(i).1)
            },
            None => None,
        }
    }

    /// These fields with `key` set to `value`, whether or not it was there.
    pub fn with(self, key: String, value: V) -> (fields: Self)
        ensures
            fields@ == self@.insert(key@, value),
    {
        proof {
            use_type_invariant(&self);
        }
        let found = self.position(key.as_str());
        let mut entries = self.entries;
        let ghost before = entries@;
        match found {
            Some(i) => {
                entries.set(i, (key, value));
                proof {
                    assert forall|a: int, b: int|
                        0 <= a < entries@.len() && 0 <= b < entries@.len() && (
                        #[trigger] entries@[a]).0@ == (#[trigger] entries@[b]).0@ implies a == b by {
                        assert(before[a].0@ == entries@[a].0@);
                        assert(before[b].0@ == entries@[b].0@);
                    }
                }
            },
            None => {
                entries.push((key, value));
                proof {
                    assert forall|a: int, b: int|
                        0 <= a < entries@.len() && 0 <= b < entries@.len() && (
                        #[trigger] entries@[a]).0@ == (#[trigger] entries@[b]).0@ implies a == b by {
                        if a < before.len() {
                            assert(before[a].0@ == entries@[a].0@);
                        }
                        if b < before.len() {
                            assert(before[b].0@ == entries@[b].0@);
                        }
                    }
                }
            },
        }
        proof {
            assert(entry_map(entries@) =~= entry_map(before).insert(key@, value)) by {
                let at = match found {
                    Some(i) => i as int,
                    None => before.len() as int,
                };
                assert(entries@[at].0@ == key@ && entries@[at].1 == value);
                assert forall|k: Seq<char>| k != key@ && has_key(before, k) implies has_key(
                    entries@,
                    k,
                ) && entry_map(entries@)[k] == entry_map(before)[k] by {
                    let j = choose|j: int| 0 <= j < before.len() && (#[trigger] before[j]).0@ == k;
                    assert(entries@[j] == before[j]);
                }
                assert forall|k: Seq<char>| k != key@ && has_key(entries@, k) implies has_key(
                    before,
                    k,
                ) by {
                    let j = choose|j: int|
                        0 <= j < entries@.len() && (#[trigger] entries@[j]).0@ == k;
                    assert(before[j] == entries@[j]);
                }
            }
        }
        Fields { entries }
    }

    /// The fields as a list of entries, one for each key.
    pub fn into_entries(self) -> (entries: Vec<(String, V)>)
        ensures
            distinct_keys(entries@),
            entry_map(entries@) == self@,
            forall|i: int|
                0 <= i < entries@.len() ==> self@.dom().contains((#[trigger] entries@[i]).0@)
                    && self@[entries@[i].0@] == entries@[i].1,
            forall|key: Seq<char>| #[trigger]
                self@.dom().contains(key) ==> exists|i: int|
                    0 <= i < entries@.len() && (#[trigger] entries@[i]).0@ == key,
            forall|i: int, j: int|
                0 <= i < j < entries@.len() ==> (#[trigger] entries@[i]).0@ != (
                #[trigger] entries@[j]).0@,
    {
        proof {
            use_type_invariant(&self);
            assert forall|i: int| 0 <= i < self.entries@.len() implies self@.dom().contains(
                (#[trigger] self.entries@[i]).0@,
            ) && self@[self.entries@[i].0@] == self.entries@[i].1 by {
                assert(has_key(self.entries@, self.entries@[i].0@));
            }
        }
        self.entries
    }
}

} // verus!
