//! The free-form attributes of a span: a finite map from keys to text values, kept in
//! the order in which the keys were first set.

use vstd::prelude::*;
use crate::text::same_text;

verus! {

/// One attribute of a span, both parts reduced to text.
pub struct Attribute {
    pub key: String,
    pub value: String,
}

/// The attributes of a span. Each key occurs at most once; setting a key that is
/// present replaces its value.
pub struct AttributeList {
    entries: Vec<Attribute>,
}

/// The keys and values of a list of entries, in order.
pub open spec fn entry_texts(entries: Seq<Attribute>) -> Seq<(Seq<char>, Seq<char>)> {
    Seq::new(entries.len(), |i: int| (entries[i].key@, entries[i].value@))
}

/// Whether no key occurs twice among `texts`.
pub open spec fn keys_distinct(texts: Seq<(Seq<char>, Seq<char>)>) -> bool {
    forall|i: int, j: int|
        0 <= i < texts.len() && 0 <= j < texts.len() && (#[trigger] texts[i]).0 == (
        #[trigger] texts[j]).0 ==> i == j
}

/// Whether `key` occurs among `texts`.
pub open spec fn has_key(texts: Seq<(Seq<char>, Seq<char>)>, key: Seq<char>) -> bool {
    exists|i: int| 0 <= i < texts.len() && (#[trigger] texts[i]).0 == key
}

/// An index at which `key` occurs among `texts`.
pub open spec fn index_of_key(texts: Seq<(Seq<char>, Seq<char>)>, key: Seq<char>) -> int {
    choose|i: int| 0 <= i < texts.len() && (#[trigger] texts[i]).0 == key
}

/// The map that entries with distinct keys stand for.
pub open spec fn entries_map(texts: Seq<(Seq<char>, Seq<char>)>) -> Map<Seq<char>, Seq<char>> {
    Map::new(|key: Seq<char>| has_key(texts, key), |key: Seq<char>| texts[index_of_key(texts, key)].1)
}

/// The entries after `key` was set to `value`: the entry of the key has the new value,
/// or a new entry stands at the end.
pub open spec fn entries_put(texts: Seq<(Seq<char>, Seq<char>)>, key: Seq<char>, value: Seq<char>) -> Seq<
    (Seq<char>, Seq<char>),
> {
    if has_key(texts, key) {
        texts.update(index_of_key(texts, key), (key, value))
    } else {
        texts.push((key, value))
    }
}

/// Setting a key keeps the keys distinct and sets the key in the map of the entries.
pub proof fn put_sets_the_key(texts: Seq<(Seq<char>, Seq<char>)>, key: Seq<char>, value: Seq<char>)
    requires
        keys_distinct(texts),
    ensures
        keys_distinct(entries_put(texts, key, value)),
        entries_map(entries_put(texts, key, value)) == entries_map(texts).insert(key, value),
{
    let after = entries_put(texts, key, value);
    let last = texts.len() as int;
    let at = if has_key(texts, key) {
        index_of_key(texts, key)
    } else {
        last
    };
    assert(after[at] == (key, value));
    assert forall|j: int| 0 <= j < after.len() && j != at implies #[trigger] after[j] == texts[j] by {}
    assert forall|a: int, b: int|
        0 <= a < after.len() && 0 <= b < after.len() && (#[trigger] after[a]).0 == (
        #[trigger] after[b]).0 implies a == b by {
        if a != at && b != at {
            assert(texts[a].0 == texts[b].0);
        } else if a != at {
            assert(texts[a].0 == key);
            if has_key(texts, key) {
                assert(texts[at].0 == key);
            }
        } else if b != at {
            assert(texts[b].0 == key);
            if has_key(texts, key) {
                assert(texts[at].0 == key);
            }
        }
    }
    assert forall|q: Seq<char>| has_key(after, q) == (has_key(texts, q) || q == key) by {
        if has_key(after, q) {
            let j = index_of_key(after, q);
            if j != at {
                assert(texts[j].0 == q);
            }
        }
        if has_key(texts, q) {
            let j = index_of_key(texts, q);
            if j != at {
                assert(after[j].0 == q);
            } else {
                assert(texts[at].0 == key);
            }
        }
        if q == key {
            assert(after[at].0 == q);
        }
    }
    assert forall|q: Seq<char>| has_key(after, q) implies #[trigger] entries_map(after)[q]
        == entries_map(texts).insert(key, value)[q] by {
        let j = index_of_key(after, q);
        assert(after[j].0 == q);
        if q == key {
            assert(after[at].0 == key);
            assert(j == at);
        } else {
            assert(j != at);
            assert(texts[j].0 == q);
            let j0 = index_of_key(texts, q);
            assert(texts[j0].0 == q);
            assert(j0 == j);
        }
    }
    assert(entries_map(after) =~= entries_map(texts).insert(key, value));
}

/// The text of the JSON object that has a member for each key, with the value as a
/// JSON string, as serde_json writes it.
pub uninterp spec fn json_object_text(entries: Seq<(Seq<char>, Seq<char>)>) -> Seq<char>;

/// Collects the entries into a `serde_json::Map` with string values and writes the
/// object with `serde_json::Value::to_string`.
#[verifier::external_body]
fn write_json_object(entries: &Vec<Attribute>) -> (text: String)
    ensures
        text@ == json_object_text(entry_texts(entries@)),
{
    let members: serde_json::Map<String, serde_json::Value> = entries
        .iter()
        .map(|e| (e.key.clone(), serde_json::Value::String(e.value.clone())))
        .collect();
    serde_json::Value::Object(members).to_string()
}

/// The value that entries hold for `key`, if any.
pub open spec fn lookup(texts: Seq<(Seq<char>, Seq<char>)>, key: Seq<char>) -> Option<Seq<char>> {
    if has_key(texts, key) {
        Some(texts[index_of_key(texts, key)].1)
    } else {
        None
    }
}

impl View for AttributeList {
    type V = Seq<(Seq<char>, Seq<char>)>;

    /// The keys and values in the order in which the keys were first set.
    closed spec fn view(&self) -> Seq<(Seq<char>, Seq<char>)> {
        entry_texts(self.entries@)
    }
}

impl AttributeList {
    /// The invariant of the list: no key occurs twice.
    pub open spec fn wf(&self) -> bool {
        keys_distinct(self@)
    }

    /// The map that the list stands for.
    pub open spec fn map(&self) -> Map<Seq<char>, Seq<char>> {
        entries_map(self@)
    }

    /// The list without entries.
    pub fn new() -> (out: Self)
        ensures
            out.wf(),
            out@ == Seq::<(Seq<char>, Seq<char>)>::empty(),
    {
        let out = AttributeList { entries: Vec::new() };
        proof {
            assert(out@ =~= Seq::<(Seq<char>, Seq<char>)>::empty());
        }
        out
    }

    /// How many keys are set.
    pub fn len(&self) -> (n: usize)
        ensures
            n == self@.len(),
    {
        self.entries.len()
    }

    /// The entry at position `i`, in the order in which the keys were first set.
    pub fn entry(&self, i: usize) -> (e: &Attribute)
        requires
            i < self@.len(),
        ensures
            (e.key@, e.value@) == self@[i as int],
    {
        &self.entries[i]
    }

    /// The attributes as the text of a JSON object.
    pub fn to_json(&self) -> (text: String)
        ensures
            text@ == json_object_text(self@),
    {
        write_json_object(&self.entries)
    }

    /// Where `key` stands among the entries.
    fn position(&self, key: &str) -> (r: Option<usize>)
        ensures
            match r {
                Some(i) => i < self@.len() && self@[i as int].0 == key@,
                None => !has_key(self@, key@),
            },
    {
        let mut i: usize = 0;
        while i < self.entries.len()
            invariant
                i <= self.entries.len(),
                forall|j: int| 0 <= j < i ==> (#[trigger] self@[j]).0 != key@,
            decreases self.entries.len() - i,
        {
            if same_text(self.entries[i].key.as_str(), key) {
                return Some(i);
            }
            i += 1;
        }
        None
    }

    /// The value set for `key`, if any.
    pub fn get(&self, key: &str) -> (r: Option<&String>)
        requires
            self.wf(),
        ensures
            match r {
                Some(v) => lookup(self@, key@) == Some(v@),
                None => lookup(self@, key@) is None,
            },
    {
        match self.position(key) {
            Some(i) => {
                proof {
                    let chosen = index_of_key(self@, key@);
                    assert(self@[i as int].0 == key@);
                    assert(chosen == i);
                }
                Some(&self.entries[i].value)
            },
            None => None,
        }
    }

    /// Sets `key` to `value`, replacing the value that the key had; a new key goes to
    /// the end of the entries.
    pub fn insert(&mut self, key: String, value: String)
        requires
            old(self).wf(),
        ensures
            final(self).wf(),
            final(self)@ == entries_put(old(self)@, key@, value@),
    {
        let ghost before = self@;
        proof {
            put_sets_the_key(before, key@, value@);
        }
        match self.position(key.as_str()) {
            Some(i) => {
                proof {
                    let chosen = index_of_key(before, key@);
                    assert(before[i as int].0 == key@);
                    assert(chosen == i);
                }
                self.entries[i] = Attribute { key, value };
                proof {
                    assert(self@ =~= entries_put(before, key@, value@));
                }
            },
            None => {
                self.entries.push(Attribute { key, value });
                proof {
                    assert(self@ =~= entries_put(before, key@, value@));
                }
            },
        }
    }
}

} // verus!
