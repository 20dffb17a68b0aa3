//! A dynamically typed value and an ordered-insertion map from string keys
//! to such values, as jobs' data bags and query filters hold them.

use vstd::prelude::*;

use crate::strings::str_eq;

verus! {

/// A dynamically typed value: the content of a data bag entry or of a
/// query filter.
#[derive(Debug, PartialEq)]
pub enum Value {
    /// The absent value.
    Null,
    /// A boolean.
    Bool(bool),
    /// A signed integer.
    Int(i64),
    /// An unsigned integer.
    UInt(u64),
    /// A string.
    Str(String),
    /// An ordered list of values.
    Array(Vec<Value>),
    /// A nested map.
    Object(JsonMap),
}

impl Value {
    /// The characters of a string value, when the value is one.
    pub open spec fn spec_as_str(&self) -> Option<Seq<char>> {
        match self {
            Value::Str(s) => Some(s@),
            _ => None,
        }
    }

    /// True when the value is the string `s`.
    pub fn is_str_value(&self, s: &str) -> (r: bool)
        ensures
            r == (self matches Value::Str(v) && v@ == s@),
    {
        match self {
            Value::Str(v) => str_eq(v.as_str(), s),
            _ => false,
        }
    }
}

/// An ordered-insertion mapping from string keys to [`Value`]s.
///
/// Entries keep the order in which their keys were first inserted, and no
/// key occurs twice; [`JsonMap::spec_wf`] states that invariant.
#[derive(Debug, PartialEq)]
pub struct JsonMap {
    entries: Vec<(String, Value)>,
}

impl View for JsonMap {
    type V = Seq<(String, Value)>;

    closed spec fn view(&self) -> Seq<(String, Value)> {
        self.entries@
    }
}

/// The first index whose key reads `key`, or `-1` when no entry has it.
pub open spec fn spec_index_of_key(entries: Seq<(String, Value)>, key: Seq<char>) -> int
    decreases entries.len(),
{
    if entries.len() == 0 {
        -1
    } else if entries[0].0@ == key {
        0
    } else {
        let rest = spec_index_of_key(entries.drop_first(), key);
        if rest == -1 {
            -1
        } else {
            rest + 1
        }
    }
}

/// What `spec_index_of_key` returns: the first match, if any.
pub proof fn lemma_index_of_key(entries: Seq<(String, Value)>, key: Seq<char>)
    ensures
        spec_index_of_key(entries, key) == -1 ==> forall|j: int|
            0 <= j < entries.len() ==> entries[j].0@ != key,
        spec_index_of_key(entries, key) != -1 ==> {
            let k = spec_index_of_key(entries, key);
            &&& 0 <= k < entries.len()
            &&& entries[k].0@ == key
            &&& forall|j: int| 0 <= j < k ==> entries[j].0@ != key
        },
    decreases entries.len(),
{
    if entries.len() > 0 && entries[0].0@ != key {
        lemma_index_of_key(entries.drop_first(), key);
        let rest = spec_index_of_key(entries.drop_first(), key);
        if rest == -1 {
            assert(forall|j: int|
                1 <= j < entries.len() ==> entries[j].0@ == entries.drop_first()[j - 1].0@);
        } else {
            assert(entries[rest + 1].0@ == entries.drop_first()[rest].0@);
            assert(forall|j: int|
                1 <= j < rest + 1 ==> entries[j].0@ == entries.drop_first()[j - 1].0@);
        }
    }
}

/// True when `entries` holds `key`.
pub open spec fn spec_has_key(entries: Seq<(String, Value)>, key: Seq<char>) -> bool {
    spec_index_of_key(entries, key) != -1
}

/// The value stored under `key`, when there is one.
pub open spec fn spec_get(entries: Seq<(String, Value)>, key: Seq<char>) -> Option<Value> {
    if spec_has_key(entries, key) {
        Some(entries[spec_index_of_key(entries, key)].1)
    } else {
        None
    }
}

/// What inserting `(key, value)` leaves behind: the value is replaced in
/// place when the key is present, and appended at the end otherwise.
pub open spec fn spec_insert(
    entries: Seq<(String, Value)>,
    key: String,
    value: Value,
) -> Seq<(String, Value)> {
    let k = spec_index_of_key(entries, key@);
    if k == -1 {
        entries.push((key, value))
    } else {
        entries.update(k, (entries[k].0, value))
    }
}

/// The entries with their keys read as character sequences.
pub open spec fn pairs_view(entries: Seq<(String, Value)>) -> Seq<(Seq<char>, Value)> {
    entries.map_values(|e: (String, Value)| (e.0@, e.1))
}

/// The first index of `key` among key-sequence pairs, or `-1`.
pub open spec fn spec_obj_index(entries: Seq<(Seq<char>, Value)>, key: Seq<char>) -> int
    decreases entries.len(),
{
    if entries.len() == 0 {
        -1
    } else if entries[0].0 == key {
        0
    } else {
        let rest = spec_obj_index(entries.drop_first(), key);
        if rest == -1 {
            -1
        } else {
            rest + 1
        }
    }
}

/// What inserting `(key, value)` into key-sequence pairs leaves behind:
/// the same replace-in-place-or-append rule as [`spec_insert`].
pub open spec fn spec_obj_set(
    entries: Seq<(Seq<char>, Value)>,
    key: Seq<char>,
    value: Value,
) -> Seq<(Seq<char>, Value)> {
    let k = spec_obj_index(entries, key);
    if k == -1 {
        entries.push((key, value))
    } else {
        entries.update(k, (entries[k].0, value))
    }
}

/// Key lookup reads the same through the key-sequence view.
pub proof fn lemma_obj_index_agrees(entries: Seq<(String, Value)>, key: Seq<char>)
    ensures
        spec_obj_index(pairs_view(entries), key) == spec_index_of_key(entries, key),
    decreases entries.len(),
{
    if entries.len() > 0 {
        assert(pairs_view(entries)[0].0 == entries[0].0@);
        assert(pairs_view(entries).drop_first() =~= pairs_view(entries.drop_first()));
        lemma_obj_index_agrees(entries.drop_first(), key);
    }
}

/// Insertion reads the same through the key-sequence view.
pub proof fn lemma_obj_set_agrees(entries: Seq<(String, Value)>, key: String, value: Value)
    ensures
        pairs_view(spec_insert(entries, key, value)) =~= spec_obj_set(
            pairs_view(entries),
            key@,
            value,
        ),
{
    lemma_obj_index_agrees(entries, key@);
    lemma_index_of_key(entries, key@);
    let k = spec_index_of_key(entries, key@);
    if k == -1 {
        assert(pairs_view(entries.push((key, value))) =~= pairs_view(entries).push((key@, value)));
    } else {
        assert(pairs_view(entries)[k].0 == entries[k].0@);
        assert(pairs_view(entries.update(k, (entries[k].0, value))) =~= pairs_view(
            entries,
        ).update(k, (entries[k].0@, value)));
    }
}

/// Keys are pairwise distinct.
pub open spec fn spec_keys_unique(entries: Seq<(String, Value)>) -> bool {
    forall|i: int, j: int|
        0 <= i < j < entries.len() ==> entries[i].0@ != entries[j].0@
}

impl JsonMap {
    /// The map's well-formedness: no key occurs twice.
    pub open spec fn spec_wf(&self) -> bool {
        spec_keys_unique(self@)
    }

    /// Creates an empty map.
    pub fn new() -> (r: JsonMap)
        ensures
            r@ == Seq::<(String, Value)>::empty(),
            r.spec_wf(),
    {
        JsonMap { entries: Vec::new() }
    }

    /// The number of entries.
    pub fn len(&self) -> (r: usize)
        ensures
            r == self@.len(),
    {
        self.entries.len()
    }

    /// True when the map has no entries.
    pub fn is_empty(&self) -> (r: bool)
        ensures
            r == (self@.len() == 0),
    {
        self.entries.is_empty()
    }

    /// The entries, in insertion order.
    pub fn items(&self) -> (r: &Vec<(String, Value)>)
        ensures
            r@ == self@,
    {
        &self.entries
    }

    /// The entries, in insertion order, consuming the map.
    pub fn into_entries(self) -> (r: Vec<(String, Value)>)
        ensures
            r@ == self@,
    {
        self.entries
    }

    /// Takes the entry at `index` out of the map.
    pub(crate) fn take_at(&mut self, index: usize) -> (entry: (String, Value))
        requires
            index < old(self)@.len(),
        ensures
            entry == old(self)@[index as int],
            final(self)@ == old(self)@.remove(index as int),
    {
        self.entries.remove(index)
    }

    /// Puts an entry back into the map at `index`.
    pub(crate) fn put_at(&mut self, index: usize, entry: (String, Value))
        requires
            index <= old(self)@.len(),
        ensures
            final(self)@ == old(self)@.insert(index as int, entry),
    {
        self.entries.insert(index, entry);
    }

    /// The first index holding `key`, if any.
    pub(crate) fn index_of(&self, key: &str) -> (r: Option<usize>)
        ensures
            match r {
                Some(i) => i == spec_index_of_key(self@, key@) && i < self@.len(),
                None => spec_index_of_key(self@, key@) == -1,
            },
    {
        let n = self.entries.len();
        let mut i: usize = 0;
        while i < n
            invariant
                n == self@.len(),
                i <= n,
                forall|j: int| 0 <= j < i ==> self@[j].0@ != key@,
            decreases n - i,
        {
            if str_eq(self.entries[i].0.as_str(), key) {
                proof {
                    lemma_index_of_key(self@, key@);
                }
                return Some(i);
            }
            i += 1;
        }
        proof {
            lemma_index_of_key(self@, key@);
        }
        None
    }

    /// True when the map holds `key`.
    pub fn contains_key(&self, key: &str) -> (r: bool)
        ensures
            r == spec_has_key(self@, key@),
    {
        self.index_of(key).is_some()
    }

    /// A reference to the value stored under `key`, when there is one.
    pub fn get(&self, key: &str) -> (r: Option<&Value>)
        ensures
            match r {
                Some(v) => spec_get(self@, key@) == Some(*v),
                None => spec_get(self@, key@) is None,
            },
    {
        match self.index_of(key) {
            Some(i) => Some(&self.entries[i].1),
            None => None,
        }
    }

    /// Inserts `value` under `key`: an existing entry keeps its position
    /// and has its value replaced, a new key is appended at the end.
    pub fn insert(&mut self, key: String, value: Value)
        ensures
            final(self)@ == spec_insert(old(self)@, key, value),
            old(self).spec_wf() ==> final(self).spec_wf(),
    {
        proof {
            lemma_index_of_key(self@, key@);
        }
        match self.index_of(key.as_str()) {
            Some(i) => {
                let entry = self.entries.remove(i);
                self.entries.insert(i, (entry.0, value));
                proof {
                    let k = spec_index_of_key(old(self)@, key@);
                    assert(self@ =~= old(self)@.update(k, (old(self)@[k].0, value)));
                }
            }
            None => {
                self.entries.push((key, value));
            }
        }
        proof {
            let k = spec_index_of_key(old(self)@, key@);
            if old(self).spec_wf() {
                if k == -1 {
                    assert forall|i: int, j: int|
                        0 <= i < j < self@.len() implies self@[i].0@ != self@[j].0@ by {
                        if j == self@.len() - 1 {
                            assert(self@[i].0@ == old(self)@[i].0@);
                        }
                    }
                } else {
                    assert forall|i: int, j: int|
                        0 <= i < j < self@.len() implies self@[i].0@ != self@[j].0@ by {
                        assert(self@[i].0@ == old(self)@[i].0@);
                        assert(self@[j].0@ == old(self)@[j].0@);
                    }
                }
            }
        }
    }

    /// Inserts `value` under `key`; reads as an update-or-insert.
    pub fn upsert(&mut self, key: String, value: Value)
        ensures
            final(self)@ == spec_insert(old(self)@, key, value),
            old(self).spec_wf() ==> final(self).spec_wf(),
    {
        self.insert(key, value);
    }
}

/// What moving every entry of `other` into `entries`, front to back,
/// leaves behind.
pub open spec fn spec_append(
    entries: Seq<(String, Value)>,
    other: Seq<(String, Value)>,
) -> Seq<(String, Value)>
    decreases other.len(),
{
    if other.len() == 0 {
        entries
    } else {
        spec_append(spec_insert(entries, other[0].0, other[0].1), other.drop_first())
    }
}

impl JsonMap {
    /// Moves all entries of `other` into `self`, in order, leaving `other`
    /// empty; keys already present keep their position and take the moved
    /// value.
    pub fn append(&mut self, other: &mut JsonMap)
        ensures
            final(self)@ == spec_append(old(self)@, old(other)@),
            final(other)@ == Seq::<(String, Value)>::empty(),
            old(self).spec_wf() ==> final(self).spec_wf(),
    {
        let mut moved: Vec<(String, Value)> = Vec::new();
        core::mem::swap(&mut moved, &mut other.entries);
        // Reverse so that popping yields the entries front to back.
        let mut stack: Vec<(String, Value)> = Vec::new();
        let ghost total = moved@;
        while moved.len() > 0
            invariant
                stack@.len() + moved@.len() == total.len(),
                forall|j: int| 0 <= j < moved@.len() ==> moved@[j] == total[j],
                forall|j: int|
                    0 <= j < stack@.len() ==> stack@[j] == total[total.len() - 1 - j],
            decreases moved@.len(),
        {
            if let Some(e) = moved.pop() {
                stack.push(e);
            }
        }
        let ghost start = self@;
        proof {
            assert(stack@.len() == total.len());
            assert(total.skip(0) =~= total);
        }
        while stack.len() > 0
            invariant
                stack@.len() <= total.len(),
                forall|j: int|
                    0 <= j < stack@.len() ==> stack@[j] == total[total.len() - 1 - j],
                spec_append(start, total) == spec_append(
                    self@,
                    total.skip(total.len() - stack@.len()),
                ),
                old(self).spec_wf() ==> self.spec_wf(),
            decreases stack@.len(),
        {
            proof {
                let rest = total.skip(total.len() - stack@.len());
                assert(rest[0] == total[total.len() - stack@.len()]);
                assert(rest.drop_first() =~= total.skip(total.len() - (stack@.len() - 1)));
            }
            if let Some(e) = stack.pop() {
                self.insert(e.0, e.1);
            }
        }
        proof {
            assert(total.skip(total.len() - 0) =~= Seq::<(String, Value)>::empty());
        }
    }
}

} // verus!
