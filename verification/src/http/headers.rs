//! Response headers: a mapping from names to values that keeps the order in
//! which the names were first set.

use crate::text::same_text;
use vstd::prelude::*;
use vstd::std_specs::cmp::PartialEqSpecImpl;

verus! {

/// No name occurs twice.
pub open spec fn distinct_keys(entries: Seq<(Seq<char>, Seq<char>)>) -> bool {
    forall|i: int, j: int|
        0 <= i < j < entries.len() ==> (#[trigger] entries[i]).0 != (#[trigger] entries[j]).0
}

/// Whether some entry has the name `key`.
pub open spec fn has_key(entries: Seq<(Seq<char>, Seq<char>)>, key: Seq<char>) -> bool {
    exists|i: int| 0 <= i < entries.len() && (#[trigger] entries[i]).0 == key
}

/// The place of an entry with the name `key`, where there is one.
pub open spec fn index_of(entries: Seq<(Seq<char>, Seq<char>)>, key: Seq<char>) -> int {
    choose|i: int| 0 <= i < entries.len() && (#[trigger] entries[i]).0 == key
}

/// The value set for `key`.
pub open spec fn lookup(entries: Seq<(Seq<char>, Seq<char>)>, key: Seq<char>) -> Option<
    Seq<char>,
> {
    if has_key(entries, key) {
        Some(entries[index_of(entries, key)].1)
    } else {
        None
    }
}

/// The entries after `key` is set to `value`: a name that is already there
/// keeps its place, a new one goes last.
pub open spec fn put(entries: Seq<(Seq<char>, Seq<char>)>, key: Seq<char>, value: Seq<char>) -> Seq<
    (Seq<char>, Seq<char>),
> {
    if has_key(entries, key) {
        entries.update(index_of(entries, key), (key, value))
    } else {
        entries.push((key, value))
    }
}

/// The entries after `key` is unset; the others keep their order.
pub open spec fn without(entries: Seq<(Seq<char>, Seq<char>)>, key: Seq<char>) -> Seq<
    (Seq<char>, Seq<char>),
> {
    if has_key(entries, key) {
        entries.remove(index_of(entries, key))
    } else {
        entries
    }
}

/// Among distinct names, an entry with the name `key` is found at one place
/// only.
pub proof fn lemma_index_of(entries: Seq<(Seq<char>, Seq<char>)>, key: Seq<char>, at: int)
    requires
        distinct_keys(entries),
        0 <= at < entries.len(),
        entries[at].0 == key,
    ensures
        has_key(entries, key),
        index_of(entries, key) == at,
{
}

/// Setting a name keeps the names distinct; afterwards that name has the new
/// value and every other name the value it had.
pub proof fn lemma_put(
    entries: Seq<(Seq<char>, Seq<char>)>,
    key: Seq<char>,
    value: Seq<char>,
    other: Seq<char>,
)
    requires
        distinct_keys(entries),
    ensures
        distinct_keys(put(entries, key, value)),
        lookup(put(entries, key, value), key) == Some(value),
        other != key ==> lookup(put(entries, key, value), other) == lookup(entries, other),
{
    let after = put(entries, key, value);
    let at = if has_key(entries, key) {
        index_of(entries, key)
    } else {
        entries.len() as int
    };
    assert forall|i: int| 0 <= i < after.len() && i != at implies after[i] == entries[i]
        && after[i].0 != key by {}
    assert(distinct_keys(after));
    lemma_index_of(after, key, at);
    if other != key && has_key(entries, other) {
        lemma_index_of(after, other, index_of(entries, other));
    }
}

/// Unsetting a name keeps the names distinct; afterwards that name has no
/// value and every other name the value it had.
pub proof fn lemma_without(entries: Seq<(Seq<char>, Seq<char>)>, key: Seq<char>, other: Seq<char>)
    requires
        distinct_keys(entries),
    ensures
        distinct_keys(without(entries, key)),
        lookup(without(entries, key), key) is None,
        other != key ==> lookup(without(entries, key), other) == lookup(entries, other),
{
    let after = without(entries, key);
    if has_key(entries, key) {
        let at = index_of(entries, key);
        assert forall|i: int| 0 <= i < after.len() implies #[trigger] after[i] == entries[if i
            < at {
            i
        } else {
            i + 1
        }] by {}
        assert(distinct_keys(after));
        if has_key(after, key) {
            let place = index_of(after, key);
            lemma_index_of(entries, key, if place < at { place } else { place + 1 });
        }
        if other != key && has_key(entries, other) {
            let place = index_of(entries, other);
            lemma_index_of(after, other, if place < at { place } else { place - 1 });
        }
    }
}

/// The names of the entries, in their order.
pub open spec fn keys(entries: Seq<(Seq<char>, Seq<char>)>) -> Seq<Seq<char>> {
    Seq::new(entries.len(), |i: int| entries[i].0)
}

/// Distinct names make a sequence without duplicates.
proof fn lemma_keys_no_duplicates(entries: Seq<(Seq<char>, Seq<char>)>)
    requires
        distinct_keys(entries),
    ensures
        keys(entries).no_duplicates(),
{
    let names = keys(entries);
    assert forall|i: int, j: int|
        0 <= i < names.len() && 0 <= j < names.len() && i != j implies names[i] != names[j] by {
        if i < j {
            assert(entries[i].0 != entries[j].0);
        } else {
            assert(entries[j].0 != entries[i].0);
        }
    }
}

/// Whether `a` and `b` are as many and every name of `a` has its value in
/// `b` too. Among distinct names that is to set the same names to the same
/// values, in whatever order: see [`lemma_same_entries`].
pub open spec fn same_entries(
    a: Seq<(Seq<char>, Seq<char>)>,
    b: Seq<(Seq<char>, Seq<char>)>,
) -> bool {
    &&& a.len() == b.len()
    &&& forall|i: int| 0 <= i < a.len() ==> lookup(b, (#[trigger] a[i]).0) == Some(a[i].1)
}

/// Headers that count as the same give every name the same value.
pub proof fn lemma_same_entries(
    a: Seq<(Seq<char>, Seq<char>)>,
    b: Seq<(Seq<char>, Seq<char>)>,
    key: Seq<char>,
)
    requires
        distinct_keys(a),
        distinct_keys(b),
        same_entries(a, b),
    ensures
        lookup(a, key) == lookup(b, key),
{
    if !has_key(a, key) {
        // The names of `a` are among those of `b` and as many: they are the
        // names of `b`, so `b` does not set `key` either.
        let names_a = keys(a);
        let names_b = keys(b);
        lemma_keys_no_duplicates(a);
        lemma_keys_no_duplicates(b);
        names_a.unique_seq_to_set();
        names_b.unique_seq_to_set();
        vstd::seq_lib::seq_to_set_is_finite(names_a);
        vstd::seq_lib::seq_to_set_is_finite(names_b);
        assert forall|name: Seq<char>| names_a.to_set().contains(name) implies names_b.to_set()
            .contains(name) by {
            let i = choose|i: int| 0 <= i < names_a.len() && names_a[i] == name;
            assert(lookup(b, a[i].0) is Some);
            assert(names_b[index_of(b, name)] == name);
        }
        vstd::set_lib::lemma_subset_equality(names_a.to_set(), names_b.to_set());
        if has_key(b, key) {
            assert(names_b[index_of(b, key)] == key);
            assert(names_a.to_set().contains(key));
            let i = choose|i: int| 0 <= i < names_a.len() && names_a[i] == key;
            assert(a[i].0 == key);
        }
    }
}

/// The headers of a response. No name occurs twice; names are compared
/// character by character.
#[derive(Debug)]
pub struct Headers {
    entries: Vec<(String, String)>,
}

/// The entries as sequences of characters.
spec fn texts(entries: Seq<(String, String)>) -> Seq<(Seq<char>, Seq<char>)> {
    Seq::new(entries.len(), |i: int| (entries[i].0@, entries[i].1@))
}

impl View for Headers {
    type V = Seq<(Seq<char>, Seq<char>)>;

    closed spec fn view(&self) -> Seq<(Seq<char>, Seq<char>)> {
        texts(self.entries@)
    }
}

impl Clone for Headers {
    fn clone(&self) -> (copy: Headers)
        ensures
            copy@ == self@,
    {
        proof {
            use_type_invariant(self);
        }
        let mut entries: Vec<(String, String)> = Vec::new();
        let mut at: usize = 0;
        while at < self.entries.len()
            invariant
                at <= self.entries.len(),
                texts(entries@) == self@.take(at as int),
            decreases self.entries.len() - at,
        {
            let pair = &self.entries[at];
            let key = pair.0.clone();
            let value = pair.1.clone();
            entries.push((key, value));
            at += 1;
            assert(texts(entries@) == self@.take(at - 1).push(self@[at - 1]));
        }
        Headers { entries }
    }
}

impl PartialEq for Headers {
    /// Whether both set the same names to the same values, in whatever
    /// order.
    fn eq(&self, other: &Headers) -> (equal: bool)
        ensures
            equal == same_entries(self@, other@),
    {
        if self.entries.len() != other.entries.len() {
            return false;
        }
        let mut at: usize = 0;
        while at < self.entries.len()
            invariant
                at <= self.entries.len(),
                self@.len() == other@.len(),
                forall|i: int|
                    0 <= i < at ==> lookup(other@, (#[trigger] self@[i]).0) == Some(self@[i].1),
            decreases self.entries.len() - at,
        {
            let pair = &self.entries[at];
            assert((pair.0@, pair.1@) == self@[at as int]);
            match other.get(pair.0.as_str()) {
                Some(value) => {
                    if !same_text(value, pair.1.as_str()) {
                        return false;
                    }
                },
                None => {
                    return false;
                },
            }
            at += 1;
        }
        true
    }
}

impl PartialEqSpecImpl for Headers {
    open spec fn obeys_eq_spec() -> bool {
        true
    }

    open spec fn eq_spec(&self, other: &Headers) -> bool {
        same_entries(self@, other@)
    }
}

impl Eq for Headers {}

impl Headers {
    #[verifier::type_invariant]
    spec fn well_formed(&self) -> bool {
        distinct_keys(self@)
    }

    /// No headers.
    pub fn new() -> (headers: Headers)
        ensures
            headers@ == Seq::<(Seq<char>, Seq<char>)>::empty(),
    {
        Headers { entries: Vec::new() }
    }

    /// The number of headers.
    pub fn len(&self) -> (count: usize)
        ensures
            count == self@.len(),
            distinct_keys(self@),
    {
        proof {
            use_type_invariant(self);
        }
        self.entries.len()
    }

    /// Whether there is no header.
    pub fn is_empty(&self) -> (empty: bool)
        ensures
            empty == (self@.len() == 0),
    {
        self.entries.len() == 0
    }

    /// The header at `index`, by name and value, in the order in which the
    /// names were first set.
    pub fn entry(&self, index: usize) -> (entry: Option<(&str, &str)>)
        ensures
            match entry {
                Some(pair) => index < self@.len() && (pair.0@, pair.1@) == self@[index as int],
                None => index >= self@.len(),
            },
    {
        if index < self.entries.len() {
            let pair = &self.entries[index];
            Some((pair.0.as_str(), pair.1.as_str()))
        } else {
            None
        }
    }

    /// Finds the place of `key`.
    fn find(&self, key: &str) -> (place: Option<usize>)
        ensures
            distinct_keys(self@),
            match place {
                Some(at) => at < self@.len() && has_key(self@, key@) && at == index_of(
                    self@,
                    key@,
                ),
                None => !has_key(self@, key@),
            },
    {
        proof {
            use_type_invariant(self);
        }
        let mut at: usize = 0;
        while at < self.entries.len()
            invariant
                at <= self.entries.len(),
                distinct_keys(self@),
                forall|i: int| 0 <= i < at ==> (#[trigger] self@[i]).0 != key@,
            decreases self.entries.len() - at,
        {
            if same_text(self.entries[at].0.as_str(), key) {
                proof {
                    lemma_index_of(self@, key@, at as int);
                }
                return Some(at);
            }
            at += 1;
        }
        None
    }

    /// Whether `key` is set.
    pub fn contains_key(&self, key: &str) -> (found: bool)
        ensures
            found == has_key(self@, key@),
    {
        self.find(key).is_some()
    }

    /// The value of `key`.
    pub fn get(&self, key: &str) -> (value: Option<&str>)
        ensures
            match value {
                Some(text) => lookup(self@, key@) == Some(text@),
                None => lookup(self@, key@) is None,
            },
    {
        match self.find(key) {
            Some(at) => Some(self.entries[at].1.as_str()),
            None => None,
        }
    }

    /// Sets `key` to `value` and hands back the value that it had.
    pub fn insert(&mut self, key: String, value: String) -> (previous: Option<String>)
        ensures
            final(self)@ == put(old(self)@, key@, value@),
            distinct_keys(final(self)@),
            match previous {
                Some(text) => lookup(old(self)@, key@) == Some(text@),
                None => lookup(old(self)@, key@) is None,
            },
    {
        let place = self.find(&key);
        proof {
            lemma_put(self@, key@, value@, key@);
        }
        let mut entries: Vec<(String, String)> = Vec::new();
        core::mem::swap(&mut self.entries, &mut entries);
        let previous = match place {
            Some(at) => {
                let replaced = entries.remove(at);
                entries.insert(at, (key, value));
                Some(replaced.1)
            },
            None => {
                entries.push((key, value));
                None
            },
        };
        assert(texts(entries@) == put(old(self)@, key@, value@));
        self.entries = entries;
        previous
    }

    /// Unsets `key` and hands back the value that it had.
    pub fn remove(&mut self, key: &str) -> (previous: Option<String>)
        ensures
            final(self)@ == without(old(self)@, key@),
            distinct_keys(final(self)@),
            match previous {
                Some(text) => lookup(old(self)@, key@) == Some(text@),
                None => lookup(old(self)@, key@) is None,
            },
    {
        let place = self.find(key);
        proof {
            lemma_without(self@, key@, key@);
        }
        let mut entries: Vec<(String, String)> = Vec::new();
        core::mem::swap(&mut self.entries, &mut entries);
        let previous = match place {
            Some(at) => {
                let removed = entries.remove(at);
                Some(removed.1)
            },
            None => None,
        };
        assert(texts(entries@) == without(old(self)@, key@));
        self.entries = entries;
        previous
    }
}

} // verus!
