//! Values by text, in the order in which their keys arrived.

use vstd::prelude::*;

use crate::text::same;

verus! {

/// The first position of a key, or the number of entries.
pub open spec fn key_position<V>(entries: Seq<(Seq<char>, V)>, key: Seq<char>) -> int
    decreases entries.len(),
{
    if entries.len() == 0 {
        0
    } else if entries[0].0 == key {
        0
    } else {
        1 + key_position(entries.skip(1), key)
    }
}

/// The value of a key.
pub open spec fn value_of<V>(entries: Seq<(Seq<char>, V)>, key: Seq<char>) -> Option<V> {
    let at = key_position(entries, key);
    if 0 <= at < entries.len() {
        Some(entries[at].1)
    } else {
        None
    }
}

/// The entries after a key was given a value: in its place when it was there, behind the
/// others when it was not.
pub open spec fn with_value<V>(entries: Seq<(Seq<char>, V)>, key: Seq<char>, value: V) -> Seq<
    (Seq<char>, V),
> {
    let at = key_position(entries, key);
    if 0 <= at < entries.len() {
        entries.update(at, (key, value))
    } else {
        entries.push((key, value))
    }
}

/// `key_position` is the position it is named for.
pub proof fn lemma_key_position<V>(entries: Seq<(Seq<char>, V)>, key: Seq<char>)
    ensures
        0 <= key_position(entries, key) <= entries.len(),
        key_position(entries, key) < entries.len() ==> entries[key_position(entries, key)].0 == key,
        forall|k: int| 0 <= k < key_position(entries, key) ==> entries[k].0 != key,
    decreases entries.len(),
{
    if entries.len() > 0 && entries[0].0 != key {
        lemma_key_position(entries.skip(1), key);
        assert forall|k: int| 0 <= k < key_position(entries, key) implies entries[k].0 != key by {
            if k > 0 {
                assert(entries.skip(1)[k - 1] == entries[k]);
            }
        }
    }
}

/// A key that was given a value has it, and every other key keeps what it had.
pub proof fn value_after_put<V>(
    entries: Seq<(Seq<char>, V)>,
    key: Seq<char>,
    value: V,
    other: Seq<char>,
)
    ensures
        value_of(with_value(entries, key, value), key) == Some(value),
        other != key ==> value_of(with_value(entries, key, value), other) == value_of(
            entries,
            other,
        ),
{
    let after = with_value(entries, key, value);
    lemma_key_position(entries, key);
    lemma_key_position(after, key);
    let at = key_position(entries, key);
    let found = key_position(after, key);
    assert(after[at] == (key, value));
    if found < at {
        assert(after[found] == entries[found]);
    }
    if other != key {
        lemma_key_position(entries, other);
        lemma_key_position(after, other);
        let spot = key_position(entries, other);
        let now = key_position(after, other);
        if spot < entries.len() {
            assert(after[spot] == entries[spot]);
            if now < spot {
                assert(now != at);
                assert(after[now] == entries[now]);
            }
            assert(now == spot);
        } else if now < after.len() {
            assert(now != at);
            assert(after[now] == entries[now]);
        }
    }
}

/// Values by text, in the order in which their keys arrived.
#[derive(Debug, Clone)]
pub struct Keyed<V> {
    entries: Vec<(String, V)>,
}

impl<V> View for Keyed<V> {
    type V = Seq<(Seq<char>, V)>;

    closed spec fn view(&self) -> Seq<(Seq<char>, V)> {
        Seq::new(self.entries@.len(), |i: int| (self.entries@[i].0@, self.entries@[i].1))
    }
}

impl<V> Keyed<V> {
    /// No values.
    pub fn new() -> (table: Self)
        ensures
            table@ == Seq::<(Seq<char>, V)>::empty(),
    {
        let table = Keyed { entries: Vec::new() };
        assert(table@ =~= Seq::<(Seq<char>, V)>::empty());
        table
    }

    /// The number of keys.
    pub fn len(&self) -> (n: usize)
        ensures
            n == self@.len(),
    {
        self.entries.len()
    }

    /// The key at a position.
    pub fn key_at(&self, i: usize) -> (key: &str)
        requires
            i < self@.len(),
        ensures
            key@ == self@[i as int].0,
    {
        self.entries[i].0.as_str()
    }

    /// The value at a position.
    pub fn value_at(&self, i: usize) -> (value: &V)
        requires
            i < self@.len(),
        ensures
            *value == self@[i as int].1,
    {
        &self.entries[i].1
    }

    /// The first position of a key, or the number of keys.
    pub fn position(&self, key: &str) -> (at: usize)
        ensures
            at == key_position(self@, key@),
            at <= self@.len(),
    {
        proof {
            lemma_key_position(self@, key@);
        }
        let mut i: usize = 0;
        while i < self.entries.len()
            invariant
                i <= self.entries.len(),
                self@.len() == self.entries.len(),
                0 <= key_position(self@, key@) <= self@.len(),
                key_position(self@, key@) < self@.len() ==> self@[key_position(self@, key@)].0
                    == key@,
                forall|k: int| 0 <= k < key_position(self@, key@) ==> self@[k].0 != key@,
                forall|k: int| 0 <= k < i ==> self@[k].0 != key@,
            decreases self.entries.len() - i,
        {
            if same(self.entries[i].0.as_str(), key) {
                assert(self@[i as int].0 == key@);
                return i;
            }
            assert(self@[i as int].0 != key@);
            i += 1;
        }
        i
    }

    /// The value of a key.
    pub fn get(&self, key: &str) -> (value: Option<&V>)
        ensures
            match value {
                Some(value) => value_of(self@, key@) == Some(*value),
                None => value_of(self@, key@) is None,
            },
    {
        let at: usize = self.position(key);
        if at < self.entries.len() {
            Some(&self.entries[at].1)
        } else {
            None
        }
    }

    /// Gives a key a value.
    pub fn put(&mut self, key: &str, value: V)
        ensures
            final(self)@ == with_value(old(self)@, key@, value),
    {
        let at: usize = self.position(key);
        let ghost before = self@;
        let entry = (key.to_owned(), value);
        if at < self.entries.len() {
            self.entries.set(at, entry);
            assert(self@ =~= before.update(at as int, (key@, value)));
        } else {
            self.entries.push(entry);
            assert(self@ =~= before.push((key@, value)));
        }
    }
}

} // verus!
