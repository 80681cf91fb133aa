//! A map from text to text that keeps the order in which its keys arrived.

use vstd::prelude::*;

use crate::json::{fields, member_views, no_members, put_text, Json, JsonView, Member};
use crate::text::same;

verus! {

/// A key with its value.
pub type Pair = (Seq<char>, Seq<char>);

/// The first position at which `key` stands, or the number of pairs.
pub open spec fn pair_index(pairs: Seq<Pair>, key: Seq<char>) -> int
    decreases pairs.len(),
{
    if pairs.len() == 0 {
        0
    } else if pairs[0].0 == key {
        0
    } else {
        1 + pair_index(pairs.skip(1), key)
    }
}

/// The value that `key` has.
pub open spec fn lookup(pairs: Seq<Pair>, key: Seq<char>) -> Option<Seq<char>> {
    let at = pair_index(pairs, key);
    if 0 <= at < pairs.len() {
        Some(pairs[at].1)
    } else {
        None
    }
}

/// `pairs` after `key` was given `value`: in its place when it was there, behind
/// the others when it was not.
pub open spec fn inserted(pairs: Seq<Pair>, key: Seq<char>, value: Seq<char>) -> Seq<Pair> {
    let at = pair_index(pairs, key);
    if 0 <= at < pairs.len() {
        pairs.update(at, (key, value))
    } else {
        pairs.push((key, value))
    }
}

/// No key stands twice.
pub open spec fn distinct_keys(pairs: Seq<Pair>) -> bool {
    forall|i: int, j: int| 0 <= i < j < pairs.len() ==> pairs[i].0 != pairs[j].0
}

/// `pair_index` is the position it is named for.
pub proof fn lemma_pair_index(pairs: Seq<Pair>, key: Seq<char>)
    ensures
        0 <= pair_index(pairs, key) <= pairs.len(),
        pair_index(pairs, key) < pairs.len() ==> pairs[pair_index(pairs, key)].0 == key,
        forall|k: int| 0 <= k < pair_index(pairs, key) ==> pairs[k].0 != key,
    decreases pairs.len(),
{
    if pairs.len() > 0 && pairs[0].0 != key {
        lemma_pair_index(pairs.skip(1), key);
        assert forall|k: int| 0 <= k < pair_index(pairs, key) implies pairs[k].0 != key by {
            if k > 0 {
                assert(pairs.skip(1)[k - 1] == pairs[k]);
            }
        }
    }
}

/// Inserting keeps the keys distinct.
pub proof fn lemma_inserted_distinct(pairs: Seq<Pair>, key: Seq<char>, value: Seq<char>)
    requires
        distinct_keys(pairs),
    ensures
        distinct_keys(inserted(pairs, key, value)),
{
    lemma_pair_index(pairs, key);
    let after = inserted(pairs, key, value);
    assert forall|i: int, j: int| 0 <= i < j < after.len() implies after[i].0 != after[j].0 by {
        let at = pair_index(pairs, key);
        if at < pairs.len() {
            assert(pairs[at].0 == key);
        }
    }
}

/// The position of a key is any position at which it stands, when no key stands twice.
pub proof fn lemma_index_unique(pairs: Seq<Pair>, at: int)
    requires
        distinct_keys(pairs),
        0 <= at < pairs.len(),
    ensures
        pair_index(pairs, pairs[at].0) == at,
{
    lemma_pair_index(pairs, pairs[at].0);
    let found = pair_index(pairs, pairs[at].0);
    if found < at {
        assert(pairs[found].0 != pairs[at].0);
    } else if at < found {
        assert(pairs[at].0 != pairs[at].0);
    }
}

/// A key that was given a value has it, and every other key keeps what it had.
pub proof fn lookup_after_insert(
    pairs: Seq<Pair>,
    key: Seq<char>,
    value: Seq<char>,
    other: Seq<char>,
)
    requires
        distinct_keys(pairs),
    ensures
        lookup(inserted(pairs, key, value), key) == Some(value),
        other != key ==> lookup(inserted(pairs, key, value), other) == lookup(pairs, other),
{
    let after = inserted(pairs, key, value);
    lemma_inserted_distinct(pairs, key, value);
    lemma_pair_index(pairs, key);
    let at = pair_index(pairs, key);
    assert(after[at] == (key, value));
    lemma_index_unique(after, at);
    if other != key {
        lemma_pair_index(pairs, other);
        let spot = pair_index(pairs, other);
        if spot < pairs.len() {
            assert(after[spot] == pairs[spot]);
            lemma_index_unique(after, spot);
        } else {
            lemma_pair_index(after, other);
            let found = pair_index(after, other);
            if found < after.len() {
                assert(after[found].0 == other);
                if found < pairs.len() {
                    assert(pairs[found].0 == other || found == at);
                }
            }
        }
    }
}

/// A map from text to text that keeps the order in which its keys arrived.
#[derive(Debug)]
pub struct StringMap {
    entries: Vec<(String, String)>,
}

/// The pairs that a run of entries holds.
pub open spec fn entry_views(entries: Seq<(String, String)>) -> Seq<Pair> {
    Seq::new(entries.len(), |i: int| (entries[i].0@, entries[i].1@))
}

impl View for StringMap {
    type V = Seq<Pair>;

    closed spec fn view(&self) -> Seq<Pair> {
        entry_views(self.entries@)
    }
}

impl StringMap {
    #[verifier::type_invariant]
    spec fn keys_are_distinct(self) -> bool {
        distinct_keys(entry_views(self.entries@))
    }

    /// The map without keys.
    pub fn new() -> (map: Self)
        ensures
            map@ == Seq::<Pair>::empty(),
    {
        let map = StringMap { entries: Vec::new() };
        assert(map@ =~= Seq::<Pair>::empty());
        map
    }

    /// The number of keys.
    pub fn len(&self) -> (n: usize)
        ensures
            n == self@.len(),
            distinct_keys(self@),
    {
        proof {
            use_type_invariant(self);
        }
        self.entries.len()
    }

    /// Whether the map holds no key.
    pub fn is_empty(&self) -> (empty: bool)
        ensures
            empty == (self@.len() == 0),
    {
        self.entries.len() == 0
    }

    /// The key at a position.
    pub fn key_at(&self, i: usize) -> (key: &str)
        requires
            i < self@.len(),
        ensures
            key@ == self@[i as int].0,
    {
        self.entries[i].0.as_str()
    }

    /// The value at a position.
    pub fn value_at(&self, i: usize) -> (value: &str)
        requires
            i < self@.len(),
        ensures
            value@ == self@[i as int].1,
    {
        self.entries[i].1.as_str()
    }

    fn index_of(&self, key: &str) -> (at: usize)
        ensures
            at == pair_index(self@, key@),
            at <= self@.len(),
    {
        proof {
            lemma_pair_index(self@, key@);
        }
        let mut i: usize = 0;
        while i < self.entries.len()
            invariant
                i <= self.entries.len(),
                self@.len() == self.entries.len(),
                0 <= pair_index(self@, key@) <= self@.len(),
                pair_index(self@, key@) < self@.len() ==> self@[pair_index(self@, key@)].0 == key@,
                forall|k: int| 0 <= k < pair_index(self@, key@) ==> self@[k].0 != key@,
                forall|k: int| 0 <= k < i ==> self@[k].0 != key@,
            decreases self.entries.len() - i,
        {
            if same(self.entries[i].0.as_str(), key) {
                assert(self@[i as int].0 == key@);
                return i;
            }
            assert(self@[i as int].0 != key@);
            i += 1;
        }
        i
    }

    /// The value that `key` has.
    pub fn get(&self, key: &str) -> (value: Option<&str>)
        ensures
            match value {
                Some(value) => lookup(self@, key@) == Some(value@),
                None => lookup(self@, key@) is None,
            },
    {
        let at: usize = self.index_of(key);
        if at < self.entries.len() {
            Some(self.entries[at].1.as_str())
        } else {
            None
        }
    }

    /// The map in which `key` has `value`.
    pub fn with(self, key: &str, value: &str) -> (map: Self)
        ensures
            map@ == inserted(self@, key@, value@),
    {
        proof {
            use_type_invariant(&self);
            lemma_inserted_distinct(self@, key@, value@);
        }
        let at: usize = self.index_of(key);
        let ghost before = self@;
        let mut entries = self.entries;
        let entry = (key.to_owned(), value.to_owned());
        if at < entries.len() {
            entries.set(at, entry);
            assert(entry_views(entries@) =~= before.update(at as int, (key@, value@)));
        } else {
            entries.push(entry);
            assert(entry_views(entries@) =~= before.push((key@, value@)));
        }
        StringMap { entries }
    }

    /// A copy of the map.
    pub fn dup(&self) -> (copy: Self)
        ensures
            copy@ == self@,
    {
        proof {
            use_type_invariant(self);
        }
        let mut entries: Vec<(String, String)> = Vec::new();
        let mut i: usize = 0;
        while i < self.entries.len()
            invariant
                i <= self.entries.len(),
                entries.len() == i,
                forall|k: int|
                    0 <= k < i ==> (#[trigger] entries@[k]).0@ == self.entries@[k].0@ && entries@[k].1@
                        == self.entries@[k].1@,
            decreases self.entries.len() - i,
        {
            entries.push((self.entries[i].0.clone(), self.entries[i].1.clone()));
            i += 1;
        }
        assert(entry_views(entries@) =~= entry_views(self.entries@));
        StringMap { entries }
    }
}

impl Default for StringMap {
    fn default() -> (map: Self)
        ensures
            map@ == Seq::<Pair>::empty(),
    {
        StringMap::new()
    }
}

// ---------------------------------------------------------------------------
// As JSON
// ---------------------------------------------------------------------------

/// The members of an object of texts.
pub open spec fn text_members(pairs: Seq<Pair>) -> Seq<(Seq<char>, JsonView)> {
    Seq::new(pairs.len(), |i: int| (pairs[i].0, JsonView::Text(pairs[i].1)))
}

/// The JSON of a map of texts.
pub fn map_json(map: &StringMap) -> (json: Json)
    ensures
        json@ == JsonView::Object(text_members(map@)),
{
    let mut members: Vec<Member> = no_members();
    let mut i: usize = 0;
    assert(text_members(map@).take(0) =~= fields());
    while i < map.len()
        invariant
            i <= map@.len(),
            member_views(members@) == text_members(map@).take(i as int),
        decreases map@.len() - i,
    {
        put_text(&mut members, map.key_at(i), map.value_at(i));
        i += 1;
        assert(text_members(map@).take(i as int) =~= text_members(map@).take(i - 1).push(
            text_members(map@)[i - 1],
        ));
    }
    assert(text_members(map@).take(i as int) =~= text_members(map@));
    Json::object(members)
}

} // verus!
