//! The tags of a segment and the questions that can be asked of them.

use crate::text::{
    lemma_text_before_asymmetric, lemma_text_before_total, lemma_text_before_transitive, precedes,
    same_text, starts_with, text_before,
};
use vstd::prelude::*;

verus! {

/// The mathematical content of a set of tags: a map from key to value.
pub type TagMap = Map<Seq<char>, Seq<char>>;

/// The candidate values of a query, as character sequences.
pub open spec fn texts(values: Seq<&str>) -> Seq<Seq<char>> {
    values.map_values(|s: &str| s@)
}

/// The tag `key` is present and holds exactly `value`.
pub open spec fn tag_is(tags: TagMap, key: Seq<char>, value: Seq<char>) -> bool {
    tags.contains_key(key) && tags[key] == value
}

/// The tag `key` is present and holds one of `values`.
pub open spec fn tag_is_any(tags: TagMap, key: Seq<char>, values: Seq<Seq<char>>) -> bool {
    tags.contains_key(key) && values.contains(tags[key])
}

/// The tag `key` belongs to the family of `prefix` and holds one of `values`:
/// it is present, its key starts with `prefix`, and its value is a candidate.
pub open spec fn prefix_match(
    tags: TagMap,
    prefix: Seq<char>,
    values: Seq<Seq<char>>,
    key: Seq<char>,
) -> bool {
    tags.contains_key(key) && prefix.is_prefix_of(key) && values.contains(tags[key])
}

/// `key` is the first of the tags that match: it matches, and every other
/// matching key comes after it in the dictionary order.
pub open spec fn least_prefix_match(
    tags: TagMap,
    prefix: Seq<char>,
    values: Seq<Seq<char>>,
    key: Seq<char>,
) -> bool {
    &&& prefix_match(tags, prefix, values, key)
    &&& forall|other: Seq<char>| #[trigger]
        prefix_match(tags, prefix, values, other) ==> other == key || text_before(key, other)
}

/// The first tag, in the dictionary order of the keys, whose key starts with
/// `prefix` and whose value is one of `values`; none where no tag matches.
pub open spec fn first_prefix_match(tags: TagMap, prefix: Seq<char>, values: Seq<Seq<char>>)
    -> Option<(Seq<char>, Seq<char>)> {
    if exists|key: Seq<char>| prefix_match(tags, prefix, values, key) {
        let key = choose|key: Seq<char>| least_prefix_match(tags, prefix, values, key);
        Some((key, tags[key]))
    } else {
        None
    }
}

/// At most one key is the first match.
pub proof fn lemma_least_prefix_match_unique(
    tags: TagMap,
    prefix: Seq<char>,
    values: Seq<Seq<char>>,
    a: Seq<char>,
    b: Seq<char>,
)
    requires
        least_prefix_match(tags, prefix, values, a),
        least_prefix_match(tags, prefix, values, b),
    ensures
        a == b,
{
    lemma_text_before_asymmetric(a, b);
}

/// A key that is the first match is what `first_prefix_match` yields.
pub proof fn lemma_first_prefix_match(
    tags: TagMap,
    prefix: Seq<char>,
    values: Seq<Seq<char>>,
    key: Seq<char>,
)
    requires
        least_prefix_match(tags, prefix, values, key),
    ensures
        first_prefix_match(tags, prefix, values) == Some((key, tags[key])),
{
    let chosen = choose|k: Seq<char>| least_prefix_match(tags, prefix, values, k);
    lemma_least_prefix_match_unique(tags, prefix, values, chosen, key);
}

/// The tags of one segment: each key with its value, no key twice.
pub struct Tags {
    entries: Vec<(String, String)>,
}

impl View for Tags {
    type V = TagMap;

    closed spec fn view(&self) -> TagMap {
        Map::new(
            |key: Seq<char>| exists|i: int| self.key_at(key, i),
            |key: Seq<char>| self.entries@[choose|i: int| self.key_at(key, i)].1@,
        )
    }
}

/// Tells whether `value` is one of `values`.
fn among(value: &str, values: &Vec<&str>) -> (r: bool)
    ensures
        r == texts(values@).contains(value@),
{
    let mut i: usize = 0;
    while i < values.len()
        invariant
            i <= values.len(),
            forall|j: int| 0 <= j < i ==> texts(values@)[j] != value@,
        decreases values.len() - i,
    {
        if same_text(values[i], value) {
            assert(texts(values@)[i as int] == value@);
            return true;
        }
        i += 1;
    }
    false
}

impl Tags {
    #[verifier::type_invariant]
    spec fn distinct_keys(&self) -> bool {
        forall|i: int, j: int|
            0 <= i < j < self.entries@.len() ==> self.entries@[i].0@ != self.entries@[j].0@
    }

    /// The entry at position `i` holds `key`.
    spec fn key_at(&self, key: Seq<char>, i: int) -> bool {
        0 <= i < self.entries@.len() && self.entries@[i].0@ == key
    }

    /// The entry at position `i` belongs to the family of `prefix` and holds
    /// one of `values`.
    spec fn match_at(&self, prefix: Seq<char>, values: Seq<Seq<char>>, i: int) -> bool {
        &&& 0 <= i < self.entries@.len()
        &&& prefix.is_prefix_of(self.entries@[i].0@)
        &&& values.contains(self.entries@[i].1@)
    }

    /// What the view holds for the key of the entry at position `i`.
    proof fn lemma_entry(&self, i: int)
        requires
            self.distinct_keys(),
            0 <= i < self.entries@.len(),
        ensures
            self@.contains_key(self.entries@[i].0@),
            self@[self.entries@[i].0@] == self.entries@[i].1@,
    {
        let key = self.entries@[i].0@;
        assert(self.key_at(key, i));
        let j = choose|j: int| self.key_at(key, j);
        assert(j == i);
    }

    /// A set of tags without any tag.
    pub fn new() -> (r: Tags)
        ensures
            r@ == TagMap::empty(),
    {
        let r = Tags { entries: Vec::new() };
        assert(r@ =~= TagMap::empty());
        r
    }

    /// The position of the entry that holds `key`, if there is one.
    fn position(&self, key: &str) -> (r: Option<usize>)
        ensures
            match r {
                Some(i) => self.key_at(key@, i as int),
                None => forall|i: int| !self.key_at(key@, i),
            },
    {
        let mut i: usize = 0;
        while i < self.entries.len()
            invariant
                i <= self.entries@.len(),
                forall|j: int| 0 <= j < i ==> !self.key_at(key@, j),
            decreases self.entries@.len() - i,
        {
            if same_text(self.entries[i].0.as_str(), key) {
                return Some(i);
            }
            i += 1;
        }
        None
    }

    /// Sets the tag `key` to `value`, whether or not it was present.
    pub fn insert(&mut self, key: &str, value: &str)
        ensures
            final(self)@ == old(self)@.insert(key@, value@),
    {
        proof {
            use_type_invariant(&*self);
        }
        let found = self.position(key);
        let entry = (String::from_str(key), String::from_str(value));
        let mut entries: Vec<(String, String)> = Vec::new();
        core::mem::swap(&mut self.entries, &mut entries);
        match found {
            Some(i) => {
                entries.set(i, entry);
            },
            None => {
                entries.push(entry);
            },
        }
        proof {
            let before = old(self).entries@;
            assert forall|a: int, b: int| 0 <= a < b < entries@.len() implies entries@[a].0@
                != entries@[b].0@ by {
                assert(a < before.len() ==> before[a].0@ != key@ || old(self).key_at(key@, a));
                assert(b < before.len() ==> before[b].0@ != key@ || old(self).key_at(key@, b));
            }
        }
        core::mem::swap(&mut self.entries, &mut entries);
        proof {
            let n = old(self).entries@.len() as int;
            let at = match found {
                Some(i) => i as int,
                None => n,
            };
            assert(self.key_at(key@, at));
            assert forall|k: Seq<char>|
                self@.contains_key(k) == old(self)@.insert(key@, value@).contains_key(k) by {
                if old(self)@.contains_key(k) {
                    let j = choose|j: int| old(self).key_at(k, j);
                    assert(self.key_at(k, j));
                }
                if self@.contains_key(k) && k != key@ {
                    let j = choose|j: int| self.key_at(k, j);
                    assert(old(self).key_at(k, j));
                }
            }
            assert forall|k: Seq<char>| self@.contains_key(k) implies self@[k] == old(
                self,
            )@.insert(key@, value@)[k] by {
                let j = choose|j: int| self.key_at(k, j);
                self.lemma_entry(j);
                if j != at {
                    assert(old(self).key_at(k, j));
                    old(self).lemma_entry(j);
                }
            }
            assert(self@ =~= old(self)@.insert(key@, value@));
        }
    }

    /// Tells whether the tag `key` is present.
    pub fn has(&self, key: &str) -> (r: bool)
        ensures
            r == self@.contains_key(key@),
    {
        self.position(key).is_some()
    }

    /// The value of the tag `key`, if it is present.
    pub fn get(&self, key: &str) -> (r: Option<&String>)
        ensures
            match r {
                Some(value) => self@.contains_key(key@) && self@[key@] == value@,
                None => !self@.contains_key(key@),
            },
    {
        proof {
            use_type_invariant(self);
        }
        match self.position(key) {
            Some(i) => {
                proof {
                    self.lemma_entry(i as int);
                }
                Some(&self.entries[i].1)
            },
            None => None,
        }
    }

    /// Tells whether the tag `key` is present with exactly the value `value`.
    pub fn is(&self, key: &str, value: &str) -> (r: bool)
        ensures
            r == tag_is(self@, key@, value@),
    {
        match self.get(key) {
            Some(held) => same_text(held.as_str(), value),
            None => false,
        }
    }

    /// Tells whether the tag `key` is present with one of `values`.
    pub fn is_any(&self, key: &str, values: Vec<&str>) -> (r: bool)
        ensures
            r == tag_is_any(self@, key@, texts(values@)),
    {
        match self.get(key) {
            Some(held) => among(held.as_str(), &values),
            None => false,
        }
    }

    /// Looks through the tags whose key starts with `prefix` for one whose
    /// value is one of `values`, and returns the key and value of the first
    /// in the dictionary order of the keys.
    pub fn prefix_is_any(&self, prefix: &str, values: Vec<&str>) -> (r: Option<(&String, &String)>)
        ensures
            match r {
                Some((key, value)) => {
                    &&& least_prefix_match(self@, prefix@, texts(values@), key@)
                    &&& value@ == self@[key@]
                    &&& first_prefix_match(self@, prefix@, texts(values@)) == Some((key@, value@))
                },
                None => {
                    &&& forall|key: Seq<char>| !prefix_match(self@, prefix@, texts(values@), key)
                    &&& first_prefix_match(self@, prefix@, texts(values@)) is None
                },
            },
    {
        proof {
            use_type_invariant(self);
        }
        let ghost wanted = texts(values@);
        let mut best: Option<usize> = None;
        let mut i: usize = 0;
        while i < self.entries.len()
            invariant
                i <= self.entries@.len(),
                wanted == texts(values@),
                match best {
                    Some(b) => {
                        &&& b < i
                        &&& self.match_at(prefix@, wanted, b as int)
                        &&& forall|j: int|
                            0 <= j < i && #[trigger] self.match_at(prefix@, wanted, j) ==> j == b
                                || text_before(self.entries@[b as int].0@, self.entries@[j].0@)
                    },
                    None => forall|j: int| 0 <= j < i ==> !self.match_at(prefix@, wanted, j),
                },
            decreases self.entries@.len() - i,
        {
            let key = self.entries[i].0.as_str();
            if starts_with(key, prefix) && among(self.entries[i].1.as_str(), &values) {
                match best {
                    None => {
                        best = Some(i);
                    },
                    Some(b) => {
                        let held = self.entries[b].0.as_str();
                        if precedes(key, held) {
                            proof {
                                assert forall|j: int|
                                    0 <= j < i + 1 && #[trigger] self.match_at(
                                        prefix@,
                                        wanted,
                                        j,
                                    ) implies j == i || text_before(
                                    key@,
                                    self.entries@[j].0@,
                                ) by {
                                    if j != i && j != b {
                                        lemma_text_before_transitive(
                                            key@,
                                            held@,
                                            self.entries@[j].0@,
                                        );
                                    }
                                }
                            }
                            best = Some(i);
                        } else {
                            proof {
                                use_type_invariant(self);
                                lemma_text_before_total(key@, held@);
                            }
                        }
                    },
                }
            }
            i += 1;
        }
        match best {
            Some(b) => {
                proof {
                    let key = self.entries@[b as int].0@;
                    self.lemma_entry(b as int);
                    assert forall|other: Seq<char>| #[trigger]
                        prefix_match(self@, prefix@, wanted, other) implies other == key
                        || text_before(key, other) by {
                        let j = choose|j: int| self.key_at(other, j);
                        self.lemma_entry(j);
                        assert(self.match_at(prefix@, wanted, j));
                    }
                    lemma_first_prefix_match(self@, prefix@, wanted, key);
                }
                Some((&self.entries[b].0, &self.entries[b].1))
            },
            None => {
                proof {
                    assert forall|other: Seq<char>|
                        !prefix_match(self@, prefix@, wanted, other) by {
                        if self@.contains_key(other) {
                            let j = choose|j: int| self.key_at(other, j);
                            self.lemma_entry(j);
                            assert(!self.match_at(prefix@, wanted, j));
                        }
                    }
                }
                None
            },
        }
    }
}

} // verus!
