//! A small string-to-string map (authentication settings and credentials),
//! viewed as a `Map` from keys to values.
use vstd::prelude::*;

use crate::text::str_eq;

verus! {

/// String keys mapped to string values. Keys are kept distinct by
/// `insert`; a lookup finds the first entry with a key.
pub struct StringMap {
    pub entries: Vec<(String, String)>,
}

/// Authentication settings (`username`, `client_id`, `token_url`, ...).
pub type AuthConfig = StringMap;

/// Resolved credentials (`username`/`password`, or `access_token`,
/// `expires_at`, ...).
pub type Credentials = StringMap;

/// The value of the first entry with key `key`.
pub open spec fn first_value(entries: Seq<(String, String)>, key: Seq<char>) -> Option<Seq<char>>
    decreases entries.len(),
{
    if entries.len() == 0 {
        None
    } else if entries[0].0@ == key {
        Some(entries[0].1@)
    } else {
        first_value(entries.drop_first(), key)
    }
}

/// The index of the first entry with key `key`.
pub open spec fn first_index(entries: Seq<(String, String)>, key: Seq<char>) -> Option<int>
    decreases entries.len(),
{
    if entries.len() == 0 {
        None
    } else if entries[0].0@ == key {
        Some(0)
    } else {
        match first_index(entries.drop_first(), key) {
            Some(i) => Some(i + 1),
            None => None,
        }
    }
}

/// The map an entry list denotes.
pub open spec fn entries_map(entries: Seq<(String, String)>) -> Map<Seq<char>, Seq<char>> {
    Map::new(|k: Seq<char>| first_value(entries, k) is Some, |k: Seq<char>| first_value(entries, k)->0)
}

impl View for StringMap {
    type V = Map<Seq<char>, Seq<char>>;

    open spec fn view(&self) -> Map<Seq<char>, Seq<char>> {
        entries_map(self.entries@)
    }
}

proof fn lemma_first_index(entries: Seq<(String, String)>, key: Seq<char>)
    ensures
        match first_index(entries, key) {
            Some(i) => 0 <= i < entries.len() && entries[i].0@ == key && first_value(entries, key)
                == Some(entries[i].1@) && forall|j: int| 0 <= j < i ==> entries[j].0@ != key,
            None => first_value(entries, key) is None && forall|j: int|
                0 <= j < entries.len() ==> entries[j].0@ != key,
        },
    decreases entries.len(),
{
    if entries.len() > 0 {
        lemma_first_index(entries.drop_first(), key);
        if entries[0].0@ != key {
            match first_index(entries.drop_first(), key) {
                Some(i) => {
                    assert forall|j: int| 0 <= j < i + 1 implies entries[j].0@ != key by {
                        if j > 0 {
                            assert(entries[j] == entries.drop_first()[j - 1]);
                        }
                    }
                },
                None => {
                    assert forall|j: int| 0 <= j < entries.len() implies entries[j].0@ != key by {
                        if j > 0 {
                            assert(entries[j] == entries.drop_first()[j - 1]);
                        }
                    }
                },
            }
        }
    }
}

/// Replacing the entry found for `key`, or appending one when there is
/// none, maps `key` to the new value and leaves every other key alone.
proof fn lemma_first_value_after_insert(
    before: Seq<(String, String)>,
    after: Seq<(String, String)>,
    key: String,
    value: String,
    k: Seq<char>,
)
    requires
        match first_index(before, key@) {
            Some(i) => after == before.update(i, (key, value)),
            None => after == before.push((key, value)),
        },
    ensures
        first_value(after, k) == if k == key@ {
            Some(value@)
        } else {
            first_value(before, k)
        },
{
    lemma_first_index(before, k);
    lemma_first_index(after, k);
    lemma_first_index(before, key@);
    match first_index(before, key@) {
        Some(p) => {
            assert(after[p] == (key, value));
            assert forall|j: int| 0 <= j < before.len() && j != p implies after[j] == before[j] by {}
            match first_index(after, k) {
                Some(j) => {
                    if j != p {
                        assert(after[j] == before[j]);
                    }
                    match first_index(before, k) {
                        Some(i) => {
                            if i != p {
                                assert(after[i] == before[i]);
                            }
                        },
                        None => {},
                    }
                },
                None => {
                    match first_index(before, k) {
                        Some(i) => {
                            if i != p {
                                assert(after[i] == before[i]);
                            }
                        },
                        None => {},
                    }
                    if k == key@ {
                        assert(after[p].0@ == k);
                    }
                },
            }
        },
        None => {
            assert forall|j: int| 0 <= j < before.len() implies after[j] == before[j] by {}
            assert(after[before.len() as int] == (key, value));
            match first_index(after, k) {
                Some(j) => {
                    if j < before.len() {
                        assert(after[j] == before[j]);
                    }
                    match first_index(before, k) {
                        Some(i) => {
                            assert(after[i] == before[i]);
                        },
                        None => {},
                    }
                },
                None => {
                    match first_index(before, k) {
                        Some(i) => {
                            assert(after[i] == before[i]);
                        },
                        None => {},
                    }
                    if k == key@ {
                        assert(after[before.len() as int].0@ == k);
                    }
                },
            }
        },
    }
}

impl StringMap {
    pub fn new() -> (m: Self)
        ensures
            m@ == Map::<Seq<char>, Seq<char>>::empty(),
    {
        let m = StringMap { entries: Vec::new() };
        assert(m@ =~= Map::<Seq<char>, Seq<char>>::empty());
        m
    }

    /// Position of the entry for `key`.
    fn find(&self, key: &str) -> (r: Option<usize>)
        ensures
            match r {
                Some(i) => first_index(self.entries@, key@) == Some(i as int),
                None => first_index(self.entries@, key@) is None,
            },
    {
        proof {
            lemma_first_index(self.entries@, key@);
        }
        let mut i: usize = 0;
        while i < self.entries.len()
            invariant
                i <= self.entries.len(),
                forall|j: int| 0 <= j < i ==> self.entries@[j].0@ != key@,
                match first_index(self.entries@, key@) {
                    Some(k) => 0 <= k < self.entries@.len() && self.entries@[k].0@ == key@
                        && forall|j: int| 0 <= j < k ==> self.entries@[j].0@ != key@,
                    None => forall|j: int|
                        0 <= j < self.entries@.len() ==> self.entries@[j].0@ != key@,
                },
            decreases self.entries.len() - i,
        {
            if str_eq(self.entries[i].0.as_str(), key) {
                return Some(i);
            }
            i = i + 1;
        }
        None
    }

    /// The value of `key`.
    pub fn get(&self, key: &str) -> (r: Option<&String>)
        ensures
            match r {
                Some(v) => self@.contains_key(key@) && self@[key@] == v@,
                None => !self@.contains_key(key@),
            },
    {
        proof {
            lemma_first_index(self.entries@, key@);
        }
        match self.find(key) {
            Some(i) => Some(&self.entries[i].1),
            None => None,
        }
    }

    pub fn contains_key(&self, key: &str) -> (r: bool)
        ensures
            r == self@.contains_key(key@),
    {
        self.get(key).is_some()
    }

    /// Maps `key` to `value`, replacing any earlier value.
    pub fn insert(&mut self, key: String, value: String)
        ensures
            final(self)@ == old(self)@.insert(key@, value@),
    {
        proof {
            lemma_first_index(self.entries@, key@);
        }
        let ghost before = self.entries@;
        let ghost k0 = key;
        let ghost v0 = value;
        match self.find(key.as_str()) {
            Some(i) => {
                self.entries.set(i, (key, value));
            },
            None => {
                self.entries.push((key, value));
            },
        }
        proof {
            assert forall|k: Seq<char>| #[trigger] first_value(self.entries@, k) == if k == k0@ {
                Some(v0@)
            } else {
                first_value(before, k)
            } by {
                lemma_first_value_after_insert(before, self.entries@, k0, v0, k);
            }
            assert(self@ =~= entries_map(before).insert(k0@, v0@));
        }
    }

    /// The map of the given pairs, inserted in order (a later pair for a
    /// key replaces an earlier one).
    pub fn from_pairs(pairs: Vec<(String, String)>) -> (m: Self)
        ensures
            m@ == pairs_map(pairs@),
    {
        let mut m = StringMap::new();
        let mut rest = pairs;
        let ghost all = rest@;
        let mut taken: Vec<(String, String)> = Vec::new();
        assert(taken@ + rest@ =~= all);
        while rest.len() > 0
            invariant
                taken@ + rest@ == all,
                m@ == pairs_map(taken@),
            decreases rest.len(),
        {
            let ghost rest_old = rest@;
            let ghost old_taken = taken@;
            let (k, v) = rest.remove(0);
            let kc = k.clone();
            let vc = v.clone();
            m.insert(k, v);
            taken.push((kc, vc));
            proof {
                assert(taken@.drop_last() == old_taken);
                assert(rest_old == seq![rest_old[0]] + rest@);
                assert(taken@ + rest@ =~= old_taken + rest_old);
            }
        }
        assert(rest@.len() == 0);
        assert(taken@ + rest@ =~= taken@);
        assert(taken@ == all);
        m
    }

    /// A copy of the map.
    pub fn duplicate(&self) -> (r: Self)
        ensures
            r@ == self@,
    {
        let mut entries: Vec<(String, String)> = Vec::new();
        let mut i: usize = 0;
        while i < self.entries.len()
            invariant
                i <= self.entries.len(),
                entries@.len() == i,
                forall|j: int| 0 <= j < i ==> (#[trigger] entries@[j]).0@ == self.entries@[j].0@
                    && entries@[j].1@ == self.entries@[j].1@,
            decreases self.entries.len() - i,
        {
            let k = self.entries[i].0.clone();
            let v = self.entries[i].1.clone();
            entries.push((k, v));
            i = i + 1;
        }
        let r = StringMap { entries };
        proof {
            assert forall|k: Seq<char>| #[trigger] first_value(r.entries@, k) == first_value(
                self.entries@,
                k,
            ) by {
                lemma_first_index(r.entries@, k);
                lemma_first_index(self.entries@, k);
                match first_index(r.entries@, k) {
                    Some(a) => {
                        match first_index(self.entries@, k) {
                            Some(b) => {
                                if a < b {
                                    assert(r.entries@[a].0@ == self.entries@[a].0@);
                                } else if b < a {
                                    assert(r.entries@[b].0@ == self.entries@[b].0@);
                                }
                            },
                            None => {
                                assert(r.entries@[a].0@ == self.entries@[a].0@);
                            },
                        }
                    },
                    None => {
                        match first_index(self.entries@, k) {
                            Some(b) => {
                                assert(r.entries@[b].0@ == self.entries@[b].0@);
                            },
                            None => {},
                        }
                    },
                }
            }
            assert(r@ =~= self@);
        }
        r
    }
}

/// The map built by inserting `pairs` in order.
pub open spec fn pairs_map(pairs: Seq<(String, String)>) -> Map<Seq<char>, Seq<char>>
    decreases pairs.len(),
{
    if pairs.len() == 0 {
        Map::empty()
    } else {
        pairs_map(pairs.drop_last()).insert(pairs.last().0@, pairs.last().1@)
    }
}

} // verus!
