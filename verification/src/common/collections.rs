//! Small text-keyed collections: a set of texts and a map from text to text.
//! Both keep their entries in the order in which they first arrived.

use crate::text::same_text;
use vstd::prelude::*;

verus! {

/// A set of texts. No text is held twice; what came first stays first.
#[derive(Debug)]
pub struct TextSet {
    items: Vec<String>,
}

impl View for TextSet {
    type V = Set<Seq<char>>;

    closed spec fn view(&self) -> Set<Seq<char>> {
        self.items.deep_view().to_set()
    }
}

/// The first position of `x` in `s`, if it occurs.
fn position_of(s: &Vec<String>, x: &str) -> (r: Option<usize>)
    ensures
        match r {
            Some(i) => i < s.len() && s.deep_view()[i as int] == x@ && forall|j: int|
                0 <= j < i ==> s.deep_view()[j] != x@,
            None => !s.deep_view().contains(x@),
        },
{
    let mut i: usize = 0;
    while i < s.len()
        invariant
            i <= s.len(),
            forall|j: int| 0 <= j < i ==> s.deep_view()[j] != x@,
        decreases s.len() - i,
    {
        if same_text(s[i].as_str(), x) {
            return Some(i);
        }
        i += 1;
    }
    None
}

impl TextSet {
    #[verifier::type_invariant]
    spec fn distinct(self) -> bool {
        self.items.deep_view().no_duplicates()
    }

    /// The members in the order in which they were inserted.
    pub closed spec fn ordered(&self) -> Seq<Seq<char>> {
        self.items.deep_view()
    }

    /// The empty set.
    pub fn new() -> (s: TextSet)
        ensures
            s@ == Set::<Seq<char>>::empty(),
            s.ordered() == Seq::<Seq<char>>::empty(),
    {
        let s = TextSet { items: Vec::new() };
        assert(s.items.deep_view() =~= Seq::<Seq<char>>::empty());
        assert(s@ =~= Set::<Seq<char>>::empty());
        s
    }

    /// How many texts the set holds.
    pub fn len(&self) -> (n: usize)
        ensures
            n == self@.len(),
            n == self.ordered().len(),
            self@.finite(),
    {
        proof {
            use_type_invariant(self);
            self.items.deep_view().unique_seq_to_set();
            vstd::seq_lib::seq_to_set_is_finite(self.items.deep_view());
        }
        self.items.len()
    }

    /// Whether `x` is a member.
    pub fn contains(&self, x: &str) -> (r: bool)
        ensures
            r == self@.contains(x@),
    {
        position_of(&self.items, x).is_some()
    }

    /// Adds `x`. Returns whether it was new; a text already held changes
    /// nothing.
    pub fn insert(&mut self, x: String) -> (fresh: bool)
        ensures
            fresh == !old(self)@.contains(x@),
            final(self)@ == old(self)@.insert(x@),
            fresh ==> final(self).ordered() == old(self).ordered().push(x@),
            !fresh ==> final(self).ordered() == old(self).ordered(),
    {
        proof {
            use_type_invariant(&*self);
        }
        let ghost before = self.items.deep_view();
        match position_of(&self.items, x.as_str()) {
            Some(_) => {
                assert(self@ =~= old(self)@.insert(x@));
                false
            },
            None => {
                let mut taken = TextSet { items: Vec::new() };
                std::mem::swap(self, &mut taken);
                let mut items = taken.items;
                items.push(x);
                assert(items.deep_view() =~= before.push(x@));
                *self = TextSet { items };
                assert(self@ =~= old(self)@.insert(x@)) by {
                    assert forall|t: Seq<char>| before.push(x@).contains(t) <==> (before.contains(
                        t,
                    ) || t == x@) by {
                        if before.push(x@).contains(t) {
                            let i = choose|i: int|
                                0 <= i < before.push(x@).len() && before.push(x@)[i] == t;
                            if i < before.len() {
                                assert(before[i] == t);
                            }
                        }
                        if before.contains(t) {
                            let i = choose|i: int| 0 <= i < before.len() && before[i] == t;
                            assert(before.push(x@)[i] == t);
                        }
                        if t == x@ {
                            assert(before.push(x@)[before.len() as int] == t);
                        }
                    }
                }
                true
            },
        }
    }

    /// A copy of the member at position `i` of the insertion order, if the
    /// set has that many members.
    pub fn get(&self, i: usize) -> (r: Option<String>)
        ensures
            match r {
                Some(x) => i < self.ordered().len() && x@ == self.ordered()[i as int]
                    && self@.contains(x@),
                None => i >= self.ordered().len(),
            },
    {
        if i < self.items.len() {
            assert(self.items.deep_view().contains(self.items.deep_view()[i as int]));
            Some(self.items[i].clone())
        } else {
            None
        }
    }

    /// A copy holding the same members in the same order.
    pub fn duplicate(&self) -> (r: TextSet)
        ensures
            r@ == self@,
            r.ordered() == self.ordered(),
    {
        proof {
            use_type_invariant(self);
        }
        let mut items: Vec<String> = Vec::new();
        let mut i: usize = 0;
        while i < self.items.len()
            invariant
                i <= self.items.len(),
                items.deep_view() == self.items.deep_view().take(i as int),
            decreases self.items.len() - i,
        {
            let ghost before = items.deep_view();
            items.push(self.items[i].clone());
            assert(items.deep_view() =~= before.push(self.items.deep_view()[i as int]));
            assert(self.items.deep_view().take(i + 1) =~= self.items.deep_view().take(
                i as int,
            ).push(self.items.deep_view()[i as int]));
            i += 1;
        }
        assert(self.items.deep_view().take(self.items.len() as int) =~= self.items.deep_view());
        TextSet { items }
    }
}

impl Clone for TextSet {
    fn clone(&self) -> (r: TextSet)
        ensures
            r@ == self@,
            r.ordered() == self.ordered(),
    {
        self.duplicate()
    }
}

/// The map that a list of key and value pairs stands for: a later pair
/// overrides an earlier one with the same key.
pub open spec fn map_of<V>(entries: Seq<(Seq<char>, V)>) -> Map<Seq<char>, V>
    decreases entries.len(),
{
    if entries.len() == 0 {
        Map::empty()
    } else {
        map_of(entries.drop_last()).insert(entries.last().0, entries.last().1)
    }
}

/// No key occurs twice in `entries`.
pub open spec fn distinct_keys<V>(entries: Seq<(Seq<char>, V)>) -> bool {
    forall|i: int, j: int|
        0 <= i < entries.len() && 0 <= j < entries.len() && i != j ==> entries[i].0 != entries[j].0
}

/// With distinct keys, `map_of` holds exactly the listed keys, each with the
/// value listed beside it.
pub proof fn lemma_map_of_entries<V>(entries: Seq<(Seq<char>, V)>)
    requires
        distinct_keys(entries),
    ensures
        forall|t: Seq<char>|
            map_of(entries).dom().contains(t) <==> exists|j: int|
                0 <= j < entries.len() && #[trigger] entries[j].0 == t,
        forall|j: int|
            0 <= j < entries.len() ==> #[trigger] map_of(entries)[entries[j].0] == entries[j].1,
        map_of(entries).dom().finite(),
        map_of(entries).dom().len() == entries.len(),
    decreases entries.len(),
{
    if entries.len() > 0 {
        let rest = entries.drop_last();
        let last = entries.last();
        lemma_map_of_entries(rest);
        assert forall|t: Seq<char>|
            map_of(entries).dom().contains(t) <==> exists|j: int|
                0 <= j < entries.len() && #[trigger] entries[j].0 == t by {
            if map_of(entries).dom().contains(t) {
                if t == last.0 {
                    assert(entries[entries.len() - 1].0 == t);
                } else {
                    let j = choose|j: int| 0 <= j < rest.len() && #[trigger] rest[j].0 == t;
                    assert(entries[j].0 == t);
                }
            }
            if exists|j: int| 0 <= j < entries.len() && #[trigger] entries[j].0 == t {
                let j = choose|j: int| 0 <= j < entries.len() && #[trigger] entries[j].0 == t;
                if j < rest.len() {
                    assert(rest[j].0 == t);
                }
            }
        }
        assert forall|j: int| 0 <= j < entries.len() implies #[trigger] map_of(entries)[entries[j].0]
            == entries[j].1 by {
            if j < rest.len() {
                assert(rest[j] == entries[j]);
                assert(entries[j].0 != last.0);
            }
        }
        assert(!map_of(rest).dom().contains(last.0)) by {
            if map_of(rest).dom().contains(last.0) {
                let j = choose|j: int| 0 <= j < rest.len() && #[trigger] rest[j].0 == last.0;
                assert(entries[j].0 == entries[entries.len() - 1].0);
            }
        }
    }
}

/// A map that holds exactly the listed keys, each with the value listed
/// beside it, is the map of the list.
pub proof fn lemma_map_of_equals<V>(entries: Seq<(Seq<char>, V)>, m: Map<Seq<char>, V>)
    requires
        distinct_keys(entries),
        forall|j: int|
            0 <= j < entries.len() ==> m.dom().contains((#[trigger] entries[j]).0) && m[entries[j].0]
                == entries[j].1,
        forall|k: Seq<char>|
            m.dom().contains(k) ==> exists|j: int|
                0 <= j < entries.len() && (#[trigger] entries[j]).0 == k,
    ensures
        map_of(entries) == m,
{
    lemma_map_of_entries(entries);
    assert forall|k: Seq<char>| map_of(entries).dom().contains(k) <==> m.dom().contains(k) by {
        if map_of(entries).dom().contains(k) {
            let j = choose|j: int| 0 <= j < entries.len() && #[trigger] entries[j].0 == k;
            assert(m.dom().contains(entries[j].0));
        }
        if m.dom().contains(k) {
            let j = choose|j: int| 0 <= j < entries.len() && (#[trigger] entries[j]).0 == k;
            assert(entries[j].0 == k);
        }
    }
    assert forall|k: Seq<char>| map_of(entries).dom().contains(k) implies map_of(entries)[k]
        == m[k] by {
        let j = choose|j: int| 0 <= j < entries.len() && #[trigger] entries[j].0 == k;
        assert(map_of(entries)[entries[j].0] == entries[j].1);
        assert(m[entries[j].0] == entries[j].1);
    }
    assert(map_of(entries) =~= m);
}

/// A map from text to text. No key is held twice; a key keeps the place at
/// which it first arrived.
#[derive(Debug)]
pub struct TextMap {
    entries: Vec<(String, String)>,
}

impl View for TextMap {
    type V = Map<Seq<char>, Seq<char>>;

    closed spec fn view(&self) -> Map<Seq<char>, Seq<char>> {
        map_of(self.entries.deep_view())
    }
}

/// The position of the key `k` in `entries`, if it is there.
fn key_position(entries: &Vec<(String, String)>, k: &str) -> (r: Option<usize>)
    ensures
        match r {
            Some(i) => i < entries.len() && entries.deep_view()[i as int].0 == k@,
            None => forall|j: int| 0 <= j < entries.len() ==> entries.deep_view()[j].0 != k@,
        },
{
    let mut i: usize = 0;
    while i < entries.len()
        invariant
            i <= entries.len(),
            forall|j: int| 0 <= j < i ==> entries.deep_view()[j].0 != k@,
        decreases entries.len() - i,
    {
        if same_text(entries[i].0.as_str(), k) {
            return Some(i);
        }
        i += 1;
    }
    None
}

impl TextMap {
    #[verifier::type_invariant]
    spec fn keys_distinct(self) -> bool {
        distinct_keys(self.entries.deep_view())
    }

    /// The pairs in the order in which their keys first arrived.
    pub closed spec fn ordered(&self) -> Seq<(Seq<char>, Seq<char>)> {
        self.entries.deep_view()
    }

    /// The empty map.
    pub fn new() -> (m: TextMap)
        ensures
            m@ == Map::<Seq<char>, Seq<char>>::empty(),
            m.ordered() == Seq::<(Seq<char>, Seq<char>)>::empty(),
    {
        let m = TextMap { entries: Vec::new() };
        assert(m.entries.deep_view() =~= Seq::<(Seq<char>, Seq<char>)>::empty());
        m
    }

    /// How many keys the map holds.
    pub fn len(&self) -> (n: usize)
        ensures
            n == self@.dom().len(),
            n == self.ordered().len(),
    {
        proof {
            use_type_invariant(self);
            lemma_map_of_entries(self.entries.deep_view());
        }
        self.entries.len()
    }

    /// Whether `k` is a key of the map.
    pub fn contains_key(&self, k: &str) -> (r: bool)
        ensures
            r == self@.dom().contains(k@),
    {
        proof {
            use_type_invariant(self);
            lemma_map_of_entries(self.entries.deep_view());
        }
        key_position(&self.entries, k).is_some()
    }

    /// A copy of the value stored under `k`.
    pub fn get(&self, k: &str) -> (r: Option<String>)
        ensures
            match r {
                Some(v) => self@.dom().contains(k@) && self@[k@] == v@,
                None => !self@.dom().contains(k@),
            },
    {
        proof {
            use_type_invariant(self);
            lemma_map_of_entries(self.entries.deep_view());
        }
        match key_position(&self.entries, k) {
            Some(i) => {
                assert(self.entries.deep_view()[i as int].1 == self.entries@[i as int].1@);
                Some(self.entries[i].1.clone())
            },
            None => None,
        }
    }

    /// Stores `v` under `k`, replacing what was stored there.
    pub fn insert(&mut self, k: String, v: String)
        ensures
            final(self)@ == old(self)@.insert(k@, v@),
    {
        proof {
            use_type_invariant(&*self);
            lemma_map_of_entries(self.entries.deep_view());
        }
        let ghost before = self.entries.deep_view();
        let mut taken = TextMap { entries: Vec::new() };
        std::mem::swap(self, &mut taken);
        let mut entries = taken.entries;
        let ghost kv = (k@, v@);
        let found = key_position(&entries, k.as_str());
        let ghost pos: int = match found {
            Some(i) => i as int,
            None => before.len() as int,
        };
        match found {
            Some(i) => {
                entries.set(i, (k, v));
                assert(entries.deep_view() =~= before.update(i as int, kv));
            },
            None => {
                entries.push((k, v));
                assert(entries.deep_view() =~= before.push(kv));
            },
        }
        let ghost after = entries.deep_view();
        assert(distinct_keys(after));
        assert(0 <= pos < after.len() && after[pos] == kv);
        proof {
            lemma_map_of_entries(after);
            assert forall|t: Seq<char>| map_of(after).dom().contains(t) <==> map_of(before).insert(
                kv.0,
                kv.1,
            ).dom().contains(t) by {
                if map_of(after).dom().contains(t) && t != kv.0 {
                    let j = choose|j: int| 0 <= j < after.len() && #[trigger] after[j].0 == t;
                    assert(before[j].0 == t);
                }
                if map_of(before).dom().contains(t) && t != kv.0 {
                    let j = choose|j: int| 0 <= j < before.len() && #[trigger] before[j].0 == t;
                    assert(after[j].0 == t);
                }
                if t == kv.0 {
                    assert(after[pos].0 == t);
                }
            }
            assert forall|t: Seq<char>| map_of(after).dom().contains(t) implies map_of(after)[t]
                == map_of(before).insert(kv.0, kv.1)[t] by {
                let j = choose|j: int| 0 <= j < after.len() && #[trigger] after[j].0 == t;
                assert(map_of(after)[after[j].0] == after[j].1);
                if t != kv.0 {
                    assert(before[j] == after[j]);
                    assert(map_of(before)[before[j].0] == before[j].1);
                } else {
                    assert(after[pos].0 == after[j].0);
                }
            }
            assert(map_of(after) =~= map_of(before).insert(kv.0, kv.1));
        }
        *self = TextMap { entries };
    }

    /// A copy of the pair at position `i` of the arrival order, if the map
    /// has that many pairs.
    pub fn entry(&self, i: usize) -> (r: Option<(String, String)>)
        ensures
            match r {
                Some(kv) => {
                    &&& i < self.ordered().len()
                    &&& (kv.0@, kv.1@) == self.ordered()[i as int]
                    &&& self@.dom().contains(kv.0@)
                    &&& self@[kv.0@] == kv.1@
                },
                None => i >= self.ordered().len(),
            },
    {
        if i >= self.entries.len() {
            return None;
        }
        proof {
            use_type_invariant(self);
            lemma_map_of_entries(self.entries.deep_view());
            assert(map_of(self.entries.deep_view())[self.entries.deep_view()[i as int].0]
                == self.entries.deep_view()[i as int].1);
        }
        Some((self.entries[i].0.clone(), self.entries[i].1.clone()))
    }

    /// A copy holding the same pairs in the same order.
    pub fn duplicate(&self) -> (r: TextMap)
        ensures
            r@ == self@,
            r.ordered() == self.ordered(),
    {
        proof {
            use_type_invariant(self);
        }
        let mut entries: Vec<(String, String)> = Vec::new();
        let mut i: usize = 0;
        while i < self.entries.len()
            invariant
                i <= self.entries.len(),
                entries.deep_view() == self.entries.deep_view().take(i as int),
            decreases self.entries.len() - i,
        {
            let ghost before = entries.deep_view();
            entries.push((self.entries[i].0.clone(), self.entries[i].1.clone()));
            assert(entries.deep_view() =~= before.push(self.entries.deep_view()[i as int]));
            assert(self.entries.deep_view().take(i + 1) =~= self.entries.deep_view().take(
                i as int,
            ).push(self.entries.deep_view()[i as int]));
            i += 1;
        }
        assert(self.entries.deep_view().take(self.entries.len() as int)
            =~= self.entries.deep_view());
        TextMap { entries }
    }
}

impl Clone for TextMap {
    fn clone(&self) -> (r: TextMap)
        ensures
            r@ == self@,
            r.ordered() == self.ordered(),
    {
        self.duplicate()
    }
}

} // verus!
