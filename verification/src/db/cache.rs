//! The caches of metas and of relations: read through to the store behind
//! them, and trusted for a bounded time only.

use crate::common::collections::{distinct_keys, lemma_map_of_entries, lemma_map_of_equals, map_of};
use crate::common::error::NatureError;
use crate::common::meta::{Meta, MetaView};
use crate::common::mission::{duplicate_relations, Relation};
use crate::text::same_text;
use vstd::prelude::*;
use vstd::string::*;

verus! {

/// What a cache may hold: values of which a copy with the same content can
/// be made.
pub trait Cacheable: DeepView + Sized {
    /// A copy with the same content.
    fn copy(&self) -> (r: Self)
        ensures
            r.deep_view() == self.deep_view(),
    ;
}

impl DeepView for Meta {
    type V = MetaView;

    open spec fn deep_view(&self) -> MetaView {
        self@
    }
}

impl Cacheable for Meta {
    fn copy(&self) -> (r: Meta) {
        self.duplicate()
    }
}

impl Cacheable for Vec<Relation> {
    fn copy(&self) -> (r: Vec<Relation>) {
        duplicate_relations(self)
    }
}

/// A cached value with the time at which it was loaded, in milliseconds.
pub struct Cached<V> {
    pub value: V,
    pub loaded_at: i64,
}

/// The entries of a cache, each beside its key.
pub open spec fn cached_entries<T: DeepView>(entries: Seq<(String, T, i64)>) -> Seq<
    (Seq<char>, Cached<T::V>),
> {
    Seq::new(
        entries.len(),
        |i: int| (entries[i].0@, Cached { value: entries[i].1.deep_view(), loaded_at: entries[i].2 }),
    )
}

/// The entry was loaded no longer than `ttl_seconds` before `now` and not
/// after it.
pub open spec fn fresh(loaded_at: i64, now: i64, ttl_seconds: u32) -> bool {
    loaded_at <= now && now - loaded_at <= ttl_seconds * 1000
}

/// The position of the entry with the key `key`, if there is one.
fn entry_position<T: Cacheable>(entries: &Vec<(String, T, i64)>, key: &str) -> (r: Option<usize>)
    ensures
        match r {
            Some(i) => i < entries.len() && entries@[i as int].0@ == key@,
            None => forall|j: int| 0 <= j < entries.len() ==> entries@[j].0@ != key@,
        },
{
    let mut i: usize = 0;
    while i < entries.len()
        invariant
            i <= entries.len(),
            forall|j: int| 0 <= j < i ==> entries@[j].0@ != key@,
        decreases entries.len() - i,
    {
        if same_text(entries[i].0.as_str(), key) {
            return Some(i);
        }
        i += 1;
    }
    None
}

/// A cache that trusts what it holds for `ttl_seconds` after loading it.
pub struct Cache<T: Cacheable> {
    entries: Vec<(String, T, i64)>,
    ttl_seconds: u32,
}

/// The cache of metas, by meta key.
pub type MetaCache = Cache<Meta>;

/// The cache of relations, by the key of the upstream meta.
pub type RelationCache = Cache<Vec<Relation>>;

impl<T: Cacheable> Cache<T> {
    #[verifier::type_invariant]
    spec fn keys_distinct(self) -> bool {
        distinct_keys(cached_entries(self.entries@))
    }

    /// What the cache holds, by key.
    pub closed spec fn view(&self) -> Map<Seq<char>, Cached<T::V>> {
        map_of(cached_entries(self.entries@))
    }

    /// For how many seconds the cache trusts an entry.
    pub closed spec fn ttl(&self) -> u32 {
        self.ttl_seconds
    }

    /// An empty cache that trusts its entries for `ttl_seconds`.
    pub fn new(ttl_seconds: u32) -> (c: Self)
        ensures
            c.view() == Map::<Seq<char>, Cached<T::V>>::empty(),
            c.ttl() == ttl_seconds,
    {
        let c = Cache { entries: Vec::new(), ttl_seconds };
        assert(cached_entries(c.entries@) =~= Seq::<(Seq<char>, Cached<T::V>)>::empty());
        c
    }

    /// A copy of the value cached under `key`, if it is there and still
    /// trusted at the time `now`. An entry past its time counts as missing.
    pub fn get(&self, key: &str, now: i64) -> (r: Option<T>)
        ensures
            match r {
                Some(v) => self.view().dom().contains(key@) && self.view()[key@].value
                    == v.deep_view() && fresh(self.view()[key@].loaded_at, now, self.ttl()),
                None => !self.view().dom().contains(key@) || !fresh(
                    self.view()[key@].loaded_at,
                    now,
                    self.ttl(),
                ),
            },
    {
        proof {
            use_type_invariant(self);
            lemma_map_of_entries(cached_entries(self.entries@));
        }
        match entry_position(&self.entries, key) {
            Some(i) => {
                let ghost es = cached_entries(self.entries@);
                assert(es[i as int].0 == key@);
                assert(map_of(es)[es[i as int].0] == es[i as int].1);
                let loaded_at = self.entries[i].2;
                if loaded_at <= now && (now as i128) - (loaded_at as i128) <= (
                self.ttl_seconds as i128) * 1000 {
                    Some(self.entries[i].1.copy())
                } else {
                    None
                }
            },
            None => {
                assert(!self.view().dom().contains(key@)) by {
                    let es = cached_entries(self.entries@);
                    if map_of(es).dom().contains(key@) {
                        let j = choose|j: int| 0 <= j < es.len() && #[trigger] es[j].0 == key@;
                        assert(self.entries@[j].0@ == key@);
                    }
                }
                None
            },
        }
    }

    /// Caches `value` under `key` as loaded at the time `now`, in place of
    /// what was cached there.
    pub fn put(&mut self, key: String, value: T, now: i64)
        ensures
            final(self).ttl() == old(self).ttl(),
            final(self).view() == old(self).view().insert(
                key@,
                Cached { value: value.deep_view(), loaded_at: now },
            ),
    {
        proof {
            use_type_invariant(&*self);
        }
        let ttl_seconds = self.ttl_seconds;
        let mut taken = Cache { entries: Vec::new(), ttl_seconds };
        assert(cached_entries(taken.entries@) =~= Seq::<(Seq<char>, Cached<T::V>)>::empty());
        std::mem::swap(self, &mut taken);
        let mut entries = taken.entries;
        let found = entry_position(&entries, key.as_str());
        let ghost before = cached_entries(entries@);
        assert(found is None ==> forall|j: int| 0 <= j < before.len() ==> before[j].0 != key@);
        assert(found matches Some(i) ==> before[i as int].0 == key@);
        let ghost kv = (key@, Cached { value: value.deep_view(), loaded_at: now });
        let ghost pos: int = match found {
            Some(i) => i as int,
            None => before.len() as int,
        };
        match found {
            Some(i) => {
                entries.set(i, (key, value, now));
                assert(cached_entries(entries@) =~= before.update(i as int, kv));
            },
            None => {
                entries.push((key, value, now));
                assert(cached_entries(entries@) =~= before.push(kv));
            },
        }
        let ghost after = cached_entries(entries@);
        proof {
            lemma_map_of_entries(before);
            assert(distinct_keys(after)) by {
                assert forall|a: int, b: int|
                    0 <= a < after.len() && 0 <= b < after.len() && a != b implies after[a].0
                    != after[b].0 by {
                    if a != pos && b != pos {
                        assert(after[a] == before[a]);
                        assert(after[b] == before[b]);
                    } else if a == pos {
                        assert(after[b] == before[b]);
                        assert(after[a].0 == key@);
                        if pos < before.len() {
                            assert(before[b].0 != before[pos].0);
                        }
                    } else {
                        assert(after[a] == before[a]);
                        assert(after[b].0 == key@);
                        if pos < before.len() {
                            assert(before[a].0 != before[pos].0);
                        }
                    }
                }
            }
            let m = map_of(before).insert(kv.0, kv.1);
            assert forall|j: int| 0 <= j < after.len() implies m.dom().contains(
                (#[trigger] after[j]).0,
            ) && m[after[j].0] == after[j].1 by {
                if j != pos {
                    assert(after[j] == before[j]);
                    assert(map_of(before)[before[j].0] == before[j].1);
                    if pos < before.len() {
                        assert(before[j].0 != before[pos].0);
                    }
                } else {
                    assert(after[j] == kv);
                }
            }
            assert forall|k: Seq<char>| m.dom().contains(k) implies exists|j: int|
                0 <= j < after.len() && (#[trigger] after[j]).0 == k by {
                if k == kv.0 {
                    assert(after[pos].0 == k);
                } else {
                    let j = choose|j: int| 0 <= j < before.len() && #[trigger] before[j].0 == k;
                    assert(after[j] == before[j]);
                }
            }
            lemma_map_of_equals(after, m);
        }
        *self = Cache { entries, ttl_seconds };
    }

    /// Forgets what is cached under `key`.
    pub fn forget(&mut self, key: &str)
        ensures
            final(self).ttl() == old(self).ttl(),
            final(self).view() == old(self).view().remove(key@),
    {
        proof {
            use_type_invariant(&*self);
            lemma_map_of_entries(cached_entries(self.entries@));
        }
        match entry_position(&self.entries, key) {
            Some(i) => {
                let ghost before = cached_entries(self.entries@);
                assert(before[i as int].0 == key@);
                let ttl_seconds = self.ttl_seconds;
                let mut taken = Cache { entries: Vec::new(), ttl_seconds };
                assert(cached_entries(taken.entries@) =~= Seq::<
                    (Seq<char>, Cached<T::V>),
                >::empty());
                std::mem::swap(self, &mut taken);
                let mut entries = taken.entries;
                entries.remove(i);
                let ghost after = cached_entries(entries@);
                assert(after =~= before.remove(i as int));
                proof {
                    assert forall|j: int| 0 <= j < after.len() implies #[trigger] after[j]
                        == before[if j < i {
                        j
                    } else {
                        j + 1
                    }] by {}
                    assert(distinct_keys(after)) by {
                        assert forall|a: int, b: int|
                            0 <= a < after.len() && 0 <= b < after.len() && a
                                != b implies after[a].0 != after[b].0 by {
                            let a0 = if a < i {
                                a
                            } else {
                                a + 1
                            };
                            let b0 = if b < i {
                                b
                            } else {
                                b + 1
                            };
                            assert(after[a] == before[a0]);
                            assert(after[b] == before[b0]);
                        }
                    }
                    let m = map_of(before).remove(key@);
                    assert forall|j: int| 0 <= j < after.len() implies m.dom().contains(
                        (#[trigger] after[j]).0,
                    ) && m[after[j].0] == after[j].1 by {
                        let j0 = if j < i {
                            j
                        } else {
                            j + 1
                        };
                        assert(after[j] == before[j0]);
                        assert(before[j0].0 != before[i as int].0);
                        assert(map_of(before)[before[j0].0] == before[j0].1);
                    }
                    assert forall|k: Seq<char>| m.dom().contains(k) implies exists|j: int|
                        0 <= j < after.len() && (#[trigger] after[j]).0 == k by {
                        let j0 = choose|j: int| 0 <= j < before.len() && #[trigger] before[j].0 == k;
                        let j = if j0 < i {
                            j0
                        } else {
                            j0 - 1
                        };
                        assert(after[j] == before[j0]);
                    }
                    lemma_map_of_equals(after, m);
                }
                *self = Cache { entries, ttl_seconds };
            },
            None => {
                proof {
                    let es = cached_entries(self.entries@);
                    if map_of(es).dom().contains(key@) {
                        let j = choose|j: int| 0 <= j < es.len() && #[trigger] es[j].0 == key@;
                        assert(self.entries@[j].0@ == key@);
                    }
                    assert(self.view().remove(key@) =~= self.view());
                }
            },
        }
    }

    /// Takes in what the store behind the cache answered for `key` at the
    /// time `now` after the cache missed: a value is cached and handed on; a
    /// failure is handed on too, and whatever was cached under the key is
    /// forgotten, so that nothing stale is served for a key known to be
    /// missing.
    pub fn read_through(&mut self, key: &str, loaded: Result<T, NatureError>, now: i64) -> (r:
        Result<T, NatureError>)
        ensures
            final(self).ttl() == old(self).ttl(),
            match r {
                Ok(v) => loaded matches Ok(x) && v.deep_view() == x.deep_view()
                    && final(self).view() == old(self).view().insert(
                    key@,
                    Cached { value: x.deep_view(), loaded_at: now },
                ),
                Err(e) => loaded matches Err(x) && e@ == x@
                    && final(self).view() == old(self).view().remove(key@),
            },
    {
        match loaded {
            Ok(value) => {
                let copy = value.copy();
                self.put(key.to_owned(), value, now);
                Ok(copy)
            },
            Err(e) => {
                self.forget(key);
                Err(e)
            },
        }
    }
}

} // verus!
