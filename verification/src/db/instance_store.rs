//! The instance store held in memory. It fixes what the operations of an
//! instance store mean: one instance per composite key, and for every meta,
//! id and `para` the versions 0, 1, 2, … without a gap.

use crate::common::error::{ErrorKind, NatureError};
use crate::common::instance::{IDAndFrom, Instance, InstanceView, KeyCondition};
use crate::text::same_text;
use vstd::prelude::*;
use vstd::string::*;

verus! {

/// Two instances are versions of one thing: they agree in meta, id and
/// `para`.
pub open spec fn same_thing(a: InstanceView, b: InstanceView) -> bool {
    a.meta == b.meta && a.id == b.id && a.para == b.para
}

/// Two instances have the same composite key.
pub open spec fn same_key(a: InstanceView, b: InstanceView) -> bool {
    same_thing(a, b) && a.state_version == b.state_version
}

/// Some row is the version `version` of the thing that `of` is a version of.
pub open spec fn has_version(rows: Seq<InstanceView>, of: InstanceView, version: int) -> bool {
    exists|j: int|
        0 <= j < rows.len() && same_thing(#[trigger] rows[j], of) && rows[j].state_version
            == version
}

/// No two rows have the same composite key.
pub open spec fn keys_unique(rows: Seq<InstanceView>) -> bool {
    forall|i: int, j: int|
        0 <= i < rows.len() && 0 <= j < rows.len() && i != j ==> !same_key(
            #[trigger] rows[i],
            #[trigger] rows[j],
        )
}

/// No version is below zero, and every version above zero has the version
/// before it in the store.
pub open spec fn versions_chained(rows: Seq<InstanceView>) -> bool {
    forall|i: int|
        0 <= i < rows.len() ==> (#[trigger] rows[i]).state_version >= 0 && (rows[i].state_version
            > 0 ==> has_version(rows, rows[i], rows[i].state_version - 1))
}

/// The store is in order: keys are unique and versions are chained.
pub open spec fn well_versioned(rows: Seq<InstanceView>) -> bool {
    keys_unique(rows) && versions_chained(rows)
}

/// The text of the error that a version without its predecessor gives.
pub open spec fn version_gap() -> Seq<char> {
    "state version must follow the last one"@
}

/// Monotonic state version: in a store that is in order, below every stored
/// version of a thing all versions down to zero are stored.
pub proof fn lemma_versions_without_gap(rows: Seq<InstanceView>, i: int, w: int)
    requires
        well_versioned(rows),
        0 <= i < rows.len(),
        0 <= w <= rows[i].state_version,
    ensures
        has_version(rows, rows[i], w),
    decreases rows[i].state_version - w,
{
    if w == rows[i].state_version {
        assert(same_thing(rows[i], rows[i]));
    } else {
        lemma_versions_without_gap(rows, i, w + 1);
        let j = choose|j: int|
            0 <= j < rows.len() && same_thing(#[trigger] rows[j], rows[i]) && rows[j].state_version
                == w + 1;
        assert(has_version(rows, rows[j], w));
        let k = choose|k: int|
            0 <= k < rows.len() && same_thing(#[trigger] rows[k], rows[j]) && rows[k].state_version
                == w;
        assert(same_thing(rows[k], rows[i]));
    }
}

/// Monotonic state version: in a store that is in order, no version of a
/// thing is stored twice.
pub proof fn lemma_versions_without_duplicate(rows: Seq<InstanceView>, i: int, j: int)
    requires
        well_versioned(rows),
        0 <= i < rows.len(),
        0 <= j < rows.len(),
        same_thing(rows[i], rows[j]),
        rows[i].state_version == rows[j].state_version,
    ensures
        i == j,
{
    if i != j {
        assert(same_key(rows[i], rows[j]));
    }
}

/// The instances that have been stored. There is one instance per composite
/// key, and the versions of every thing run from zero without a gap.
#[derive(Debug)]
pub struct InstanceStore {
    rows: Vec<Instance>,
}

impl View for InstanceStore {
    type V = Seq<InstanceView>;

    closed spec fn view(&self) -> Seq<InstanceView> {
        self.rows.deep_view()
    }
}

/// `row` is the newest of the rows that `wanted` picks: it is picked, and no
/// picked row has a higher version.
pub open spec fn newest_of(
    rows: Seq<InstanceView>,
    wanted: spec_fn(InstanceView) -> bool,
    row: InstanceView,
) -> bool {
    &&& rows.contains(row)
    &&& wanted(row)
    &&& forall|j: int|
        0 <= j < rows.len() && wanted(#[trigger] rows[j]) ==> rows[j].state_version
            <= row.state_version
}

/// No row is picked by `wanted`.
pub open spec fn none_of(rows: Seq<InstanceView>, wanted: spec_fn(InstanceView) -> bool) -> bool {
    forall|j: int| 0 <= j < rows.len() ==> !wanted(#[trigger] rows[j])
}

impl InstanceStore {
    #[verifier::type_invariant]
    spec fn in_order(self) -> bool {
        well_versioned(self.rows.deep_view())
    }

    /// The empty store.
    pub fn new() -> (s: InstanceStore)
        ensures
            s@ == Seq::<InstanceView>::empty(),
            well_versioned(s@),
    {
        let s = InstanceStore { rows: Vec::new() };
        assert(s.rows.deep_view() =~= Seq::<InstanceView>::empty());
        s
    }

    /// How many instances are stored. Every store that can be reached is in
    /// order.
    pub fn len(&self) -> (n: usize)
        ensures
            n == self@.len(),
            well_versioned(self@),
    {
        proof {
            use_type_invariant(self);
        }
        self.rows.len()
    }

    /// The position of the row with the composite key `(meta, id, para,
    /// state_version)`.
    fn position(&self, meta: &str, id: u64, para: &str, state_version: i32) -> (r: Option<usize>)
        ensures
            match r {
                Some(i) => {
                    &&& i < self.rows.len()
                    &&& self@[i as int].meta == meta@
                    &&& self@[i as int].id == id
                    &&& self@[i as int].para == para@
                    &&& self@[i as int].state_version == state_version
                },
                None => forall|j: int|
                    0 <= j < self@.len() ==> !((#[trigger] self@[j]).meta == meta@ && self@[j].id
                        == id && self@[j].para == para@ && self@[j].state_version == state_version),
            },
    {
        let mut i: usize = 0;
        while i < self.rows.len()
            invariant
                i <= self.rows.len(),
                forall|j: int|
                    0 <= j < i ==> !((#[trigger] self@[j]).meta == meta@ && self@[j].id == id
                        && self@[j].para == para@ && self@[j].state_version == state_version),
            decreases self.rows.len() - i,
        {
            let row = &self.rows[i];
            if row.id == id && row.state_version == state_version && same_text(
                row.meta.as_str(),
                meta,
            ) && same_text(row.para.as_str(), para) {
                return Some(i);
            }
            i += 1;
        }
        None
    }

    /// Stores `ins`. An instance whose composite key is stored already is
    /// refused as `Duplicated`; a version that is neither zero nor the
    /// successor of a stored version of the same thing is refused as a
    /// logical error. A refused instance leaves the store as it is.
    pub fn insert(&mut self, ins: Instance) -> (r: Result<(), NatureError>)
        ensures
            well_versioned(final(self)@),
            match r {
                Ok(_) => {
                    &&& !has_version(old(self)@, ins@, ins@.state_version as int)
                    &&& ins@.state_version == 0 || has_version(
                        old(self)@,
                        ins@,
                        ins@.state_version - 1,
                    )
                    &&& final(self)@ == old(self)@.push(ins@)
                },
                Err(e) => {
                    &&& final(self)@ == old(self)@
                    &&& if has_version(old(self)@, ins@, ins@.state_version as int) {
                        e.kind() == ErrorKind::Duplicated
                    } else {
                        &&& e.kind() == ErrorKind::Logical
                        &&& e.message() == version_gap()
                        &&& ins@.state_version != 0
                        &&& !has_version(old(self)@, ins@, ins@.state_version - 1)
                    }
                },
            },
    {
        proof {
            use_type_invariant(&*self);
        }
        let ghost rows0 = self@;
        match self.position(ins.meta.as_str(), ins.id, ins.para.as_str(), ins.state_version) {
            Some(i) => {
                assert(same_thing(rows0[i as int], ins@));
                return Err(NatureError::Duplicated);
            },
            None => {},
        }
        assert(!has_version(rows0, ins@, ins@.state_version as int)) by {
            if has_version(rows0, ins@, ins@.state_version as int) {
                let j = choose|j: int|
                    0 <= j < rows0.len() && same_thing(#[trigger] rows0[j], ins@)
                        && rows0[j].state_version == ins@.state_version;
                assert(rows0[j].meta == ins@.meta);
            }
        }
        if ins.state_version != 0 {
            let found = if ins.state_version > 0 {
                self.position(ins.meta.as_str(), ins.id, ins.para.as_str(), ins.state_version - 1)
            } else {
                None
            };
            match found {
                Some(i) => {
                    assert(same_thing(rows0[i as int], ins@));
                },
                None => {
                    assert(!has_version(rows0, ins@, ins@.state_version - 1)) by {
                        if has_version(rows0, ins@, ins@.state_version - 1) {
                            let j = choose|j: int|
                                0 <= j < rows0.len() && same_thing(#[trigger] rows0[j], ins@)
                                    && rows0[j].state_version == ins@.state_version - 1;
                            assert(rows0[j].meta == ins@.meta);
                            assert(rows0[j].state_version >= 0);
                        }
                    }
                    return Err(
                        NatureError::LogicalError(
                            "state version must follow the last one".to_owned(),
                        ),
                    );
                },
            }
        }
        let mut taken = InstanceStore { rows: Vec::new() };
        std::mem::swap(self, &mut taken);
        let mut rows = taken.rows;
        let ghost new_row = ins@;
        rows.push(ins);
        let ghost rows1 = rows.deep_view();
        assert(rows1 =~= rows0.push(new_row));
        assert(keys_unique(rows1)) by {
            assert forall|i: int, j: int|
                0 <= i < rows1.len() && 0 <= j < rows1.len() && i != j implies !same_key(
                #[trigger] rows1[i],
                #[trigger] rows1[j],
            ) by {
                if i < rows0.len() && j < rows0.len() {
                    assert(!same_key(rows0[i], rows0[j]));
                } else if i < rows0.len() {
                    if same_key(rows1[i], rows1[j]) {
                        assert(same_thing(rows0[i], new_row));
                    }
                } else {
                    if same_key(rows1[i], rows1[j]) {
                        assert(same_thing(rows0[j], new_row));
                    }
                }
            }
        }
        assert(versions_chained(rows1)) by {
            assert forall|i: int| 0 <= i < rows1.len() implies (#[trigger] rows1[i]).state_version
                >= 0 && (rows1[i].state_version > 0 ==> has_version(
                rows1,
                rows1[i],
                rows1[i].state_version - 1,
            )) by {
                let of = if i < rows0.len() {
                    rows0[i]
                } else {
                    new_row
                };
                if of.state_version > 0 {
                    assert(has_version(rows0, of, of.state_version - 1));
                    let j = choose|j: int|
                        0 <= j < rows0.len() && same_thing(#[trigger] rows0[j], of)
                            && rows0[j].state_version == of.state_version - 1;
                    assert(same_thing(rows1[j], rows1[i]));
                }
            }
        }
        *self = InstanceStore { rows };
        Ok(())
    }

    /// The instance with exactly the composite key that `f_para` names, if
    /// it is stored.
    pub fn get_by_id(&self, f_para: &KeyCondition) -> (r: Option<Instance>)
        ensures
            match r {
                Some(i) => {
                    &&& self@.contains(i@)
                    &&& i@.meta == f_para@.meta
                    &&& i@.id == f_para@.id
                    &&& i@.para == f_para@.para
                    &&& i@.state_version == f_para@.state_version
                },
                None => forall|j: int|
                    0 <= j < self@.len() ==> !((#[trigger] self@[j]).meta == f_para@.meta
                        && self@[j].id == f_para@.id && self@[j].para == f_para@.para
                        && self@[j].state_version == f_para@.state_version),
            },
    {
        match self.position(
            f_para.meta.as_str(),
            f_para.id,
            f_para.para.as_str(),
            f_para.state_version,
        ) {
            Some(i) => {
                assert(self@[i as int] == self.rows@[i as int]@);
                Some(self.rows[i].duplicate())
            },
            None => None,
        }
    }

    /// The newest version of the thing that `f_para` names by meta, id and
    /// `para`, if any version of it is stored.
    pub fn get_last_state(&self, f_para: &KeyCondition) -> (r: Option<Instance>)
        ensures
            match r {
                Some(i) => newest_of(
                    self@,
                    |row: InstanceView|
                        row.meta == f_para@.meta && row.id == f_para@.id && row.para
                            == f_para@.para,
                    i@,
                ),
                None => none_of(
                    self@,
                    |row: InstanceView|
                        row.meta == f_para@.meta && row.id == f_para@.id && row.para
                            == f_para@.para,
                ),
            },
    {
        let ghost wanted = |row: InstanceView|
            row.meta == f_para@.meta && row.id == f_para@.id && row.para == f_para@.para;
        let mut best: Option<usize> = None;
        let mut i: usize = 0;
        while i < self.rows.len()
            invariant
                i <= self.rows.len(),
                wanted == (|row: InstanceView|
                    row.meta == f_para@.meta && row.id == f_para@.id && row.para == f_para@.para),
                match best {
                    Some(b) => b < i && wanted(self@[b as int]) && forall|j: int|
                        0 <= j < i && wanted(#[trigger] self@[j]) ==> self@[j].state_version
                            <= self@[b as int].state_version,
                    None => forall|j: int| 0 <= j < i ==> !wanted(#[trigger] self@[j]),
                },
            decreases self.rows.len() - i,
        {
            let row = &self.rows[i];
            if row.id == f_para.id && same_text(row.meta.as_str(), f_para.meta.as_str())
                && same_text(row.para.as_str(), f_para.para.as_str()) {
                best = match best {
                    Some(b) => if self.rows[b].state_version < row.state_version {
                        Some(i)
                    } else {
                        Some(b)
                    },
                    None => Some(i),
                };
            }
            i += 1;
        }
        match best {
            Some(b) => {
                assert(self@[b as int] == self.rows@[b as int]@);
                Some(self.rows[b].duplicate())
            },
            None => None,
        }
    }

    /// The newest instance of the meta and id of `f_para` that came from the
    /// upstream `f_para.from_key`, if there is one. Tells whether an upstream
    /// was consumed before; where it produced several versions, the highest
    /// wins.
    pub fn get_by_from(&self, f_para: &IDAndFrom) -> (r: Option<Instance>)
        ensures
            match r {
                Some(i) => newest_of(
                    self@,
                    |row: InstanceView|
                        row.meta == f_para.meta@ && row.id == f_para.id && row.from_key
                            == f_para.from_key@,
                    i@,
                ),
                None => none_of(
                    self@,
                    |row: InstanceView|
                        row.meta == f_para.meta@ && row.id == f_para.id && row.from_key
                            == f_para.from_key@,
                ),
            },
    {
        let ghost wanted = |row: InstanceView|
            row.meta == f_para.meta@ && row.id == f_para.id && row.from_key == f_para.from_key@;
        let mut best: Option<usize> = None;
        let mut i: usize = 0;
        while i < self.rows.len()
            invariant
                i <= self.rows.len(),
                wanted == (|row: InstanceView|
                    row.meta == f_para.meta@ && row.id == f_para.id && row.from_key
                        == f_para.from_key@),
                match best {
                    Some(b) => b < i && wanted(self@[b as int]) && forall|j: int|
                        0 <= j < i && wanted(#[trigger] self@[j]) ==> self@[j].state_version
                            <= self@[b as int].state_version,
                    None => forall|j: int| 0 <= j < i ==> !wanted(#[trigger] self@[j]),
                },
            decreases self.rows.len() - i,
        {
            let row = &self.rows[i];
            if row.id == f_para.id && same_text(row.meta.as_str(), f_para.meta.as_str())
                && same_text(row.from_key.as_str(), f_para.from_key.as_str()) {
                best = match best {
                    Some(b) => if self.rows[b].state_version < row.state_version {
                        Some(i)
                    } else {
                        Some(b)
                    },
                    None => Some(i),
                };
            }
            i += 1;
        }
        match best {
            Some(b) => {
                assert(self@[b as int] == self.rows@[b as int]@);
                Some(self.rows[b].duplicate())
            },
            None => None,
        }
    }
}

} // verus!
