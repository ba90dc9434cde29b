//! Picking dimensions out of a separator-joined key.

use crate::common::error::{ErrorKind, NatureError};
use crate::common::instance::SEPARATOR_INS_PARA;
use crate::text::{join, join_text, split, split_text};
use vstd::prelude::*;
use vstd::string::*;

verus! {

/// Whether dimension `i` is one of `indices`.
pub open spec fn listed(indices: Seq<u8>, i: int) -> bool {
    exists|j: int| 0 <= j < indices.len() && indices[j] as int == i
}

/// Every index names a dimension of a key that has `n` of them.
pub open spec fn indices_in_range(indices: Seq<u8>, n: nat) -> bool {
    forall|j: int| 0 <= j < indices.len() ==> (#[trigger] indices[j] as int) < n
}

/// The dimensions that `indices` name, in the order of `indices`; one named
/// twice is taken twice.
pub open spec fn picked(parts: Seq<Seq<char>>, indices: Seq<u8>) -> Seq<Seq<char>> {
    Seq::new(indices.len(), |j: int| parts[indices[j] as int])
}

/// The dimensions that `indices` do not name, in ascending order of their
/// position.
pub open spec fn remaining(parts: Seq<Seq<char>>, indices: Seq<u8>) -> Seq<Seq<char>>
    decreases parts.len(),
{
    if parts.len() == 0 {
        Seq::empty()
    } else if listed(indices, parts.len() - 1) {
        remaining(parts.drop_last(), indices)
    } else {
        remaining(parts.drop_last(), indices).push(parts.last())
    }
}

/// The text of the error that an index beyond the last dimension gives.
pub open spec fn index_out_of_range() -> Seq<char> {
    "index out of range"@
}

/// Whether `indices` names position `i`.
fn is_listed(indices: &Vec<u8>, i: usize) -> (r: bool)
    ensures
        r == listed(indices@, i as int),
{
    let mut j: usize = 0;
    while j < indices.len()
        invariant
            j <= indices.len(),
            forall|k: int| 0 <= k < j ==> indices@[k] as int != i,
        decreases indices.len() - j,
    {
        if indices[j] as usize == i {
            return true;
        }
        j += 1;
    }
    false
}

/// From the dimensions `keys` of a composite key, makes the pair of texts
/// that a conversion needs: first the dimensions that `k_index` names, joined
/// by `sep` in the order named, then all the others, joined by `sep` in
/// their own order. An index that names no dimension is refused.
pub fn make_key_and_para(keys: &Vec<String>, k_index: &Vec<u8>, sep: &str) -> (r: Result<
    (String, String),
    NatureError,
>)
    ensures
        match r {
            Ok(pair) => {
                &&& indices_in_range(k_index@, keys.len() as nat)
                &&& pair.0@ == join_text(picked(keys.deep_view(), k_index@), sep@)
                &&& pair.1@ == join_text(remaining(keys.deep_view(), k_index@), sep@)
            },
            Err(e) => {
                &&& !indices_in_range(k_index@, keys.len() as nat)
                &&& e.kind() == ErrorKind::Verify
                &&& e.message() == index_out_of_range()
            },
        },
{
    let mut chosen: Vec<String> = Vec::new();
    let mut j: usize = 0;
    while j < k_index.len()
        invariant
            j <= k_index.len(),
            forall|k: int| 0 <= k < j ==> (#[trigger] k_index@[k] as int) < keys.len(),
            chosen.deep_view() == picked(keys.deep_view(), k_index@.take(j as int)),
        decreases k_index.len() - j,
    {
        let index = k_index[j] as usize;
        if index >= keys.len() {
            return Err(NatureError::VerifyError("index out of range".to_owned()));
        }
        let ghost before = chosen.deep_view();
        chosen.push(keys[index].clone());
        assert(chosen.deep_view() =~= before.push(keys.deep_view()[index as int]));
        assert(chosen.deep_view() =~= picked(keys.deep_view(), k_index@.take(j + 1)));
        j += 1;
    }
    assert(k_index@.take(k_index.len() as int) =~= k_index@);
    let mut others: Vec<String> = Vec::new();
    let mut i: usize = 0;
    assert(keys.deep_view().take(0) =~= Seq::<Seq<char>>::empty());
    while i < keys.len()
        invariant
            i <= keys.len(),
            others.deep_view() == remaining(keys.deep_view().take(i as int), k_index@),
        decreases keys.len() - i,
    {
        let ghost next = keys.deep_view().take(i + 1);
        assert(next.drop_last() =~= keys.deep_view().take(i as int));
        assert(next.last() == keys.deep_view()[i as int]);
        if !is_listed(k_index, i) {
            let ghost before = others.deep_view();
            others.push(keys[i].clone());
            assert(others.deep_view() =~= before.push(keys.deep_view()[i as int]));
        }
        i += 1;
    }
    assert(keys.deep_view().take(keys.len() as int) =~= keys.deep_view());
    Ok((join(&chosen, sep), join(&others, sep)))
}

/// Takes the dimensions `part` out of `para`, whose dimensions are separated
/// by `/`: first the named dimensions, then the others, as
/// [`make_key_and_para`] gives them.
pub fn get_para_and_key_from_para(para: &str, part: &Vec<u8>) -> (r: Result<
    (String, String),
    NatureError,
>)
    ensures
        match r {
            Ok(pair) => {
                let parts = split_text(para@, SEPARATOR_INS_PARA@);
                &&& indices_in_range(part@, parts.len())
                &&& pair.0@ == join_text(picked(parts, part@), SEPARATOR_INS_PARA@)
                &&& pair.1@ == join_text(remaining(parts, part@), SEPARATOR_INS_PARA@)
            },
            Err(e) => {
                &&& !indices_in_range(part@, split_text(para@, SEPARATOR_INS_PARA@).len())
                &&& e.kind() == ErrorKind::Verify
                &&& e.message() == index_out_of_range()
            },
        },
{
    let keys = split(para, SEPARATOR_INS_PARA);
    make_key_and_para(&keys, part, SEPARATOR_INS_PARA)
}

} // verus!
