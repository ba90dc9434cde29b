//! The dimension splitter: regroups the records of one instance by chosen
//! dimensions of their keys, one downstream instance per group.

use crate::common::converter::{ConverterParameter, ConverterReturned, ConverterReturnedView};
use crate::common::error::{ErrorKind, NatureError};
use crate::common::instance::{Instance, InstanceView, SEPARATOR_INS_PARA};
use crate::common::para::{
    index_out_of_range, indices_in_range, make_key_and_para, picked, remaining,
};
use crate::json::{
    debug_quoted, debug_text, json_array_items, json_dimension_list, json_object_members,
    json_quoted, json_string_value, read_array, read_dimension_list, read_object, read_string,
    write_string,
};
use crate::text::{decimal, decimal_text, join, join_text, same_text, split, split_text};
use vstd::prelude::*;
use vstd::string::*;

verus! {

/// The settings of the splitter. Every wanted dimension becomes the `para`
/// of the instances it yields.
#[derive(Debug, Clone)]
pub struct Setting {
    /// What separates the dimensions of a key; `/` unless given.
    pub dimension_separator: String,
    /// For each meta to produce, the indices of the dimensions that make up
    /// the `para` of its instances, such as `[["meta-a",[1,2]],["meta-b",[1,3]]]`.
    pub wanted_dimension: Vec<(String, Vec<u8>)>,
}

/// The mathematical content of a [`Setting`].
pub struct SettingView {
    pub dimension_separator: Seq<char>,
    pub wanted_dimension: Seq<(Seq<char>, Seq<u8>)>,
}

impl View for Setting {
    type V = SettingView;

    open spec fn view(&self) -> SettingView {
        SettingView {
            dimension_separator: self.dimension_separator@,
            wanted_dimension: self.wanted_dimension.deep_view(),
        }
    }
}

/// One record of the input or of a group: a key and a value, the value as
/// the JSON text it was given as.
#[derive(Debug, Clone)]
pub struct Output {
    /// All dimensions, or in a group those left over, joined by the
    /// separator of the setting.
    pub key: String,
    /// Copied to every group that the record falls into.
    pub value: String,
}

/// The mathematical content of an [`Output`].
pub struct OutputView {
    pub key: Seq<char>,
    pub value: Seq<char>,
}

impl View for Output {
    type V = OutputView;

    open spec fn view(&self) -> OutputView {
        OutputView { key: self.key@, value: self.value@ }
    }
}

impl DeepView for Output {
    type V = OutputView;

    open spec fn deep_view(&self) -> OutputView {
        self@
    }
}

/// The separator of dimensions where a setting names none.
pub fn default_para_separator() -> (s: String)
    ensures
        s@ == SEPARATOR_INS_PARA@,
{
    SEPARATOR_INS_PARA.to_owned()
}

/// Whether `s` is the separator that a setting need not name.
pub fn is_default_para_separator(s: &str) -> (r: bool)
    ensures
        r == (s@ == SEPARATOR_INS_PARA@),
{
    same_text(s, SEPARATOR_INS_PARA)
}

/// The value of the first member called `name`, if there is one.
pub open spec fn member_value(members: Seq<(Seq<char>, Seq<char>)>, name: Seq<char>) -> Option<
    Seq<char>,
>
    decreases members.len(),
{
    if members.len() == 0 {
        None
    } else if members[0].0 == name {
        Some(members[0].1)
    } else {
        member_value(members.skip(1), name)
    }
}

/// Finds the value of the first member called `name`.
pub fn find_member(members: &Vec<(String, String)>, name: &str) -> (r: Option<String>)
    ensures
        match r {
            Some(v) => member_value(members.deep_view(), name@) == Some(v@),
            None => member_value(members.deep_view(), name@) is None,
        },
{
    let ghost all = members.deep_view();
    let mut i: usize = 0;
    assert(all.skip(0) =~= all);
    while i < members.len()
        invariant
            i <= members.len(),
            all == members.deep_view(),
            member_value(all, name@) == member_value(all.skip(i as int), name@),
        decreases members.len() - i,
    {
        assert(all.skip(i as int)[0] == all[i as int]);
        assert(all.skip(i as int).skip(1) =~= all.skip(i + 1));
        if same_text(members[i].0.as_str(), name) {
            return Some(members[i].1.clone());
        }
        i += 1;
    }
    None
}

/// The text of the error that a setting without wanted dimensions in its
/// JSON gives.
pub open spec fn missing_wanted_dimension() -> Seq<char> {
    "missing field `wanted_dimension`"@
}

/// The text of the error that a record without a key gives.
pub open spec fn missing_key() -> Seq<char> {
    "missing field `key`"@
}

/// The text of the error that a record without a value gives.
pub open spec fn missing_value() -> Seq<char> {
    "missing field `value`"@
}

/// The separator that the members of a setting give: the member
/// `dimension_separator` read as a string, or `/` where it is absent.
pub open spec fn separator_of_members(members: Seq<(Seq<char>, Seq<char>)>) -> Result<
    Seq<char>,
    Seq<char>,
> {
    match member_value(members, "dimension_separator"@) {
        None => Ok(SEPARATOR_INS_PARA@),
        Some(raw) => json_string_value(raw),
    }
}

/// The wanted dimensions that the members of a setting give: the member
/// `wanted_dimension`, which must be there.
pub open spec fn wanted_of_members(members: Seq<(Seq<char>, Seq<char>)>) -> Result<
    Seq<(Seq<char>, Seq<u8>)>,
    Seq<char>,
> {
    match member_value(members, "wanted_dimension"@) {
        None => Err(missing_wanted_dimension()),
        Some(raw) => json_dimension_list(raw),
    }
}

/// The setting that the JSON object `cfg` stands for, or the message of the
/// first thing wrong with it: the object itself, then the separator, then
/// the wanted dimensions. Members of other names are ignored.
pub open spec fn setting_of_json(cfg: Seq<char>) -> Result<SettingView, Seq<char>> {
    match json_object_members(cfg) {
        Err(e) => Err(e),
        Ok(members) => match separator_of_members(members) {
            Err(e) => Err(e),
            Ok(sep) => match wanted_of_members(members) {
                Err(e) => Err(e),
                Ok(wanted) => Ok(SettingView { dimension_separator: sep, wanted_dimension: wanted }),
            },
        },
    }
}

impl Setting {
    /// Reads a setting from the JSON object `cfg`.
    pub fn from_json(cfg: &str) -> (r: Result<Setting, String>)
        ensures
            match r {
                Ok(s) => setting_of_json(cfg@) == Ok::<SettingView, Seq<char>>(s@),
                Err(e) => setting_of_json(cfg@) == Err::<SettingView, Seq<char>>(e@),
            },
    {
        let members = match read_object(cfg) {
            Ok(m) => m,
            Err(e) => {
                return Err(e);
            },
        };
        let sep = match find_member(&members, "dimension_separator") {
            None => default_para_separator(),
            Some(raw) => match read_string(raw.as_str()) {
                Ok(s) => s,
                Err(e) => {
                    return Err(e);
                },
            },
        };
        match find_member(&members, "wanted_dimension") {
            None => Err("missing field `wanted_dimension`".to_owned()),
            Some(raw) => match read_dimension_list(raw.as_str()) {
                Ok(wanted) => Ok(Setting { dimension_separator: sep, wanted_dimension: wanted }),
                Err(e) => Err(e),
            },
        }
    }
}

/// The record that the JSON object `item` stands for: its member `key` read
/// as a string and its member `value` as it is written; or the message of
/// the first thing wrong with it.
pub open spec fn record_of_item(item: Seq<char>) -> Result<OutputView, Seq<char>> {
    match json_object_members(item) {
        Err(e) => Err(e),
        Ok(members) => match member_value(members, "key"@) {
            None => Err(missing_key()),
            Some(raw) => match json_string_value(raw) {
                Err(e) => Err(e),
                Ok(key) => match member_value(members, "value"@) {
                    None => Err(missing_value()),
                    Some(value) => Ok(OutputView { key, value }),
                },
            },
        },
    }
}

/// The records that the items stand for, or the message of the first item
/// that is no record.
pub open spec fn records_of_items(items: Seq<Seq<char>>) -> Result<Seq<OutputView>, Seq<char>>
    decreases items.len(),
{
    if items.len() == 0 {
        Ok(Seq::empty())
    } else {
        match records_of_items(items.drop_last()) {
            Err(e) => Err(e),
            Ok(records) => match record_of_item(items.last()) {
                Err(e) => Err(e),
                Ok(record) => Ok(records.push(record)),
            },
        }
    }
}

/// The records that the JSON array `content` stands for, or the message of
/// the first thing wrong with it.
pub open spec fn records_of_json(content: Seq<char>) -> Result<Seq<OutputView>, Seq<char>> {
    match json_array_items(content) {
        Err(e) => Err(e),
        Ok(items) => records_of_items(items),
    }
}

/// Reads one record from a JSON object.
pub fn parse_record(item: &str) -> (r: Result<Output, String>)
    ensures
        match r {
            Ok(o) => record_of_item(item@) == Ok::<OutputView, Seq<char>>(o@),
            Err(e) => record_of_item(item@) == Err::<OutputView, Seq<char>>(e@),
        },
{
    let members = match read_object(item) {
        Ok(m) => m,
        Err(e) => {
            return Err(e);
        },
    };
    let key = match find_member(&members, "key") {
        None => {
            return Err("missing field `key`".to_owned());
        },
        Some(raw) => match read_string(raw.as_str()) {
            Ok(k) => k,
            Err(e) => {
                return Err(e);
            },
        },
    };
    match find_member(&members, "value") {
        None => Err("missing field `value`".to_owned()),
        Some(value) => Ok(Output { key, value }),
    }
}

/// Reads the records of an instance's content, a JSON array of objects with
/// a `key` and a `value` each.
pub fn parse_records(content: &str) -> (r: Result<Vec<Output>, String>)
    ensures
        match r {
            Ok(v) => records_of_json(content@) == Ok::<Seq<OutputView>, Seq<char>>(v.deep_view()),
            Err(e) => records_of_json(content@) == Err::<Seq<OutputView>, Seq<char>>(e@),
        },
{
    let items = match read_array(content) {
        Ok(items) => items,
        Err(e) => {
            return Err(e);
        },
    };
    let ghost all = items.deep_view();
    let mut records: Vec<Output> = Vec::new();
    let mut i: usize = 0;
    assert(all.take(0) =~= Seq::<Seq<char>>::empty());
    assert(records.deep_view() =~= Seq::<OutputView>::empty());
    while i < items.len()
        invariant
            i <= items.len(),
            all == items.deep_view(),
            json_array_items(content@) == Ok::<Seq<Seq<char>>, Seq<char>>(all),
            records_of_items(all.take(i as int)) == Ok::<Seq<OutputView>, Seq<char>>(
                records.deep_view(),
            ),
        decreases items.len() - i,
    {
        assert(all.take(i + 1).drop_last() =~= all.take(i as int));
        assert(all.take(i + 1).last() == all[i as int]);
        match parse_record(items[i].as_str()) {
            Ok(record) => {
                let ghost before = records.deep_view();
                records.push(record);
                assert(records.deep_view() =~= before.push(record@));
            },
            Err(e) => {
                proof {
                    lemma_records_error_stays(all, i + 1);
                }
                return Err(e);
            },
        }
        i += 1;
    }
    assert(all.take(items.len() as int) =~= all);
    Ok(records)
}

/// Once the first `k` items fail to read, so do all of them, with the same
/// message.
proof fn lemma_records_error_stays(items: Seq<Seq<char>>, k: int)
    requires
        0 <= k <= items.len(),
        records_of_items(items.take(k)) is Err,
    ensures
        records_of_items(items) == records_of_items(items.take(k)),
    decreases items.len() - k,
{
    if k < items.len() {
        assert(items.take(k + 1).drop_last() =~= items.take(k));
        lemma_records_error_stays(items, k + 1);
    } else {
        assert(items.take(k) =~= items);
    }
}

/// What one record contributes to one wanted dimension.
pub struct EntryView {
    /// The chosen dimensions of the record's key, joined: the `para` of the
    /// group that the record falls into.
    pub para: Seq<char>,
    /// The meta that the wanted dimension names.
    pub meta: Seq<char>,
    /// The record with only the other dimensions left in its key.
    pub item: OutputView,
}

/// One group of records: what becomes one downstream instance.
#[derive(Debug, Clone)]
pub struct MiddleResult {
    /// The chosen dimensions that the records of the group share.
    pub para: String,
    /// The meta of the wanted dimension that the group belongs to.
    pub meta: String,
    /// The records of the group in the order of the input.
    pub items: Vec<Output>,
}

/// The mathematical content of a [`MiddleResult`].
pub struct MiddleResultView {
    pub para: Seq<char>,
    pub meta: Seq<char>,
    pub items: Seq<OutputView>,
}

impl View for MiddleResult {
    type V = MiddleResultView;

    open spec fn view(&self) -> MiddleResultView {
        MiddleResultView { para: self.para@, meta: self.meta@, items: self.items.deep_view() }
    }
}

impl DeepView for MiddleResult {
    type V = MiddleResultView;

    open spec fn deep_view(&self) -> MiddleResultView {
        self@
    }
}

/// What the record `rec` contributes to the wanted dimension `dim` when keys
/// are separated by `sep`; nothing where an index of `dim` names no
/// dimension of the record's key.
pub open spec fn entry_of(sep: Seq<char>, dim: (Seq<char>, Seq<u8>), rec: OutputView) -> Option<
    EntryView,
> {
    let parts = split_text(rec.key, sep);
    if indices_in_range(dim.1, parts.len()) {
        Some(
            EntryView {
                para: join_text(picked(parts, dim.1), sep),
                meta: dim.0,
                item: OutputView {
                    key: join_text(remaining(parts, dim.1), sep),
                    value: rec.value,
                },
            },
        )
    } else {
        None
    }
}

/// What one record contributes, one entry per wanted dimension in the order
/// of the setting.
pub open spec fn record_entries(s: SettingView, rec: OutputView) -> Seq<Option<EntryView>> {
    Seq::new(
        s.wanted_dimension.len(),
        |d: int| entry_of(s.dimension_separator, s.wanted_dimension[d], rec),
    )
}

/// What all records contribute, record by record.
pub open spec fn all_entries(s: SettingView, records: Seq<OutputView>) -> Seq<Option<EntryView>>
    decreases records.len(),
{
    if records.len() == 0 {
        Seq::empty()
    } else {
        all_entries(s, records.drop_last()) + record_entries(s, records.last())
    }
}

/// Every record has every wanted dimension.
pub open spec fn all_valid(es: Seq<Option<EntryView>>) -> bool {
    forall|i: int| 0 <= i < es.len() ==> (#[trigger] es[i]) is Some
}

/// What tells one group from another: its meta and its `para`.
pub open spec fn group_key(g: MiddleResultView) -> (Seq<char>, Seq<char>) {
    (g.meta, g.para)
}

/// The meta and the `para` of the group that an entry falls into.
pub open spec fn entry_key(e: EntryView) -> (Seq<char>, Seq<char>) {
    (e.meta, e.para)
}

/// The first position at or after `from` of a group with the given meta and
/// `para`, or the number of groups where there is none.
pub open spec fn first_with_key(
    groups: Seq<MiddleResultView>,
    key: (Seq<char>, Seq<char>),
    from: int,
) -> int
    decreases groups.len() - from,
{
    if from < 0 || from >= groups.len() || group_key(groups[from]) == key {
        from
    } else {
        first_with_key(groups, key, from + 1)
    }
}

/// The groups after one more entry: it joins the group of its meta and
/// `para` at the end, or opens a new last group. Entries of different metas
/// never share a group.
pub open spec fn add_entry(groups: Seq<MiddleResultView>, e: EntryView) -> Seq<MiddleResultView> {
    let g = first_with_key(groups, entry_key(e), 0);
    if g < groups.len() {
        groups.update(g, MiddleResultView { items: groups[g].items.push(e.item), ..groups[g] })
    } else {
        groups.push(MiddleResultView { para: e.para, meta: e.meta, items: seq![e.item] })
    }
}

/// The groups that the entries fall into, in the order in which the groups
/// were opened.
pub open spec fn grouped(es: Seq<Option<EntryView>>) -> Seq<MiddleResultView>
    decreases es.len(),
{
    if es.len() == 0 {
        Seq::empty()
    } else {
        match es.last() {
            Some(e) => add_entry(grouped(es.drop_last()), e),
            None => grouped(es.drop_last()),
        }
    }
}

/// The groups that splitting `records` by the setting `s` yields, or nothing
/// where some record lacks a wanted dimension.
pub open spec fn split_groups(s: SettingView, records: Seq<OutputView>) -> Option<
    Seq<MiddleResultView>,
> {
    let es = all_entries(s, records);
    if all_valid(es) {
        Some(grouped(es))
    } else {
        None
    }
}

/// The items of the entries with the given meta and `para`, in the order of
/// the entries.
pub open spec fn items_with_key(es: Seq<Option<EntryView>>, key: (Seq<char>, Seq<char>)) -> Seq<
    OutputView,
>
    decreases es.len(),
{
    if es.len() == 0 {
        Seq::empty()
    } else {
        match es.last() {
            Some(e) => if entry_key(e) == key {
                items_with_key(es.drop_last(), key).push(e.item)
            } else {
                items_with_key(es.drop_last(), key)
            },
            None => items_with_key(es.drop_last(), key),
        }
    }
}

/// The entry is there and has the given meta and `para`.
pub open spec fn has_key(e: Option<EntryView>, key: (Seq<char>, Seq<char>)) -> bool {
    e matches Some(x) && entry_key(x) == key
}

/// Some entry has the given meta and `para`.
pub open spec fn key_occurs(es: Seq<Option<EntryView>>, key: (Seq<char>, Seq<char>)) -> bool {
    exists|i: int| 0 <= i < es.len() && has_key(#[trigger] es[i], key)
}

/// Some group has the given meta and `para`.
pub open spec fn key_grouped(groups: Seq<MiddleResultView>, key: (Seq<char>, Seq<char>)) -> bool {
    exists|g: int| 0 <= g < groups.len() && group_key(#[trigger] groups[g]) == key
}

/// No two groups share both meta and `para`.
pub open spec fn distinct_keys_of(groups: Seq<MiddleResultView>) -> bool {
    forall|g: int, h: int|
        0 <= g < groups.len() && 0 <= h < groups.len() && g != h ==> group_key(
            #[trigger] groups[g],
        ) != group_key(#[trigger] groups[h])
}

proof fn lemma_first_with_key(groups: Seq<MiddleResultView>, key: (Seq<char>, Seq<char>), from: int)
    requires
        0 <= from <= groups.len(),
    ensures
        from <= first_with_key(groups, key, from) <= groups.len(),
        first_with_key(groups, key, from) < groups.len() ==> group_key(groups[first_with_key(
            groups,
            key,
            from,
        )]) == key,
        forall|g: int|
            from <= g < first_with_key(groups, key, from) ==> group_key(#[trigger] groups[g]) != key,
    decreases groups.len() - from,
{
    if from < groups.len() && group_key(groups[from]) != key {
        lemma_first_with_key(groups, key, from + 1);
    }
}

proof fn lemma_no_entry_no_items(es: Seq<Option<EntryView>>, key: (Seq<char>, Seq<char>))
    requires
        !key_occurs(es, key),
    ensures
        items_with_key(es, key) == Seq::<OutputView>::empty(),
    decreases es.len(),
{
    if es.len() > 0 {
        let rest = es.drop_last();
        assert(!key_occurs(rest, key)) by {
            if key_occurs(rest, key) {
                let i = choose|i: int|
                    0 <= i < rest.len() && has_key(#[trigger] rest[i], key);
                assert(es[i] == rest[i]);
            }
        }
        lemma_no_entry_no_items(rest, key);
        assert(es[es.len() - 1] == es.last());
    }
}

/// Regrouping loses nothing and mixes nothing: no two groups share both
/// meta and `para`; a meta and `para` have a group exactly if some entry
/// carries them; and each group holds exactly the items of the entries with
/// its meta and `para`, in the order of the input.
pub proof fn lemma_grouping_round_trip(es: Seq<Option<EntryView>>)
    ensures
        distinct_keys_of(grouped(es)),
        forall|key: (Seq<char>, Seq<char>)| key_grouped(grouped(es), key) <==> key_occurs(es, key),
        forall|g: int|
            0 <= g < grouped(es).len() ==> (#[trigger] grouped(es)[g]).items == items_with_key(
                es,
                group_key(grouped(es)[g]),
            ),
    decreases es.len(),
{
    if es.len() == 0 {
        return ;
    }
    let rest = es.drop_last();
    let old_groups = grouped(rest);
    lemma_grouping_round_trip(rest);
    assert(es[es.len() - 1] == es.last());
    assert forall|key: (Seq<char>, Seq<char>)| key_occurs(rest, key) implies key_occurs(es, key) by {
        let i = choose|i: int|
            0 <= i < rest.len() && has_key(#[trigger] rest[i], key);
        assert(es[i] == rest[i]);
    }
    match es.last() {
        None => {
            assert forall|key: (Seq<char>, Seq<char>)| key_occurs(es, key) implies key_occurs(
                rest,
                key,
            ) by {
                let i = choose|i: int|
                    0 <= i < es.len() && has_key(#[trigger] es[i], key);
                assert(rest[i] == es[i]);
            }
        },
        Some(e) => {
            let new_groups = grouped(es);
            let g0 = first_with_key(old_groups, entry_key(e), 0);
            lemma_first_with_key(old_groups, entry_key(e), 0);
            assert forall|key: (Seq<char>, Seq<char>)| key_occurs(es, key) implies key_occurs(rest, key)
                || key == entry_key(e) by {
                let i = choose|i: int|
                    0 <= i < es.len() && has_key(#[trigger] es[i], key);
                if i < rest.len() {
                    assert(rest[i] == es[i]);
                }
            }
            if g0 < old_groups.len() {
                assert(new_groups.len() == old_groups.len());
                assert forall|g: int| 0 <= g < new_groups.len() implies group_key(#[trigger] new_groups[g])
                    == group_key(old_groups[g]) by {}
                assert forall|key: (Seq<char>, Seq<char>)|
                    key_grouped(new_groups, key) <==> key_occurs(es, key) by {
                    if key_grouped(new_groups, key) {
                        let g = choose|g: int|
                            0 <= g < new_groups.len() && group_key(#[trigger] new_groups[g]) == key;
                        assert(group_key(old_groups[g]) == key);
                        assert(key_grouped(old_groups, key));
                    }
                    if key_occurs(es, key) {
                        if key == entry_key(e) {
                            assert(group_key(new_groups[g0]) == key);
                        } else {
                            assert(key_grouped(old_groups, key));
                            let g = choose|g: int|
                                0 <= g < old_groups.len() && group_key(#[trigger] old_groups[g])
                                    == key;
                            assert(group_key(new_groups[g]) == key);
                        }
                    }
                }
                assert forall|g: int| 0 <= g < new_groups.len() implies (#[trigger] new_groups[g]).items
                    == items_with_key(es, group_key(new_groups[g])) by {
                    assert(old_groups[g].items == items_with_key(rest, group_key(old_groups[g])));
                    if g != g0 {
                        assert(group_key(old_groups[g]) != group_key(old_groups[g0]));
                    }
                }
                assert(distinct_keys_of(new_groups)) by {
                    assert forall|g: int, h: int|
                        0 <= g < new_groups.len() && 0 <= h < new_groups.len() && g
                            != h implies group_key(#[trigger] new_groups[g]) != group_key(
                        #[trigger] new_groups[h],
                    ) by {
                        assert(group_key(old_groups[g]) != group_key(old_groups[h]));
                    }
                }
            } else {
                assert(!key_grouped(old_groups, entry_key(e)));
                assert(!key_occurs(rest, entry_key(e)));
                lemma_no_entry_no_items(rest, entry_key(e));
                assert(new_groups.len() == old_groups.len() + 1);
                assert(group_key(new_groups[old_groups.len() as int]) == entry_key(e));
                assert forall|g: int| 0 <= g < old_groups.len() implies (#[trigger] new_groups[g])
                    == old_groups[g] by {}
                assert forall|key: (Seq<char>, Seq<char>)|
                    key_grouped(new_groups, key) <==> key_occurs(es, key) by {
                    if key_grouped(new_groups, key) {
                        let g = choose|g: int|
                            0 <= g < new_groups.len() && group_key(#[trigger] new_groups[g]) == key;
                        if g < old_groups.len() {
                            assert(group_key(old_groups[g]) == key);
                            assert(key_grouped(old_groups, key));
                        } else {
                            assert(has_key(es[es.len() - 1], key));
                        }
                    }
                    if key_occurs(es, key) {
                        if key == entry_key(e) {
                            assert(group_key(new_groups[old_groups.len() as int]) == key);
                        } else {
                            assert(key_grouped(old_groups, key));
                            let g = choose|g: int|
                                0 <= g < old_groups.len() && group_key(#[trigger] old_groups[g])
                                    == key;
                            assert(group_key(new_groups[g]) == key);
                        }
                    }
                }
                assert forall|g: int| 0 <= g < new_groups.len() implies (#[trigger] new_groups[g]).items
                    == items_with_key(es, group_key(new_groups[g])) by {
                    if g < old_groups.len() {
                        assert(old_groups[g].items == items_with_key(rest, group_key(old_groups[g])));
                        assert(group_key(old_groups[g]) != entry_key(e));
                    } else {
                        assert(new_groups[g].items =~= Seq::<OutputView>::empty().push(e.item));
                    }
                }
                assert(distinct_keys_of(new_groups)) by {
                    assert forall|g: int, h: int|
                        0 <= g < new_groups.len() && 0 <= h < new_groups.len() && g
                            != h implies group_key(#[trigger] new_groups[g]) != group_key(
                        #[trigger] new_groups[h],
                    ) by {
                        if g < old_groups.len() && h < old_groups.len() {
                            assert(group_key(old_groups[g]) != group_key(old_groups[h]));
                        } else if g < old_groups.len() {
                            assert(group_key(old_groups[g]) != entry_key(e));
                        } else {
                            assert(group_key(old_groups[h]) != entry_key(e));
                        }
                    }
                }
            }
        },
    }
}

/// The dimension splitter round trip: where the split succeeds, there is
/// for every wanted meta exactly one group for every distinct `para` that
/// the records give under it, and each group holds exactly the items of the
/// records with its meta and `para`, in the order of the input. Nothing is
/// lost and nothing is mixed.
pub proof fn lemma_split_round_trip(s: SettingView, records: Seq<OutputView>)
    requires
        split_groups(s, records) is Some,
    ensures
        ({
            let groups = split_groups(s, records)->0;
            let entries = all_entries(s, records);
            &&& distinct_keys_of(groups)
            &&& forall|key: (Seq<char>, Seq<char>)|
                key_grouped(groups, key) <==> key_occurs(entries, key)
            &&& forall|g: int|
                0 <= g < groups.len() ==> (#[trigger] groups[g]).items == items_with_key(
                    entries,
                    group_key(groups[g]),
                )
        }),
{
    lemma_grouping_round_trip(all_entries(s, records));
}

/// The entries of the first `k` records come first among the entries of all
/// records.
proof fn lemma_entries_prefix(s: SettingView, records: Seq<OutputView>, k: int)
    requires
        0 <= k <= records.len(),
    ensures
        all_entries(s, records.take(k)).is_prefix_of(all_entries(s, records)),
    decreases records.len() - k,
{
    if k < records.len() {
        lemma_entries_prefix(s, records, k + 1);
        assert(records.take(k + 1).drop_last() =~= records.take(k));
        assert(all_entries(s, records.take(k)).is_prefix_of(all_entries(s, records.take(k + 1))));
    } else {
        assert(records.take(k) =~= records);
    }
}

/// Pairs a key with a value.
pub fn make_content(key: String, value: String) -> (o: Output)
    ensures
        o@ == (OutputView { key: key@, value: value@ }),
{
    Output { key, value }
}

/// A copy of `items` with the same content.
fn duplicate_outputs(items: &Vec<Output>) -> (r: Vec<Output>)
    ensures
        r.deep_view() == items.deep_view(),
{
    let mut r: Vec<Output> = Vec::new();
    let mut i: usize = 0;
    while i < items.len()
        invariant
            i <= items.len(),
            r.deep_view() == items.deep_view().take(i as int),
        decreases items.len() - i,
    {
        let ghost before = r.deep_view();
        r.push(make_content(items[i].key.clone(), items[i].value.clone()));
        assert(r.deep_view() =~= before.push(items.deep_view()[i as int]));
        assert(items.deep_view().take(i + 1) =~= items.deep_view().take(i as int).push(
            items.deep_view()[i as int],
        ));
        i += 1;
    }
    assert(items.deep_view().take(items.len() as int) =~= items.deep_view());
    r
}

/// The position of the group with the given meta and `para`, or the number
/// of groups where there is none.
fn find_group(groups: &Vec<MiddleResult>, meta: &str, para: &str) -> (g: usize)
    ensures
        g == first_with_key(groups.deep_view(), (meta@, para@), 0),
        g <= groups.len(),
{
    let mut g: usize = 0;
    while g < groups.len()
        invariant
            g <= groups.len(),
            first_with_key(groups.deep_view(), (meta@, para@), 0) == first_with_key(
                groups.deep_view(),
                (meta@, para@),
                g as int,
            ),
        decreases groups.len() - g,
    {
        if same_text(groups[g].meta.as_str(), meta) && same_text(groups[g].para.as_str(), para) {
            return g;
        }
        g += 1;
    }
    g
}

/// Regroups `records` by every wanted dimension of `setting`: under each
/// wanted meta a record joins the group named by its chosen dimensions,
/// keeping only its other dimensions as key. Groups come out in the order
/// in which they were opened, records inside a group in the order of the
/// input. An index that names no dimension of some record's key fails the
/// whole split.
pub fn split_records(setting: &Setting, records: &Vec<Output>) -> (r: Result<
    Vec<MiddleResult>,
    NatureError,
>)
    ensures
        match r {
            Ok(groups) => split_groups(setting@, records.deep_view()) == Some(groups.deep_view()),
            Err(e) => {
                &&& split_groups(setting@, records.deep_view()) is None
                &&& e.kind() == ErrorKind::Verify
                &&& e.message() == index_out_of_range()
            },
        },
{
    let ghost s = setting@;
    let ghost recs = records.deep_view();
    let mut buffer: Vec<MiddleResult> = Vec::new();
    let ghost mut done: Seq<Option<EntryView>> = Seq::empty();
    let sep = setting.dimension_separator.as_str();
    let mut r: usize = 0;
    assert(recs.take(0) =~= Seq::<OutputView>::empty());
    assert(buffer.deep_view() =~= Seq::<MiddleResultView>::empty());
    while r < records.len()
        invariant
            r <= records.len(),
            s == setting@,
            sep@ == s.dimension_separator,
            recs == records.deep_view(),
            done == all_entries(s, recs.take(r as int)),
            all_valid(done),
            buffer.deep_view() == grouped(done),
        decreases records.len() - r,
    {
        let keys = split(records[r].key.as_str(), sep);
        let ghost rec = recs[r as int];
        let ghost base = done;
        let mut d: usize = 0;
        assert(record_entries(s, rec).take(0) =~= Seq::<Option<EntryView>>::empty());
        assert(base + Seq::<Option<EntryView>>::empty() =~= base);
        while d < setting.wanted_dimension.len()
            invariant
                r < records.len(),
                d <= setting.wanted_dimension.len(),
                s == setting@,
                sep@ == s.dimension_separator,
                recs == records.deep_view(),
                rec == recs[r as int],
                keys.deep_view() == split_text(rec.key, s.dimension_separator),
                base == all_entries(s, recs.take(r as int)),
                done == base + record_entries(s, rec).take(d as int),
                all_valid(done),
                buffer.deep_view() == grouped(done),
            decreases setting.wanted_dimension.len() - d,
        {
            let ghost dim = s.wanted_dimension[d as int];
            let ghost entry = entry_of(s.dimension_separator, dim, rec);
            assert(dim.1 =~= setting.wanted_dimension@[d as int].1@);
            assert(dim.0 == setting.wanted_dimension@[d as int].0@);
            assert(record_entries(s, rec)[d as int] == entry);
            assert(record_entries(s, rec).take(d + 1) =~= record_entries(s, rec).take(
                d as int,
            ).push(entry));
            match make_key_and_para(&keys, &setting.wanted_dimension[d].1, sep) {
                Err(e) => {
                    proof {
                        assert(entry is None);
                        let whole = all_entries(s, recs);
                        let upto = all_entries(s, recs.take(r + 1));
                        lemma_entries_prefix(s, recs, r + 1);
                        assert(recs.take(r + 1).drop_last() =~= recs.take(r as int));
                        assert(recs.take(r + 1).last() == rec);
                        assert(upto == base + record_entries(s, rec));
                        assert(upto[base.len() + d] == entry);
                        assert(whole[base.len() + d] == upto[base.len() + d]);
                        assert(!all_valid(whole));
                    }
                    return Err(e);
                },
                Ok(tmp) => {
                    let ghost e = entry->0;
                    let ghost before = buffer.deep_view();
                    let g = find_group(
                        &buffer,
                        setting.wanted_dimension[d].0.as_str(),
                        tmp.0.as_str(),
                    );
                    let item = make_content(tmp.1, records[r].value.clone());
                    if g < buffer.len() {
                        let mut items = duplicate_outputs(&buffer[g].items);
                        let ghost old_items = items.deep_view();
                        items.push(item);
                        assert(items.deep_view() =~= old_items.push(e.item));
                        let merged = MiddleResult {
                            para: buffer[g].para.clone(),
                            meta: buffer[g].meta.clone(),
                            items,
                        };
                        buffer.set(g, merged);
                        assert(buffer.deep_view() =~= add_entry(before, e));
                    } else {
                        let opened = MiddleResult {
                            para: tmp.0,
                            meta: setting.wanted_dimension[d].0.clone(),
                            items: vec![item],
                        };
                        assert(opened@.items =~= seq![e.item]);
                        buffer.push(opened);
                        assert(buffer.deep_view() =~= add_entry(before, e));
                    }
                    proof {
                        let next = done.push(entry);
                        assert(next.drop_last() =~= done);
                        assert(next.last() == entry);
                        assert(next =~= base + record_entries(s, rec).take(d + 1));
                        done = next;
                    }
                },
            }
            d += 1;
        }
        proof {
            assert(record_entries(s, rec).take(setting.wanted_dimension.len() as int)
                =~= record_entries(s, rec));
            assert(recs.take(r + 1).drop_last() =~= recs.take(r as int));
            assert(recs.take(r + 1).last() == rec);
        }
        r += 1;
    }
    assert(recs.take(records.len() as int) =~= recs);
    Ok(buffer)
}

/// The JSON object that stands for one record of a group.
pub open spec fn json_of_item(item: OutputView) -> Seq<char> {
    "{\"key\":"@ + json_quoted(item.key) + ",\"value\":"@ + item.value + "}"@
}

/// The JSON objects that stand for the records of a group, in order.
pub open spec fn json_of_each_item(items: Seq<OutputView>) -> Seq<Seq<char>> {
    Seq::new(items.len(), |i: int| json_of_item(items[i]))
}

/// The JSON array that stands for the records of a group: the content of the
/// instance that the group becomes.
pub open spec fn json_of_items(items: Seq<OutputView>) -> Seq<char> {
    "["@ + join_text(json_of_each_item(items), ","@) + "]"@
}

/// The instance that a group becomes: the group's `para` and meta, its
/// records as content, and nothing else.
pub open spec fn instance_of_group(group: MiddleResultView) -> InstanceView {
    InstanceView {
        para: group.para,
        meta: group.meta,
        content: json_of_items(group.items),
        ..InstanceView::empty()
    }
}

/// The instances that the groups become, in the order of the groups.
pub open spec fn instances_of_groups(groups: Seq<MiddleResultView>) -> Seq<InstanceView> {
    Seq::new(groups.len(), |i: int| instance_of_group(groups[i]))
}

/// Writes the records of a group as a JSON array of objects with a `key` and
/// a `value` each.
pub fn write_items(items: &Vec<Output>) -> (r: String)
    ensures
        r@ == json_of_items(items.deep_view()),
{
    let ghost all = items.deep_view();
    let mut pieces: Vec<String> = Vec::new();
    let mut i: usize = 0;
    assert(pieces.deep_view() =~= json_of_each_item(all.take(0)));
    while i < items.len()
        invariant
            i <= items.len(),
            all == items.deep_view(),
            pieces.deep_view() == json_of_each_item(all.take(i as int)),
        decreases items.len() - i,
    {
        let mut piece = "{\"key\":".to_owned();
        piece.append(write_string(items[i].key.as_str()).as_str());
        piece.append(",\"value\":");
        piece.append(items[i].value.as_str());
        piece.append("}");
        let ghost before = pieces.deep_view();
        pieces.push(piece);
        assert(pieces.deep_view() =~= before.push(piece@));
        assert(pieces.deep_view() =~= json_of_each_item(all.take(i + 1)));
        i += 1;
    }
    assert(all.take(items.len() as int) =~= all);
    let mut out = "[".to_owned();
    out.append(join(&pieces, ",").as_str());
    out.append("]");
    out
}

/// Makes one instance of every group: the group's `para` and meta, its
/// records as content.
pub fn groups_to_instances(groups: &Vec<MiddleResult>) -> (r: Vec<Instance>)
    ensures
        r.deep_view() == instances_of_groups(groups.deep_view()),
{
    let ghost all = groups.deep_view();
    let mut rtn: Vec<Instance> = Vec::new();
    let mut i: usize = 0;
    assert(rtn.deep_view() =~= instances_of_groups(all.take(0)));
    while i < groups.len()
        invariant
            i <= groups.len(),
            all == groups.deep_view(),
            rtn.deep_view() == instances_of_groups(all.take(i as int)),
        decreases groups.len() - i,
    {
        let mut ins = Instance::default();
        ins.para = groups[i].para.clone();
        ins.meta = groups[i].meta.clone();
        ins.content = write_items(&groups[i].items);
        let ghost before = rtn.deep_view();
        rtn.push(ins);
        assert(rtn.deep_view() =~= before.push(ins@));
        assert(rtn.deep_view() =~= instances_of_groups(all.take(i + 1)));
        i += 1;
    }
    assert(all.take(groups.len() as int) =~= all);
    rtn
}

/// What the splitter gives for the settings text `cfg` and the content
/// `content` of the upstream instance: the instances of the groups, or a
/// logical error for the first thing that stands in the way, in this order:
/// settings that do not read, no wanted dimension, content that does not
/// read, a record without a wanted dimension.
pub open spec fn split_outcome(cfg: Seq<char>, content: Seq<char>) -> ConverterReturnedView {
    match setting_of_json(cfg) {
        Err(e) => ConverterReturnedView::LogicalError("setting error : "@ + debug_quoted(e)),
        Ok(s) => if s.wanted_dimension.len() < 1 {
            ConverterReturnedView::LogicalError("wanted_dimension does not defined"@)
        } else {
            match records_of_json(content) {
                Err(e) => ConverterReturnedView::LogicalError(
                    "instance content error : "@ + debug_quoted(e),
                ),
                Ok(records) => match split_groups(s, records) {
                    None => ConverterReturnedView::LogicalError(
                        "VerifyError: "@ + index_out_of_range(),
                    ),
                    Some(groups) => ConverterReturnedView::Instances(instances_of_groups(groups)),
                },
            }
        },
    }
}

/// Splits the records of the upstream instance by the dimensions that the
/// executor's settings want, and gives one instance per group.
///
/// A relation that uses it does well to let the target take the upstream id,
/// so that the results do not scatter.
pub fn dimension_split(para: &ConverterParameter) -> (r: ConverterReturned)
    ensures
        r@ == split_outcome(para.cfg@, para.from.content@),
{
    let set = match Setting::from_json(para.cfg.as_str()) {
        Err(e) => {
            let mut msg = "setting error : ".to_owned();
            msg.append(debug_text(e.as_str()).as_str());
            return ConverterReturned::LogicalError(msg);
        },
        Ok(set) => set,
    };
    if set.wanted_dimension.len() < 1 {
        assert(set@.wanted_dimension.len() == set.wanted_dimension.len());
        return ConverterReturned::LogicalError("wanted_dimension does not defined".to_owned());
    }
    assert(set@.wanted_dimension.len() == set.wanted_dimension.len());
    let input = match parse_records(para.from.content.as_str()) {
        Err(e) => {
            let mut msg = "instance content error : ".to_owned();
            msg.append(debug_text(e.as_str()).as_str());
            return ConverterReturned::LogicalError(msg);
        },
        Ok(input) => input,
    };
    let buffer = match split_records(&set, &input) {
        Err(e) => {
            return ConverterReturned::LogicalError(e.to_text());
        },
        Ok(buffer) => buffer,
    };
    ConverterReturned::Instances(groups_to_instances(&buffer))
}

/// The decimal numerals of the indices, in order.
pub open spec fn index_numerals(indices: Seq<u8>) -> Seq<Seq<char>> {
    Seq::new(indices.len(), |i: int| decimal(indices[i] as nat))
}

/// The JSON array that stands for one wanted dimension: the meta, then the
/// array of its indices.
pub open spec fn json_of_dimension(dim: (Seq<char>, Seq<u8>)) -> Seq<char> {
    "["@ + json_quoted(dim.0) + ",["@ + join_text(index_numerals(dim.1), ","@) + "]]"@
}

/// The JSON arrays that stand for the wanted dimensions, in order.
pub open spec fn json_of_each_dimension(dims: Seq<(Seq<char>, Seq<u8>)>) -> Seq<Seq<char>> {
    Seq::new(dims.len(), |i: int| json_of_dimension(dims[i]))
}

/// The member that names the separator, with the comma that follows it;
/// nothing for the separator `/`, which a setting need not name.
pub open spec fn json_of_separator(sep: Seq<char>) -> Seq<char> {
    if sep == SEPARATOR_INS_PARA@ {
        Seq::empty()
    } else {
        "\"dimension_separator\":"@ + json_quoted(sep) + ","@
    }
}

/// The JSON object that stands for a setting.
pub open spec fn json_of_setting(s: SettingView) -> Seq<char> {
    "{"@ + json_of_separator(s.dimension_separator) + "\"wanted_dimension\":["@ + join_text(
        json_of_each_dimension(s.wanted_dimension),
        ","@,
    ) + "]}"@
}

/// Writes the indices as decimal numerals with commas between them.
fn write_indices(indices: &Vec<u8>) -> (out: String)
    ensures
        out@ == join_text(index_numerals(indices@), ","@),
{
    let mut numerals: Vec<String> = Vec::new();
    let mut i: usize = 0;
    assert(numerals.deep_view() =~= index_numerals(indices@.take(0)));
    while i < indices.len()
        invariant
            i <= indices.len(),
            numerals.deep_view() == index_numerals(indices@.take(i as int)),
        decreases indices.len() - i,
    {
        let ghost before = numerals.deep_view();
        let numeral = decimal_text(indices[i] as u64);
        numerals.push(numeral);
        assert(numerals.deep_view() =~= before.push(numeral@));
        assert(numerals.deep_view() =~= index_numerals(indices@.take(i + 1)));
        i += 1;
    }
    assert(indices@.take(indices.len() as int) =~= indices@);
    join(&numerals, ",")
}

impl Setting {
    /// Writes the setting as a JSON object. The separator `/` is left out.
    pub fn to_json(&self) -> (r: String)
        ensures
            r@ == json_of_setting(self@),
    {
        let mut out = "{".to_owned();
        if !is_default_para_separator(self.dimension_separator.as_str()) {
            out.append("\"dimension_separator\":");
            out.append(write_string(self.dimension_separator.as_str()).as_str());
            out.append(",");
        }
        assert(out@ =~= "{"@ + json_of_separator(self@.dimension_separator));
        let ghost dims = self.wanted_dimension.deep_view();
        let mut pieces: Vec<String> = Vec::new();
        let mut i: usize = 0;
        assert(pieces.deep_view() =~= json_of_each_dimension(dims.take(0)));
        while i < self.wanted_dimension.len()
            invariant
                i <= self.wanted_dimension.len(),
                dims == self.wanted_dimension.deep_view(),
                pieces.deep_view() == json_of_each_dimension(dims.take(i as int)),
            decreases self.wanted_dimension.len() - i,
        {
            assert(dims[i as int].1 =~= self.wanted_dimension@[i as int].1@);
            let mut piece = "[".to_owned();
            piece.append(write_string(self.wanted_dimension[i].0.as_str()).as_str());
            piece.append(",[");
            piece.append(write_indices(&self.wanted_dimension[i].1).as_str());
            piece.append("]]");
            let ghost before = pieces.deep_view();
            pieces.push(piece);
            assert(pieces.deep_view() =~= before.push(piece@));
            assert(pieces.deep_view() =~= json_of_each_dimension(dims.take(i + 1)));
            i += 1;
        }
        assert(dims.take(self.wanted_dimension.len() as int) =~= dims);
        out.append("\"wanted_dimension\":[");
        out.append(join(&pieces, ",").as_str());
        out.append("]}");
        out
    }
}

} // verus!
