//! The statements for the instance table: insert, delete, the lookups by key
//! and the range scan over keys.

use crate::common::collections::TextSet;
use crate::common::error::{ErrorKind, NatureError};
use crate::common::instance::{
    IDAndFrom, Instance, InstanceView, KeyCondition, KeyConditionView, CONTEXT_TARGET_INSTANCE_ID,
    CONTEXT_TARGET_INSTANCE_PARA, SEPARATOR_INS_KEY, SEPARATOR_INS_PARA,
};
use crate::common::meta::{MetaType, MetaView};
use crate::common::mission::{Mission, MissionView};
use crate::common::para::{
    get_para_and_key_from_para, index_out_of_range, indices_in_range, picked,
};
use crate::db::query::{param, ParamValue, ParamValueView, Query, QueryView};
use crate::text::{
    concat_texts, concat_text, contains_char, decimal, decimal_text, join_text, parse_u64,
    parse_u64_text, same_text, split, split_text,
};
use vstd::prelude::*;
use vstd::string::*;

verus! {

/// The first position at or after `from` that holds an empty piece, or the
/// length where no piece from there on is empty.
pub open spec fn filled_until(pieces: Seq<Seq<char>>, from: int) -> int
    decreases pieces.len() - from,
{
    if from < 0 || from >= pieces.len() || pieces[from].len() == 0 {
        from
    } else {
        filled_until(pieces, from + 1)
    }
}

/// The parts of a key: its pieces between `|`, up to the first empty piece.
pub open spec fn key_parts(key: Seq<char>) -> Seq<Seq<char>> {
    let pieces = split_text(key, SEPARATOR_INS_KEY@);
    pieces.take(filled_until(pieces, 0))
}

/// The text holds a single quote.
pub open spec fn has_quote(s: Seq<char>) -> bool {
    s.contains('\'')
}

/// The text of the error that a bound with a single quote gives.
pub open spec fn illegal_condition() -> Seq<char> {
    "illegal query condition!"@
}

/// The clause on `meta` that a bound with the parts `v` adds: an equality
/// once per meta where more parts follow, the comparison `sign` where the
/// meta is the only part.
pub open spec fn meta_clauses(seen: Set<Seq<char>>, v: Seq<Seq<char>>, sign: Seq<char>) -> Seq<
    Seq<char>,
> {
    if v.len() > 1 {
        if seen.contains(v[0]) {
            Seq::empty()
        } else {
            seq![" and meta = '"@ + v[0] + "'"@]
        }
    } else if v.len() == 1 {
        seq![" and meta "@ + sign + " '"@ + v[0] + "'"@]
    } else {
        Seq::empty()
    }
}

/// What has been pinned by equality once the meta clause of `v` is written.
pub open spec fn seen_after_meta(seen: Set<Seq<char>>, v: Seq<Seq<char>>) -> Set<Seq<char>> {
    if v.len() > 1 {
        seen.insert(v[0])
    } else {
        seen
    }
}

/// The name under which the equality on the id of `v` is remembered.
pub open spec fn id_scope(v: Seq<Seq<char>>) -> Seq<char> {
    v[0] + SEPARATOR_INS_KEY@ + v[1]
}

/// The clause on `ins_id` that a bound with the parts `v` adds: an equality
/// once per meta and id where a para follows, the comparison `sign` where the
/// id is the last part.
pub open spec fn id_clauses(seen: Set<Seq<char>>, v: Seq<Seq<char>>, sign: Seq<char>) -> Seq<
    Seq<char>,
> {
    if v.len() > 2 {
        if seen.contains(id_scope(v)) {
            Seq::empty()
        } else {
            seq![" and ins_id = "@ + v[1]]
        }
    } else if v.len() == 2 {
        seq![" and ins_id "@ + sign + " "@ + v[1]]
    } else {
        Seq::empty()
    }
}

/// What has been pinned by equality once all clauses of `v` are written.
pub open spec fn seen_after(seen: Set<Seq<char>>, v: Seq<Seq<char>>) -> Set<Seq<char>> {
    if v.len() > 2 {
        seen_after_meta(seen, v).insert(id_scope(v))
    } else {
        seen_after_meta(seen, v)
    }
}

/// The clause on `para` that a bound with the parts `v` adds. Parts beyond
/// the third are ignored.
pub open spec fn para_clauses(v: Seq<Seq<char>>, sign: Seq<char>) -> Seq<Seq<char>> {
    if v.len() >= 3 {
        seq![" and para "@ + sign + " '"@ + v[2] + "'"@]
    } else {
        Seq::empty()
    }
}

/// All clauses that a bound with the parts `v` and the comparison `sign`
/// adds, given what earlier bounds have pinned already.
pub open spec fn part_clauses(seen: Set<Seq<char>>, v: Seq<Seq<char>>, sign: Seq<char>) -> Seq<
    Seq<char>,
> {
    meta_clauses(seen, v, sign) + id_clauses(seen_after_meta(seen, v), v, sign) + para_clauses(
        v,
        sign,
    )
}

/// Splits a key into its parts at `|` and stops before the first empty part.
pub fn key_to_part(key: &str) -> (rtn: Vec<String>)
    ensures
        rtn.deep_view() == key_parts(key@),
        forall|i: int| 0 <= i < rtn.len() ==> (#[trigger] rtn.deep_view()[i]).len() > 0,
{
    let pieces = split(key, SEPARATOR_INS_KEY);
    let ghost all = pieces.deep_view();
    let mut rtn: Vec<String> = Vec::new();
    let mut i: usize = 0;
    assert(all.take(0) =~= Seq::<Seq<char>>::empty());
    while i < pieces.len()
        invariant
            i <= pieces.len(),
            all == pieces.deep_view(),
            all == split_text(key@, SEPARATOR_INS_KEY@),
            rtn.deep_view() == all.take(i as int),
            filled_until(all, 0) == filled_until(all, i as int),
            forall|k: int| 0 <= k < i ==> (#[trigger] all[k]).len() > 0,
        decreases pieces.len() - i,
    {
        if pieces[i].as_str().is_empty() {
            assert(rtn.deep_view().len() == rtn.len());
            assert forall|k: int| 0 <= k < rtn.len() implies (#[trigger] rtn.deep_view()[k]).len()
                > 0 by {
                assert(all.take(i as int)[k] == all[k]);
            }
            return rtn;
        }
        let ghost before = rtn.deep_view();
        rtn.push(pieces[i].clone());
        assert(rtn.deep_view() =~= before.push(all[i as int]));
        assert(all.take(i + 1) =~= all.take(i as int).push(all[i as int]));
        i += 1;
    }
    assert(rtn.deep_view().len() == rtn.len());
    assert forall|k: int| 0 <= k < rtn.len() implies (#[trigger] rtn.deep_view()[k]).len() > 0 by {
        assert(all.take(i as int)[k] == all[k]);
    }
    rtn
}

/// Adds to `list` the clauses of one bound of a range scan, and to `set`
/// what the bound pins by equality, so that a later bound does not repeat it.
/// A bound that holds a single quote is refused and changes nothing.
pub fn build_for_part(
    set: &mut TextSet,
    list: &mut Vec<String>,
    parts: &str,
    end_sign: &str,
) -> (r: Result<(), NatureError>)
    ensures
        match r {
            Ok(_) => {
                &&& !has_quote(parts@)
                &&& final(set)@ == seen_after(old(set)@, key_parts(parts@))
                &&& final(list).deep_view() == old(list).deep_view() + part_clauses(
                    old(set)@,
                    key_parts(parts@),
                    end_sign@,
                )
            },
            Err(e) => {
                &&& has_quote(parts@)
                &&& e.kind() == ErrorKind::Verify
                &&& e.message() == illegal_condition()
                &&& final(set)@ == old(set)@
                &&& final(list).deep_view() == old(list).deep_view()
            },
        },
{
    if contains_char(parts, '\'') {
        return Err(NatureError::VerifyError("illegal query condition!".to_owned()));
    }
    let vec = key_to_part(parts);
    let ghost v = vec.deep_view();
    let ghost list0 = list.deep_view();
    if vec.len() > 1 {
        if set.insert(vec[0].clone()) {
            let mut clause = " and meta = '".to_owned();
            clause.append(vec[0].as_str());
            clause.append("'");
            list.push(clause);
            assert(list.deep_view() =~= list0 + meta_clauses(old(set)@, v, end_sign@));
        } else {
            assert(list.deep_view() =~= list0 + meta_clauses(old(set)@, v, end_sign@));
        }
    } else if vec.len() == 1 {
        let mut clause = " and meta ".to_owned();
        clause.append(end_sign);
        clause.append(" '");
        clause.append(vec[0].as_str());
        clause.append("'");
        list.push(clause);
        assert(list.deep_view() =~= list0 + meta_clauses(old(set)@, v, end_sign@));
    } else {
        assert(list.deep_view() =~= list0 + meta_clauses(old(set)@, v, end_sign@));
    }
    let ghost list1 = list.deep_view();
    let ghost seen1 = set@;
    assert(seen1 == seen_after_meta(old(set)@, v));
    if vec.len() > 2 {
        let mut scope = vec[0].clone();
        scope.append(SEPARATOR_INS_KEY);
        scope.append(vec[1].as_str());
        if set.insert(scope) {
            let mut clause = " and ins_id = ".to_owned();
            clause.append(vec[1].as_str());
            list.push(clause);
            assert(list.deep_view() =~= list1 + id_clauses(seen1, v, end_sign@));
        } else {
            assert(list.deep_view() =~= list1 + id_clauses(seen1, v, end_sign@));
        }
    } else if vec.len() == 2 {
        let mut clause = " and ins_id ".to_owned();
        clause.append(end_sign);
        clause.append(" ");
        clause.append(vec[1].as_str());
        list.push(clause);
        assert(list.deep_view() =~= list1 + id_clauses(seen1, v, end_sign@));
    } else {
        assert(list.deep_view() =~= list1 + id_clauses(seen1, v, end_sign@));
    }
    let ghost list2 = list.deep_view();
    if vec.len() >= 3 {
        let mut clause = " and para ".to_owned();
        clause.append(end_sign);
        clause.append(" '");
        clause.append(vec[2].as_str());
        clause.append("'");
        list.push(clause);
        assert(list.deep_view() =~= list2 + para_clauses(v, end_sign@));
    } else {
        assert(list.deep_view() =~= list2 + para_clauses(v, end_sign@));
    }
    assert(list.deep_view() =~= list0 + part_clauses(old(set)@, v, end_sign@));
    Ok(())
}

/// Some bound of the range scan holds a single quote.
pub open spec fn bounds_have_quote(c: KeyConditionView) -> bool {
    has_quote(c.key_gt) || has_quote(c.key_ge) || has_quote(c.key_lt) || has_quote(c.key_le)
}

/// The clauses of the four bounds of a range scan, in the order greater,
/// greater or equal, less, less or equal. An equality that an earlier bound
/// has written is not written again.
pub open spec fn key_clauses(c: KeyConditionView) -> Seq<Seq<char>> {
    let seen0 = Set::<Seq<char>>::empty();
    let seen1 = seen_after(seen0, key_parts(c.key_gt));
    let seen2 = seen_after(seen1, key_parts(c.key_ge));
    let seen3 = seen_after(seen2, key_parts(c.key_lt));
    part_clauses(seen0, key_parts(c.key_gt), ">"@) + part_clauses(
        seen1,
        key_parts(c.key_ge),
        ">="@,
    ) + part_clauses(seen2, key_parts(c.key_lt), "<"@) + part_clauses(
        seen3,
        key_parts(c.key_le),
        "<="@,
    )
}

/// The columns of the instance table, as every lookup selects them.
pub const SELECT_INSTANCE: &'static str =
    "SELECT meta, ins_id, para, content, context, states, state_version, create_time, sys_context, from_key FROM instances";

/// The statement of a range scan: the time window first, then the key
/// clauses, then the meta, ordered by key and cut at the limit.
pub open spec fn range_sql(c: KeyConditionView) -> Seq<char> {
    SELECT_INSTANCE@ + " where 1=1"@ + (if c.time_ge is Some {
        " and create_time >= :time_ge"@
    } else {
        Seq::empty()
    }) + (if c.time_lt is Some {
        " and create_time < :time_lt"@
    } else {
        Seq::empty()
    }) + concat_text(key_clauses(c)) + (if c.meta.len() == 0 {
        Seq::empty()
    } else {
        " and meta = :meta"@
    }) + " order by meta, ins_id, para limit :limit"@
}

/// The number of rows that a range scan may return: what the caller asks
/// for, but no more than `size_limit`.
pub open spec fn clamped_limit(limit: i32, size_limit: i32) -> i32 {
    if limit < size_limit {
        limit
    } else {
        size_limit
    }
}

/// The range scan for the condition `c` under the row limit `size_limit`.
pub open spec fn range_query(c: KeyConditionView, size_limit: i32) -> QueryView {
    QueryView {
        sql: range_sql(c),
        params: seq![
            ("meta"@, ParamValueView::Text(c.meta)),
            (
                "time_ge"@,
                ParamValueView::Time(
                    match c.time_ge {
                        Some(t) => t,
                        None => 0,
                    },
                ),
            ),
            (
                "time_lt"@,
                ParamValueView::Time(
                    match c.time_lt {
                        Some(t) => t,
                        None => 0,
                    },
                ),
            ),
            ("limit"@, ParamValueView::Signed(clamped_limit(c.limit, size_limit) as i64)),
        ],
    }
}

/// What can scan instances by a range of keys.
pub trait KeyRange {
    /// The statement that selects the instances whose key lies within the
    /// bounds of `f_para` and whose creation time lies within its window. A
    /// bound that holds a single quote is refused before any statement is
    /// made; every other condition gets its statement.
    fn get_by_key_range(&self, f_para: &KeyCondition) -> (r: Result<Query, NatureError>)
        ensures
            r is Ok <==> !bounds_have_quote(f_para@),
            r matches Err(e) ==> e.kind() == ErrorKind::Verify,
    ;
}

/// Makes the statements for the instance table.
#[derive(Debug, Clone, Copy)]
pub struct InstanceDaoImpl {
    /// The most rows that one range scan may return.
    pub query_size_limit: i32,
}

/// The most rows that a range scan returns unless configured otherwise.
pub const QUERY_SIZE_LIMIT: i32 = 1000;

impl KeyRange for InstanceDaoImpl {
    fn get_by_key_range(&self, f_para: &KeyCondition) -> (r: Result<Query, NatureError>)
        ensures
            match r {
                Ok(q) => !bounds_have_quote(f_para@) && q@ == range_query(
                    f_para@,
                    self.query_size_limit,
                ),
                Err(e) => bounds_have_quote(f_para@) && e.kind() == ErrorKind::Verify
                    && e.message() == illegal_condition(),
            },
    {
        let mut list: Vec<String> = Vec::new();
        let mut set = TextSet::new();
        let ghost c = f_para@;
        assert(list.deep_view() =~= Seq::<Seq<char>>::empty());
        match build_for_part(&mut set, &mut list, f_para.key_gt.as_str(), ">") {
            Err(e) => {
                return Err(e);
            },
            Ok(_) => {},
        }
        match build_for_part(&mut set, &mut list, f_para.key_ge.as_str(), ">=") {
            Err(e) => {
                return Err(e);
            },
            Ok(_) => {},
        }
        match build_for_part(&mut set, &mut list, f_para.key_lt.as_str(), "<") {
            Err(e) => {
                return Err(e);
            },
            Ok(_) => {},
        }
        match build_for_part(&mut set, &mut list, f_para.key_le.as_str(), "<=") {
            Err(e) => {
                return Err(e);
            },
            Ok(_) => {},
        }
        assert(list.deep_view() =~= key_clauses(c));
        let key = concat_texts(&list);
        let mut sql = SELECT_INSTANCE.to_owned();
        sql.append(" where 1=1");
        if f_para.time_ge.is_some() {
            sql.append(" and create_time >= :time_ge");
        }
        let ghost sql1 = sql@;
        assert(sql1 =~= SELECT_INSTANCE@ + " where 1=1"@ + (if c.time_ge is Some {
            " and create_time >= :time_ge"@
        } else {
            Seq::empty()
        }));
        if f_para.time_lt.is_some() {
            sql.append(" and create_time < :time_lt");
        }
        let ghost sql2 = sql@;
        assert(sql2 =~= sql1 + (if c.time_lt is Some {
            " and create_time < :time_lt"@
        } else {
            Seq::empty()
        }));
        sql.append(key.as_str());
        if !f_para.meta.as_str().is_empty() {
            sql.append(" and meta = :meta");
        }
        let ghost sql3 = sql@;
        assert(sql3 =~= sql2 + concat_text(key_clauses(c)) + (if c.meta.len() == 0 {
            Seq::empty()
        } else {
            " and meta = :meta"@
        }));
        sql.append(" order by meta, ins_id, para limit :limit");
        let time_ge_v: i64 = match f_para.time_ge {
            Some(ge) => ge,
            None => 0,
        };
        let time_lt_v: i64 = match f_para.time_lt {
            Some(lt) => lt,
            None => 0,
        };
        let limit: i32 = if f_para.limit < self.query_size_limit {
            f_para.limit
        } else {
            self.query_size_limit
        };
        let mut params: Vec<(String, ParamValue)> = Vec::new();
        params.push(param("meta", ParamValue::Text(f_para.meta.clone())));
        params.push(param("time_ge", ParamValue::Time(time_ge_v)));
        params.push(param("time_lt", ParamValue::Time(time_lt_v)));
        params.push(param("limit", ParamValue::Signed(limit as i64)));
        let q = Query { sql, params };
        assert(q@.params =~= range_query(c, self.query_size_limit).params);
        Ok(q)
    }
}

/// The statement that stores one instance.
pub const INSERT_INSTANCE: &'static str =
    "INSERT INTO instances (meta, ins_id, para, content, context, states, state_version, create_time, sys_context, from_key) VALUES(:meta,:ins_id,:para,:content,:context,:states,:state_version,:create_time,:sys_context,:from_key)";

/// The statement that removes every version of one instance.
pub const DELETE_INSTANCE: &'static str =
    "DELETE FROM instances WHERE meta = :meta and ins_id = :ins_id and para = :para";

/// How a lookup for the newest version ends.
pub const NEWEST_FIRST: &'static str = " order by state_version desc limit 1";

/// The text of the error that more than one row for one key gives.
pub open spec fn too_many_rows() -> Seq<char> {
    "should not return more than one rows"@
}

/// The insert of the instance `i`, every column bound by name.
pub open spec fn insert_query(i: InstanceView) -> QueryView {
    QueryView {
        sql: INSERT_INSTANCE@,
        params: seq![
            ("meta"@, ParamValueView::Text(i.meta)),
            ("ins_id"@, ParamValueView::Unsigned(i.id)),
            ("para"@, ParamValueView::Text(i.para)),
            ("content"@, ParamValueView::Text(i.content)),
            ("context"@, ParamValueView::Entries(i.context)),
            ("states"@, ParamValueView::Flags(i.states)),
            ("state_version"@, ParamValueView::Signed(i.state_version as i64)),
            ("create_time"@, ParamValueView::Time(i.create_time)),
            ("sys_context"@, ParamValueView::Entries(i.sys_context)),
            ("from_key"@, ParamValueView::Text(i.from_key)),
        ],
    }
}

/// The lookup of the newest instance of `meta` and `id` that came from
/// `from_key`.
pub open spec fn by_from_query(meta: Seq<char>, id: u64, from_key: Seq<char>) -> QueryView {
    QueryView {
        sql: SELECT_INSTANCE@ + " where meta = :meta and ins_id = :ins_id and from_key = :from_key"@
            + NEWEST_FIRST@,
        params: seq![
            ("meta"@, ParamValueView::Text(meta)),
            ("ins_id"@, ParamValueView::Unsigned(id)),
            ("from_key"@, ParamValueView::Text(from_key)),
        ],
    }
}

/// The lookup of the newest version of `(meta, id, para)`.
pub open spec fn last_state_query(c: KeyConditionView) -> QueryView {
    QueryView {
        sql: SELECT_INSTANCE@ + " where meta = :meta and ins_id = :ins_id and para = :para"@
            + NEWEST_FIRST@,
        params: seq![
            ("meta"@, ParamValueView::Text(c.meta)),
            ("ins_id"@, ParamValueView::Unsigned(c.id)),
            ("para"@, ParamValueView::Text(c.para)),
        ],
    }
}

/// The lookup of exactly `(meta, id, para, state_version)`.
pub open spec fn by_id_query(c: KeyConditionView) -> QueryView {
    QueryView {
        sql: SELECT_INSTANCE@
            + " where meta = :meta and ins_id = :ins_id and para = :para and state_version = :state_version"@
            + NEWEST_FIRST@,
        params: seq![
            ("meta"@, ParamValueView::Text(c.meta)),
            ("ins_id"@, ParamValueView::Unsigned(c.id)),
            ("para"@, ParamValueView::Text(c.para)),
            ("state_version"@, ParamValueView::Signed(c.state_version as i64)),
        ],
    }
}

/// The removal of every version of `(meta, id, para)`.
pub open spec fn delete_query(i: InstanceView) -> QueryView {
    QueryView {
        sql: DELETE_INSTANCE@,
        params: seq![
            ("meta"@, ParamValueView::Text(i.meta)),
            ("ins_id"@, ParamValueView::Unsigned(i.id)),
            ("para"@, ParamValueView::Text(i.para)),
        ],
    }
}

impl InstanceDaoImpl {
    /// A maker of statements whose range scans return at most
    /// `query_size_limit` rows.
    pub fn new(query_size_limit: i32) -> (r: InstanceDaoImpl)
        ensures
            r.query_size_limit == query_size_limit,
    {
        InstanceDaoImpl { query_size_limit }
    }

    /// The statement that stores `instance`.
    pub fn insert(instance: &Instance) -> (q: Query)
        ensures
            q@ == insert_query(instance@),
    {
        let mut params: Vec<(String, ParamValue)> = Vec::new();
        params.push(param("meta", ParamValue::Text(instance.meta.clone())));
        params.push(param("ins_id", ParamValue::Unsigned(instance.id)));
        params.push(param("para", ParamValue::Text(instance.para.clone())));
        params.push(param("content", ParamValue::Text(instance.content.clone())));
        params.push(param("context", ParamValue::Entries(instance.context.duplicate())));
        params.push(param("states", ParamValue::Flags(instance.states.duplicate())));
        params.push(param("state_version", ParamValue::Signed(instance.state_version as i64)));
        params.push(param("create_time", ParamValue::Time(instance.create_time)));
        params.push(param("sys_context", ParamValue::Entries(instance.sys_context.duplicate())));
        params.push(param("from_key", ParamValue::Text(instance.from_key.clone())));
        let q = Query { sql: INSERT_INSTANCE.to_owned(), params };
        assert(q@.params =~= insert_query(instance@).params);
        q
    }

    /// The statement that tells whether the upstream named by `f_para` was
    /// stored earlier: it selects the newest instance that came from it.
    pub fn get_by_from(f_para: &IDAndFrom) -> (q: Query)
        ensures
            q@ == by_from_query(f_para.meta@, f_para.id, f_para.from_key@),
    {
        let mut sql = SELECT_INSTANCE.to_owned();
        sql.append(" where meta = :meta and ins_id = :ins_id and from_key = :from_key");
        sql.append(NEWEST_FIRST);
        let mut params: Vec<(String, ParamValue)> = Vec::new();
        params.push(param("meta", ParamValue::Text(f_para.meta.clone())));
        params.push(param("ins_id", ParamValue::Unsigned(f_para.id)));
        params.push(param("from_key", ParamValue::Text(f_para.from_key.clone())));
        let q = Query { sql, params };
        assert(q@.params =~= by_from_query(f_para.meta@, f_para.id, f_para.from_key@).params);
        q
    }

    /// The statement that selects the newest version of the instance that
    /// `f_para` names by meta, id and para.
    pub fn get_last_state(f_para: &KeyCondition) -> (q: Query)
        ensures
            q@ == last_state_query(f_para@),
    {
        let mut sql = SELECT_INSTANCE.to_owned();
        sql.append(" where meta = :meta and ins_id = :ins_id and para = :para");
        sql.append(NEWEST_FIRST);
        let mut params: Vec<(String, ParamValue)> = Vec::new();
        params.push(param("meta", ParamValue::Text(f_para.meta.clone())));
        params.push(param("ins_id", ParamValue::Unsigned(f_para.id)));
        params.push(param("para", ParamValue::Text(f_para.para.clone())));
        let q = Query { sql, params };
        assert(q@.params =~= last_state_query(f_para@).params);
        q
    }

    /// The statement that selects exactly the version that `f_para` names.
    pub fn get_by_id(f_para: KeyCondition) -> (q: Query)
        ensures
            q@ == by_id_query(f_para@),
    {
        let mut sql = SELECT_INSTANCE.to_owned();
        sql.append(
            " where meta = :meta and ins_id = :ins_id and para = :para and state_version = :state_version",
        );
        sql.append(NEWEST_FIRST);
        let mut params: Vec<(String, ParamValue)> = Vec::new();
        params.push(param("meta", ParamValue::Text(f_para.meta.clone())));
        params.push(param("ins_id", ParamValue::Unsigned(f_para.id)));
        params.push(param("para", ParamValue::Text(f_para.para.clone())));
        params.push(param("state_version", ParamValue::Signed(f_para.state_version as i64)));
        let q = Query { sql, params };
        assert(q@.params =~= by_id_query(f_para@).params);
        q
    }

    /// The statement that removes every version of `ins`.
    pub fn delete(ins: &Instance) -> (q: Query)
        ensures
            q@ == delete_query(ins@),
    {
        let mut params: Vec<(String, ParamValue)> = Vec::new();
        params.push(param("meta", ParamValue::Text(ins.meta.clone())));
        params.push(param("ins_id", ParamValue::Unsigned(ins.id)));
        params.push(param("para", ParamValue::Text(ins.para.clone())));
        let q = Query { sql: DELETE_INSTANCE.to_owned(), params };
        assert(q@.params =~= delete_query(ins@).params);
        q
    }

    /// What the rows of a lookup for one instance mean: no row is no
    /// instance, one row is the instance, more rows cannot be.
    pub fn one_row(rows: Vec<Instance>) -> (r: Result<Option<Instance>, NatureError>)
        ensures
            match r {
                Ok(None) => rows.len() == 0,
                Ok(Some(i)) => rows.len() == 1 && i@ == rows[0]@,
                Err(e) => rows.len() > 1 && e.kind() == ErrorKind::Logical && e.message()
                    == too_many_rows(),
            },
    {
        let mut rows = rows;
        if rows.len() == 0 {
            Ok(None)
        } else if rows.len() == 1 {
            match rows.pop() {
                Some(i) => Ok(Some(i)),
                None => Ok(None),
            }
        } else {
            Err(NatureError::LogicalError("should not return more than one rows".to_owned()))
        }
    }
}

/// Where the last state of a mission's target is to be found.
#[derive(Debug, Clone)]
pub enum LastTarget {
    /// The upstream instance itself is the last state.
    Upstream(Instance),
    /// The target bears no state, so there is no last state.
    Stateless,
    /// The last state is the newest version of the instance named here.
    Lookup(KeyCondition),
}

/// The mathematical content of a [`LastTarget`].
pub enum LastTargetView {
    Upstream(InstanceView),
    Stateless,
    Lookup(KeyConditionView),
}

impl View for LastTarget {
    type V = LastTargetView;

    open spec fn view(&self) -> LastTargetView {
        match self {
            LastTarget::Upstream(i) => LastTargetView::Upstream(i@),
            LastTarget::Stateless => LastTargetView::Stateless,
            LastTarget::Lookup(c) => LastTargetView::Lookup(c@),
        }
    }
}

/// The target is a `Loop` meta that keeps only one instance and the upstream
/// instance is of that very meta.
pub open spec fn loops_on_itself(from: InstanceView, to: MetaView) -> bool {
    to.meta_type == MetaType::Loop && to.key == from.meta && to.only_one()
}

/// The `para` of the target: the dimensions of the upstream `para` that the
/// mission appends, or empty where it appends none. `None` where an index
/// names no dimension.
pub open spec fn target_para(from: InstanceView, m: MissionView) -> Option<Seq<char>> {
    let wanted = m.target_demand.append_para;
    let parts = split_text(from.para, SEPARATOR_INS_PARA@);
    if wanted.len() == 0 {
        Some(Seq::empty())
    } else if indices_in_range(wanted, parts.len()) {
        Some(join_text(picked(parts, wanted), SEPARATOR_INS_PARA@))
    } else {
        None
    }
}

/// The mission's entries once the `para` of the target is recorded.
pub open spec fn context_with_para(from: InstanceView, m: MissionView) -> Map<
    Seq<char>,
    Seq<char>,
> {
    match target_para(from, m) {
        Some(p) => if m.target_demand.append_para.len() > 0 {
            m.sys_context.insert(CONTEXT_TARGET_INSTANCE_PARA@, p)
        } else {
            m.sys_context
        },
        None => m.sys_context,
    }
}

/// The upstream instance lends its id to the target.
pub open spec fn lends_id(from: InstanceView, m: MissionView) -> bool {
    m.use_upstream_id || m.to.check_master(from.meta)
}

/// The id of the target as text: what the entries name, else the upstream id
/// where it is lent, else zero.
pub open spec fn target_id_text(from: InstanceView, m: MissionView) -> Seq<char> {
    let ctx = context_with_para(from, m);
    if ctx.dom().contains(CONTEXT_TARGET_INSTANCE_ID@) {
        ctx[CONTEXT_TARGET_INSTANCE_ID@]
    } else if lends_id(from, m) {
        decimal(from.id as nat)
    } else {
        "0"@
    }
}

/// The mission's entries after the last target has been worked out: the
/// `para` of the target is recorded where dimensions are appended, and the id
/// where the upstream lends it and none was recorded before.
pub open spec fn last_target_context(from: InstanceView, m: MissionView) -> Map<
    Seq<char>,
    Seq<char>,
> {
    let ctx = context_with_para(from, m);
    if loops_on_itself(from, m.to) || !m.to.is_state() || target_para(from, m) is None {
        m.sys_context
    } else if !ctx.dom().contains(CONTEXT_TARGET_INSTANCE_ID@) && lends_id(from, m) {
        ctx.insert(CONTEXT_TARGET_INSTANCE_ID@, decimal(from.id as nat))
    } else {
        ctx
    }
}

/// The text of the error that a target id which is no number gives.
pub open spec fn bad_target_id() -> Seq<char> {
    "target instance id is not a number"@
}

impl InstanceDaoImpl {
    /// Works out where the last state of the target of `mission` is to be
    /// found for the upstream instance `from`, and records in the mission's
    /// entries the `para` and the id of the target.
    ///
    /// A `Loop` target that keeps only one instance takes the upstream
    /// instance itself; a target without state has no last state; otherwise
    /// the last state is the newest version under the target's meta, id and
    /// `para`.
    pub fn get_last_target(from: &Instance, mission: &mut Mission) -> (r: Result<
        LastTarget,
        NatureError,
    >)
        ensures
            final(mission)@ == (MissionView {
                sys_context: last_target_context(from@, old(mission)@),
                ..old(mission)@
            }),
            match r {
                Ok(LastTarget::Upstream(i)) => loops_on_itself(from@, old(mission)@.to) && i@
                    == from@,
                Ok(LastTarget::Stateless) => !loops_on_itself(from@, old(mission)@.to) && !old(
                    mission,
                )@.to.is_state(),
                Ok(LastTarget::Lookup(c)) => {
                    &&& !loops_on_itself(from@, old(mission)@.to)
                    &&& old(mission)@.to.is_state()
                    &&& target_para(from@, old(mission)@) matches Some(p)
                    &&& parse_u64_text(target_id_text(from@, old(mission)@)) matches Some(id)
                    &&& c@ == KeyConditionView::exact(id, old(mission)@.to.key, p, 0)
                },
                Err(e) => {
                    &&& !loops_on_itself(from@, old(mission)@.to)
                    &&& old(mission)@.to.is_state()
                    &&& e.kind() == ErrorKind::Verify
                    &&& match target_para(from@, old(mission)@) {
                        None => e.message() == index_out_of_range(),
                        Some(_) => parse_u64_text(target_id_text(from@, old(mission)@)) is None
                            && e.message() == bad_target_id(),
                    }
                },
            },
    {
        let ghost m0 = mission@;
        if mission.to.get_meta_type() == MetaType::Loop && same_text(
            mission.to.key.as_str(),
            from.meta.as_str(),
        ) {
            if let Some(setting) = mission.to.get_setting() {
                if setting.only_one {
                    return Ok(LastTarget::Upstream(from.duplicate()));
                }
            }
        }
        if !mission.to.is_state() {
            return Ok(LastTarget::Stateless);
        }
        let para_id = if mission.target_demand.append_para.len() > 0 {
            let id = match get_para_and_key_from_para(
                from.para.as_str(),
                &mission.target_demand.append_para,
            ) {
                Ok(pair) => pair.0,
                Err(e) => {
                    return Err(e);
                },
            };
            mission.sys_context.insert(CONTEXT_TARGET_INSTANCE_PARA.to_owned(), id.clone());
            id
        } else {
            String::new()
        };
        assert(target_para(from@, m0) == Some(para_id@));
        assert(mission.sys_context@ == context_with_para(from@, m0));
        let id = match mission.sys_context.get(CONTEXT_TARGET_INSTANCE_ID) {
            Some(state_id) => state_id,
            None => {
                if mission.use_upstream_id || mission.to.check_master(from.meta.as_str()) {
                    let from_id = decimal_text(from.id);
                    mission.sys_context.insert(
                        CONTEXT_TARGET_INSTANCE_ID.to_owned(),
                        from_id.clone(),
                    );
                    from_id
                } else {
                    "0".to_owned()
                }
            },
        };
        assert(id@ == target_id_text(from@, m0));
        let meta = mission.to.meta_string();
        match parse_u64(id.as_str()) {
            Some(n) => Ok(
                LastTarget::Lookup(KeyCondition::new(n, meta.as_str(), para_id.as_str(), 0)),
            ),
            None => Err(NatureError::VerifyError("target instance id is not a number".to_owned())),
        }
    }
}

} // verus!
