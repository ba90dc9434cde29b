//! The mission planner: from an upstream instance and the relations that
//! leave its meta to the missions to carry out.

use crate::common::collections::{TextMap, TextSet};
use crate::common::instance::{
    Instance, InstanceView, CONTEXT_TARGET_INSTANCE_ID, CONTEXT_TARGET_INSTANCE_PARA,
};
use crate::common::mission::{
    FlowSelector, FlowSelectorView, Mission, MissionView, Relation, RelationView,
};
use crate::common::para::get_para_and_key_from_para;
use crate::db::instance_dao::{lends_id, target_para};
use crate::text::{decimal, decimal_text};
use vstd::prelude::*;
use vstd::string::*;

verus! {

/// Every text of `wanted` is in `have`.
pub open spec fn has_all(wanted: Seq<Seq<char>>, have: Set<Seq<char>>) -> bool {
    forall|i: int| 0 <= i < wanted.len() ==> have.contains(#[trigger] wanted[i])
}

/// Some text of `wanted` is in `have`.
pub open spec fn has_any(wanted: Seq<Seq<char>>, have: Set<Seq<char>>) -> bool {
    exists|i: int| 0 <= i < wanted.len() && have.contains(#[trigger] wanted[i])
}

/// The states of an instance meet the selector: all of `state_all`, one of
/// `state_any` unless it is empty, none of `state_none`.
pub open spec fn states_selected(s: FlowSelectorView, states: Set<Seq<char>>) -> bool {
    has_all(s.state_all, states) && (s.state_any.len() == 0 || has_any(s.state_any, states))
        && !has_any(s.state_none, states)
}

/// The context of an instance meets the selector: all of `context_all`, one
/// of `context_any` unless it is empty, and none of `context_none` are keys
/// of it.
pub open spec fn context_selected(s: FlowSelectorView, context: Map<Seq<char>, Seq<char>>) -> bool {
    has_all(s.context_all, context.dom()) && (s.context_any.len() == 0 || has_any(
        s.context_any,
        context.dom(),
    )) && !has_any(s.context_none, context.dom())
}

/// The relation applies to the upstream instance: it has no selector, or
/// the context and the states of the instance meet it.
pub open spec fn relation_applies(r: RelationView, from: InstanceView) -> bool {
    match r.selector {
        None => true,
        Some(s) => context_selected(s, from.context) && states_selected(s, from.states),
    }
}

/// The entries of the mission that a relation makes for the upstream
/// instance: those of the instance, then the `para` of the target where the
/// relation appends dimensions that the upstream `para` has, then the
/// upstream id where it is lent to the target.
pub open spec fn planned_context(r: RelationView, from: InstanceView) -> Map<Seq<char>, Seq<char>> {
    let m = mission_from(r, from.sys_context);
    let with_para = match target_para(from, m) {
        Some(p) => if r.target_demand.append_para.len() > 0 {
            from.sys_context.insert(CONTEXT_TARGET_INSTANCE_PARA@, p)
        } else {
            from.sys_context
        },
        None => from.sys_context,
    };
    if lends_id(from, m) {
        with_para.insert(CONTEXT_TARGET_INSTANCE_ID@, decimal(from.id as nat))
    } else {
        with_para
    }
}

/// The mission that carries out the relation `r` with the given entries.
pub open spec fn mission_from(r: RelationView, sys_context: Map<Seq<char>, Seq<char>>) -> MissionView {
    MissionView {
        to: r.to,
        executor: r.executor,
        use_upstream_id: r.use_upstream_id,
        target_demand: r.target_demand,
        sys_context,
        last_status_demand: r.last_status_demand,
    }
}

/// The mission that the relation `r` makes for the upstream instance `from`.
pub open spec fn planned_mission(r: RelationView, from: InstanceView) -> MissionView {
    mission_from(r, planned_context(r, from))
}

/// The missions for the upstream instance `from`: one for every relation
/// that applies, in the order of the relations.
pub open spec fn planned_missions(from: InstanceView, relations: Seq<RelationView>) -> Seq<
    MissionView,
>
    decreases relations.len(),
{
    if relations.len() == 0 {
        Seq::empty()
    } else if relation_applies(relations.last(), from) {
        planned_missions(from, relations.drop_last()).push(planned_mission(relations.last(), from))
    } else {
        planned_missions(from, relations.drop_last())
    }
}

/// Whether every text of `wanted` is a member of `have`.
fn set_has_all(wanted: &Vec<String>, have: &TextSet) -> (r: bool)
    ensures
        r == has_all(wanted.deep_view(), have@),
{
    let mut i: usize = 0;
    while i < wanted.len()
        invariant
            i <= wanted.len(),
            forall|j: int| 0 <= j < i ==> have@.contains(#[trigger] wanted.deep_view()[j]),
        decreases wanted.len() - i,
    {
        if !have.contains(wanted[i].as_str()) {
            assert(!have@.contains(wanted.deep_view()[i as int]));
            return false;
        }
        i += 1;
    }
    true
}

/// Whether some text of `wanted` is a member of `have`.
fn set_has_any(wanted: &Vec<String>, have: &TextSet) -> (r: bool)
    ensures
        r == has_any(wanted.deep_view(), have@),
{
    let mut i: usize = 0;
    while i < wanted.len()
        invariant
            i <= wanted.len(),
            forall|j: int| 0 <= j < i ==> !have@.contains(#[trigger] wanted.deep_view()[j]),
        decreases wanted.len() - i,
    {
        if have.contains(wanted[i].as_str()) {
            assert(have@.contains(wanted.deep_view()[i as int]));
            return true;
        }
        i += 1;
    }
    false
}

/// Whether every text of `wanted` is a key of `have`.
fn map_has_all(wanted: &Vec<String>, have: &TextMap) -> (r: bool)
    ensures
        r == has_all(wanted.deep_view(), have@.dom()),
{
    let mut i: usize = 0;
    while i < wanted.len()
        invariant
            i <= wanted.len(),
            forall|j: int| 0 <= j < i ==> have@.dom().contains(#[trigger] wanted.deep_view()[j]),
        decreases wanted.len() - i,
    {
        if !have.contains_key(wanted[i].as_str()) {
            assert(!have@.dom().contains(wanted.deep_view()[i as int]));
            return false;
        }
        i += 1;
    }
    true
}

/// Whether some text of `wanted` is a key of `have`.
fn map_has_any(wanted: &Vec<String>, have: &TextMap) -> (r: bool)
    ensures
        r == has_any(wanted.deep_view(), have@.dom()),
{
    let mut i: usize = 0;
    while i < wanted.len()
        invariant
            i <= wanted.len(),
            forall|j: int| 0 <= j < i ==> !have@.dom().contains(#[trigger] wanted.deep_view()[j]),
        decreases wanted.len() - i,
    {
        if have.contains_key(wanted[i].as_str()) {
            assert(have@.dom().contains(wanted.deep_view()[i as int]));
            return true;
        }
        i += 1;
    }
    false
}

/// Whether the states of an instance meet the selector.
pub fn state_check(selector: &FlowSelector, states: &TextSet) -> (r: bool)
    ensures
        r == states_selected(selector@, states@),
{
    if !set_has_all(&selector.state_all, states) {
        return false;
    }
    if selector.state_any.len() > 0 && !set_has_any(&selector.state_any, states) {
        return false;
    }
    !set_has_any(&selector.state_none, states)
}

/// Whether the context of an instance meets the selector.
pub fn context_check(selector: &FlowSelector, context: &TextMap) -> (r: bool)
    ensures
        r == context_selected(selector@, context@),
{
    if !map_has_all(&selector.context_all, context) {
        return false;
    }
    if selector.context_any.len() > 0 && !map_has_any(&selector.context_any, context) {
        return false;
    }
    !map_has_any(&selector.context_none, context)
}

impl Mission {
    /// The mission that carries out `relation` for the upstream instance
    /// `instance`.
    pub fn from_relation(relation: &Relation, instance: &Instance) -> (m: Mission)
        ensures
            m@ == planned_mission(relation@, instance@),
    {
        let mut m = Mission {
            to: relation.to.duplicate(),
            executor: match &relation.executor {
                Some(e) => Some(e.duplicate()),
                None => None,
            },
            use_upstream_id: relation.use_upstream_id,
            target_demand: relation.target_demand.duplicate(),
            sys_context: instance.sys_context.duplicate(),
            last_status_demand: match &relation.last_status_demand {
                Some(d) => Some(d.duplicate()),
                None => None,
            },
        };
        assert(m@ == mission_from(relation@, instance@.sys_context));
        if relation.target_demand.append_para.len() > 0 {
            match get_para_and_key_from_para(
                instance.para.as_str(),
                &relation.target_demand.append_para,
            ) {
                Ok(pair) => {
                    m.sys_context.insert(CONTEXT_TARGET_INSTANCE_PARA.to_owned(), pair.0);
                },
                Err(_) => {},
            }
        }
        if relation.use_upstream_id || relation.to.check_master(instance.meta.as_str()) {
            m.sys_context.insert(CONTEXT_TARGET_INSTANCE_ID.to_owned(), decimal_text(instance.id));
        }
        m
    }

    /// Plans the missions for the upstream instance `instance`: one for
    /// every relation whose selector the instance meets, in the order in
    /// which the relations are stored.
    pub fn get_by_instance(instance: &Instance, relations: &Vec<Relation>) -> (rtn: Vec<Mission>)
        ensures
            rtn.deep_view() == planned_missions(instance@, relations.deep_view()),
    {
        let ghost all = relations.deep_view();
        let mut rtn: Vec<Mission> = Vec::new();
        let mut i: usize = 0;
        assert(all.take(0) =~= Seq::<RelationView>::empty());
        assert(rtn.deep_view() =~= Seq::<MissionView>::empty());
        while i < relations.len()
            invariant
                i <= relations.len(),
                all == relations.deep_view(),
                rtn.deep_view() == planned_missions(instance@, all.take(i as int)),
            decreases relations.len() - i,
        {
            assert(all.take(i + 1).drop_last() =~= all.take(i as int));
            assert(all.take(i + 1).last() == relations@[i as int]@);
            let r = &relations[i];
            let applies = match &r.selector {
                None => true,
                Some(selector) => context_check(selector, &instance.context) && state_check(
                    selector,
                    &instance.states,
                ),
            };
            if applies {
                let ghost before = rtn.deep_view();
                let m = Mission::from_relation(r, instance);
                rtn.push(m);
                assert(rtn.deep_view() =~= before.push(m@));
            }
            i += 1;
        }
        assert(all.take(relations.len() as int) =~= all);
        rtn
    }
}

} // verus!
