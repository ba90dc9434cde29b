//! The bodies of store tasks and of batches.

use crate::common::instance::{Instance, InstanceView};
use crate::common::meta::{Meta, MetaView};
use crate::common::mission::{duplicate_missions, Mission, MissionView, Relation};
use crate::flow::planner::planned_missions;
use vstd::prelude::*;
use vstd::string::*;

verus! {

/// The body of a store task: an instance to persist and the missions that
/// follow once it is stored.
#[derive(Debug, Clone)]
pub struct StoreTaskInfo {
    pub instance: Instance,
    /// The mission that produced the instance; none for a root.
    pub upstream: Option<Mission>,
    /// The missions to carry out once the instance is stored.
    pub mission: Vec<Mission>,
    /// Whether the stored instance is kept in the cache.
    pub need_cache: bool,
}

/// The mathematical content of a [`StoreTaskInfo`].
pub struct StoreTaskInfoView {
    pub instance: InstanceView,
    pub upstream: Option<MissionView>,
    pub mission: Seq<MissionView>,
    pub need_cache: bool,
}

impl View for StoreTaskInfo {
    type V = StoreTaskInfoView;

    open spec fn view(&self) -> StoreTaskInfoView {
        StoreTaskInfoView {
            instance: self.instance@,
            upstream: match self.upstream {
                Some(m) => Some(m@),
                None => None,
            },
            mission: self.mission.deep_view(),
            need_cache: self.need_cache,
        }
    }
}

impl DeepView for StoreTaskInfo {
    type V = StoreTaskInfoView;

    open spec fn deep_view(&self) -> StoreTaskInfoView {
        self@
    }
}

impl StoreTaskInfo {
    /// The store task for `instance` with the given missions to follow.
    pub fn new(
        instance: Instance,
        mission: Vec<Mission>,
        upstream: Option<Mission>,
        need_cache: bool,
    ) -> (r: StoreTaskInfo)
        ensures
            r@ == (StoreTaskInfoView {
                instance: instance@,
                upstream: match upstream {
                    Some(m) => Some(m@),
                    None => None,
                },
                mission: mission.deep_view(),
                need_cache,
            }),
    {
        StoreTaskInfo { instance, upstream, mission, need_cache }
    }

    /// The store task for a root `instance` of the meta `meta`: what follows
    /// it are the missions that the planner makes of the relations that
    /// leave its meta.
    pub fn gen_task(instance: &Instance, meta: &Meta, relations: &Vec<Relation>) -> (r:
        StoreTaskInfo)
        ensures
            r@ == (StoreTaskInfoView {
                instance: instance@,
                upstream: None,
                mission: planned_missions(instance@, relations.deep_view()),
                need_cache: meta@.need_cache(),
            }),
    {
        let mission = Mission::get_by_instance(instance, relations);
        StoreTaskInfo::new(instance.duplicate(), mission, None, meta.need_cache())
    }

    /// A copy with the same content.
    pub fn duplicate(&self) -> (r: StoreTaskInfo)
        ensures
            r@ == self@,
    {
        StoreTaskInfo {
            instance: self.instance.duplicate(),
            upstream: match &self.upstream {
                Some(m) => Some(m.duplicate()),
                None => None,
            },
            mission: duplicate_missions(&self.mission),
            need_cache: self.need_cache,
        }
    }
}

/// The instances that one conversion produced for one target meta.
#[derive(Debug, Clone)]
pub struct PlanInfo {
    /// The key of the upstream instance.
    pub from_key: String,
    /// The target meta.
    pub to: Meta,
    /// The instances to store.
    pub plan: Vec<Instance>,
}

/// The mathematical content of a [`PlanInfo`].
pub struct PlanInfoView {
    pub from_key: Seq<char>,
    pub to: MetaView,
    pub plan: Seq<InstanceView>,
}

impl View for PlanInfo {
    type V = PlanInfoView;

    open spec fn view(&self) -> PlanInfoView {
        PlanInfoView { from_key: self.from_key@, to: self.to@, plan: self.plan.deep_view() }
    }
}

/// Instances that are stored one after the other: each only when the one
/// before it is stored.
#[derive(Debug, Clone)]
pub struct SerialBatchInstance {
    /// Handed on to the instance that reports the end of the batch.
    pub context_for_finish: String,
    pub instances: Vec<Instance>,
}

/// Instances that are stored in no particular order.
#[derive(Debug, Clone)]
pub struct ParallelBatchInstance {
    pub instances: Vec<Instance>,
}

} // verus!
