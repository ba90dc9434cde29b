//! What a converter is given and what it gives back.

use crate::common::instance::{Instance, InstanceView};
use crate::common::mission::{duplicate_missions, Mission, MissionView};
use crate::common::task::RawTask;
use crate::fg_service::convert::ConverterInfo;
use vstd::prelude::*;
use vstd::string::*;

verus! {

/// What a converter is called with.
#[derive(Debug, Clone)]
pub struct ConverterParameter {
    /// The upstream instance.
    pub from: Instance,
    /// The last state of the target, where the target bears state and has
    /// one.
    pub last_state: Option<Instance>,
    /// The task on whose behalf the converter runs; a converter that answers
    /// later names it in its callback.
    pub task_id: String,
    /// The master instance of the upstream, where there is one.
    pub master: Option<Instance>,
    /// The settings of the executor, as the relation wrote them.
    pub cfg: String,
}

impl ConverterParameter {
    /// What the converter of the convert task `task` with the body `info` is
    /// called with: the upstream instance, the last state of the target, the
    /// id of the task, the master instance and the settings of the executor,
    /// empty where the mission names none.
    pub fn new(info: &ConverterInfo, task: &RawTask, master: Option<Instance>) -> (r:
        ConverterParameter)
        ensures
            r.from@ == info@.from,
            match r.last_state {
                Some(i) => info@.last_status == Some(i@),
                None => info@.last_status is None,
            },
            r.task_id@ == task@.task_id,
            match (r.master, master) {
                (Some(a), Some(b)) => a@ == b@,
                (None, None) => true,
                _ => false,
            },
            r.cfg@ == (match info@.target.executor {
                Some(e) => e.settings,
                None => Seq::empty(),
            }),
    {
        ConverterParameter {
            from: info.from.duplicate(),
            last_state: match &info.last_status {
                Some(i) => Some(i.duplicate()),
                None => None,
            },
            task_id: task.task_id.clone(),
            master,
            cfg: match &info.target.executor {
                Some(e) => e.settings.clone(),
                None => String::new(),
            },
        }
    }
}

/// An instance together with the missions that follow it, bypassing the
/// planner on the next hop.
#[derive(Debug, Clone)]
pub struct SelfRouteInstance {
    pub instance: Instance,
    pub converter: Vec<Mission>,
}

/// The mathematical content of a [`SelfRouteInstance`].
pub struct SelfRouteInstanceView {
    pub instance: InstanceView,
    pub converter: Seq<MissionView>,
}

impl View for SelfRouteInstance {
    type V = SelfRouteInstanceView;

    open spec fn view(&self) -> SelfRouteInstanceView {
        SelfRouteInstanceView {
            instance: self.instance@,
            converter: self.converter.deep_view(),
        }
    }
}

impl DeepView for SelfRouteInstance {
    type V = SelfRouteInstanceView;

    open spec fn deep_view(&self) -> SelfRouteInstanceView {
        self@
    }
}

impl SelfRouteInstance {
    /// A copy with the same content.
    pub fn duplicate(&self) -> (r: SelfRouteInstance)
        ensures
            r@ == self@,
    {
        SelfRouteInstance {
            instance: self.instance.duplicate(),
            converter: duplicate_missions(&self.converter),
        }
    }
}

/// What a converter gives back.
#[derive(Debug, Clone)]
pub enum ConverterReturned {
    /// The input can never be converted.
    LogicalError(String),
    /// The converter could not be reached or could not reach what it needs.
    EnvError(String),
    /// The result comes later, within this many seconds.
    Delay(u32),
    /// The downstream instances.
    Instances(Vec<Instance>),
    /// Downstream instances that carry their own missions.
    SelfRoute(Vec<SelfRouteInstance>),
}

/// The mathematical content of a [`ConverterReturned`].
pub enum ConverterReturnedView {
    LogicalError(Seq<char>),
    EnvError(Seq<char>),
    Delay(u32),
    Instances(Seq<InstanceView>),
    SelfRoute(Seq<SelfRouteInstanceView>),
}

impl View for ConverterReturned {
    type V = ConverterReturnedView;

    open spec fn view(&self) -> ConverterReturnedView {
        match self {
            ConverterReturned::LogicalError(m) => ConverterReturnedView::LogicalError(m@),
            ConverterReturned::EnvError(m) => ConverterReturnedView::EnvError(m@),
            ConverterReturned::Delay(s) => ConverterReturnedView::Delay(*s),
            ConverterReturned::Instances(list) => ConverterReturnedView::Instances(
                list.deep_view(),
            ),
            ConverterReturned::SelfRoute(list) => ConverterReturnedView::SelfRoute(
                list.deep_view(),
            ),
        }
    }
}

} // verus!
