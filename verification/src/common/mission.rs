//! Relations between metas, and missions: relations made concrete for one
//! upstream instance.

use crate::common::collections::TextMap;
use crate::common::meta::{Meta, MetaView};
use crate::text::{copy_bytes, copy_texts};
use vstd::prelude::*;
use vstd::string::*;

verus! {

/// How a converter is reached.
#[derive(Debug, Clone, Copy, PartialEq, Eq, Structural)]
pub enum Protocol {
    LocalRust,
    Http,
    BuiltIn,
}

/// The converter of a relation.
#[derive(Debug, Clone)]
pub struct Executor {
    pub protocol: Protocol,
    pub url: String,
    /// The settings handed to the converter, as it wrote them.
    pub settings: String,
}

/// The mathematical content of an [`Executor`].
pub struct ExecutorView {
    pub protocol: Protocol,
    pub url: Seq<char>,
    pub settings: Seq<char>,
}

impl View for Executor {
    type V = ExecutorView;

    open spec fn view(&self) -> ExecutorView {
        ExecutorView { protocol: self.protocol, url: self.url@, settings: self.settings@ }
    }
}

impl Executor {
    /// A copy with the same content.
    pub fn duplicate(&self) -> (r: Executor)
        ensures
            r@ == self@,
    {
        Executor {
            protocol: self.protocol,
            url: self.url.clone(),
            settings: self.settings.clone(),
        }
    }
}

/// What a relation demands of the instance it produces.
#[derive(Debug, Clone)]
pub struct TargetDemand {
    /// The dimensions of the upstream `para` that make up the `para` of the
    /// target.
    pub append_para: Vec<u8>,
    /// States that the produced instance must carry.
    pub state_include: Vec<String>,
    /// States that the produced instance must not carry.
    pub state_exclude: Vec<String>,
}

/// The mathematical content of a [`TargetDemand`].
pub struct TargetDemandView {
    pub append_para: Seq<u8>,
    pub state_include: Seq<Seq<char>>,
    pub state_exclude: Seq<Seq<char>>,
}

impl View for TargetDemand {
    type V = TargetDemandView;

    open spec fn view(&self) -> TargetDemandView {
        TargetDemandView {
            append_para: self.append_para@,
            state_include: self.state_include.deep_view(),
            state_exclude: self.state_exclude.deep_view(),
        }
    }
}

impl TargetDemand {
    /// A copy with the same content.
    pub fn duplicate(&self) -> (r: TargetDemand)
        ensures
            r@ == self@,
    {
        TargetDemand {
            append_para: copy_bytes(&self.append_para),
            state_include: copy_texts(&self.state_include),
            state_exclude: copy_texts(&self.state_exclude),
        }
    }
}

/// What a relation demands of the last state of its target before it may
/// run.
#[derive(Debug, Clone)]
pub struct LastStatusDemand {
    /// States that the last state must carry.
    pub target_status_include: Vec<String>,
    /// States that the last state must not carry.
    pub target_status_exclude: Vec<String>,
}

/// The mathematical content of a [`LastStatusDemand`].
pub struct LastStatusDemandView {
    pub target_status_include: Seq<Seq<char>>,
    pub target_status_exclude: Seq<Seq<char>>,
}

impl View for LastStatusDemand {
    type V = LastStatusDemandView;

    open spec fn view(&self) -> LastStatusDemandView {
        LastStatusDemandView {
            target_status_include: self.target_status_include.deep_view(),
            target_status_exclude: self.target_status_exclude.deep_view(),
        }
    }
}

impl LastStatusDemand {
    /// A copy with the same content.
    pub fn duplicate(&self) -> (r: LastStatusDemand)
        ensures
            r@ == self@,
    {
        LastStatusDemand {
            target_status_include: copy_texts(&self.target_status_include),
            target_status_exclude: copy_texts(&self.target_status_exclude),
        }
    }
}

/// A relation made concrete for one upstream instance. Made by the planner,
/// used up by the converter dispatch.
#[derive(Debug, Clone)]
pub struct Mission {
    /// The meta of what the mission produces.
    pub to: Meta,
    /// The converter, where the relation names one.
    pub executor: Option<Executor>,
    /// The produced instance takes the id of the upstream instance.
    pub use_upstream_id: bool,
    pub target_demand: TargetDemand,
    /// Starts as a copy of the upstream instance's entries.
    pub sys_context: TextMap,
    pub last_status_demand: Option<LastStatusDemand>,
}

/// The mathematical content of a [`Mission`].
pub struct MissionView {
    pub to: MetaView,
    pub executor: Option<ExecutorView>,
    pub use_upstream_id: bool,
    pub target_demand: TargetDemandView,
    pub sys_context: Map<Seq<char>, Seq<char>>,
    pub last_status_demand: Option<LastStatusDemandView>,
}

impl View for Mission {
    type V = MissionView;

    open spec fn view(&self) -> MissionView {
        MissionView {
            to: self.to@,
            executor: match self.executor {
                Some(e) => Some(e@),
                None => None,
            },
            use_upstream_id: self.use_upstream_id,
            target_demand: self.target_demand@,
            sys_context: self.sys_context@,
            last_status_demand: match self.last_status_demand {
                Some(d) => Some(d@),
                None => None,
            },
        }
    }
}

impl DeepView for Mission {
    type V = MissionView;

    open spec fn deep_view(&self) -> MissionView {
        self@
    }
}

impl Mission {
    /// A copy with the same content.
    pub fn duplicate(&self) -> (r: Mission)
        ensures
            r@ == self@,
    {
        Mission {
            to: self.to.duplicate(),
            executor: match &self.executor {
                Some(e) => Some(e.duplicate()),
                None => None,
            },
            use_upstream_id: self.use_upstream_id,
            target_demand: self.target_demand.duplicate(),
            sys_context: self.sys_context.duplicate(),
            last_status_demand: match &self.last_status_demand {
                Some(d) => Some(d.duplicate()),
                None => None,
            },
        }
    }
}

/// A copy of `list` with the same content.
pub fn duplicate_missions(list: &Vec<Mission>) -> (r: Vec<Mission>)
    ensures
        r.deep_view() == list.deep_view(),
{
    let mut r: Vec<Mission> = Vec::new();
    let mut i: usize = 0;
    while i < list.len()
        invariant
            i <= list.len(),
            r.deep_view() == list.deep_view().take(i as int),
        decreases list.len() - i,
    {
        let ghost before = r.deep_view();
        r.push(list[i].duplicate());
        assert(r.deep_view() =~= before.push(list.deep_view()[i as int]));
        assert(list.deep_view().take(i + 1) =~= list.deep_view().take(i as int).push(
            list.deep_view()[i as int],
        ));
        i += 1;
    }
    assert(list.deep_view().take(list.len() as int) =~= list.deep_view());
    r
}

/// The conditions under which a relation applies to an upstream instance.
/// The state lists are held against the states of the instance, the context
/// lists against the keys of its context.
#[derive(Debug, Clone)]
pub struct FlowSelector {
    /// Every one of these must be a state of the instance.
    pub state_all: Vec<String>,
    /// One of these must be a state of the instance, unless the list is
    /// empty.
    pub state_any: Vec<String>,
    /// None of these may be a state of the instance.
    pub state_none: Vec<String>,
    /// Every one of these must be a key of the context.
    pub context_all: Vec<String>,
    /// One of these must be a key of the context, unless the list is empty.
    pub context_any: Vec<String>,
    /// None of these may be a key of the context.
    pub context_none: Vec<String>,
}

/// The mathematical content of a [`FlowSelector`].
pub struct FlowSelectorView {
    pub state_all: Seq<Seq<char>>,
    pub state_any: Seq<Seq<char>>,
    pub state_none: Seq<Seq<char>>,
    pub context_all: Seq<Seq<char>>,
    pub context_any: Seq<Seq<char>>,
    pub context_none: Seq<Seq<char>>,
}

impl View for FlowSelector {
    type V = FlowSelectorView;

    open spec fn view(&self) -> FlowSelectorView {
        FlowSelectorView {
            state_all: self.state_all.deep_view(),
            state_any: self.state_any.deep_view(),
            state_none: self.state_none.deep_view(),
            context_all: self.context_all.deep_view(),
            context_any: self.context_any.deep_view(),
            context_none: self.context_none.deep_view(),
        }
    }
}

/// A directed edge from one meta to another, with the description of the
/// flow along it.
#[derive(Debug, Clone)]
pub struct Relation {
    /// The key of the upstream meta.
    pub from: String,
    /// The downstream meta.
    pub to: Meta,
    pub selector: Option<FlowSelector>,
    pub executor: Option<Executor>,
    pub use_upstream_id: bool,
    pub target_demand: TargetDemand,
    pub last_status_demand: Option<LastStatusDemand>,
}

/// The mathematical content of a [`Relation`].
pub struct RelationView {
    pub from: Seq<char>,
    pub to: MetaView,
    pub selector: Option<FlowSelectorView>,
    pub executor: Option<ExecutorView>,
    pub use_upstream_id: bool,
    pub target_demand: TargetDemandView,
    pub last_status_demand: Option<LastStatusDemandView>,
}

impl View for Relation {
    type V = RelationView;

    open spec fn view(&self) -> RelationView {
        RelationView {
            from: self.from@,
            to: self.to@,
            selector: match self.selector {
                Some(s) => Some(s@),
                None => None,
            },
            executor: match self.executor {
                Some(e) => Some(e@),
                None => None,
            },
            use_upstream_id: self.use_upstream_id,
            target_demand: self.target_demand@,
            last_status_demand: match self.last_status_demand {
                Some(d) => Some(d@),
                None => None,
            },
        }
    }
}

impl FlowSelector {
    /// A copy with the same content.
    pub fn duplicate(&self) -> (r: FlowSelector)
        ensures
            r@ == self@,
    {
        FlowSelector {
            state_all: copy_texts(&self.state_all),
            state_any: copy_texts(&self.state_any),
            state_none: copy_texts(&self.state_none),
            context_all: copy_texts(&self.context_all),
            context_any: copy_texts(&self.context_any),
            context_none: copy_texts(&self.context_none),
        }
    }
}

impl Relation {
    /// A copy with the same content.
    pub fn duplicate(&self) -> (r: Relation)
        ensures
            r@ == self@,
    {
        Relation {
            from: self.from.clone(),
            to: self.to.duplicate(),
            selector: match &self.selector {
                Some(s) => Some(s.duplicate()),
                None => None,
            },
            executor: match &self.executor {
                Some(e) => Some(e.duplicate()),
                None => None,
            },
            use_upstream_id: self.use_upstream_id,
            target_demand: self.target_demand.duplicate(),
            last_status_demand: match &self.last_status_demand {
                Some(d) => Some(d.duplicate()),
                None => None,
            },
        }
    }
}

/// A copy of `list` with the same content.
pub fn duplicate_relations(list: &Vec<Relation>) -> (r: Vec<Relation>)
    ensures
        r.deep_view() == list.deep_view(),
{
    let mut r: Vec<Relation> = Vec::new();
    let mut i: usize = 0;
    while i < list.len()
        invariant
            i <= list.len(),
            r.deep_view() == list.deep_view().take(i as int),
        decreases list.len() - i,
    {
        let ghost before = r.deep_view();
        r.push(list[i].duplicate());
        assert(r.deep_view() =~= before.push(list.deep_view()[i as int]));
        assert(list.deep_view().take(i + 1) =~= list.deep_view().take(i as int).push(
            list.deep_view()[i as int],
        ));
        i += 1;
    }
    assert(list.deep_view().take(list.len() as int) =~= list.deep_view());
    r
}

impl DeepView for Relation {
    type V = RelationView;

    open spec fn deep_view(&self) -> RelationView {
        self@
    }
}

} // verus!
