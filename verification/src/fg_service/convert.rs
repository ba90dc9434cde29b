//! The converter dispatch: what goes into a conversion and what becomes of
//! what comes out.

use crate::common::collections::TextSet;
use crate::common::converter::{
    ConverterReturned, ConverterReturnedView, SelfRouteInstance, SelfRouteInstanceView,
};
use crate::common::error::{ErrorKind, NatureError, NatureErrorView};
use crate::common::instance::{Instance, InstanceView};
use crate::common::meta::{Meta, MetaView};
use crate::common::mission::{
    duplicate_missions, LastStatusDemand, LastStatusDemandView, Mission, MissionView,
};
use crate::common::task::{RawTask, RawTaskView};
use crate::db::task_log::{later, time_after};
use crate::task::command::{
    failure_command, Command, CommandView, Converted, ConvertedView, Message, MessageView,
};
use crate::task::draft::{
    build_convert_tasks, build_store_tasks, convert_tasks_built, store_tasks_built, Built, BuiltView, ConvertDraft, Draft,
};
use crate::task::store::StoreTaskInfo;
use vstd::prelude::*;
use vstd::string::*;

verus! {

/// The body of a convert task: the upstream instance, the mission to carry
/// out and the last state of the target.
#[derive(Debug, Clone)]
pub struct ConverterInfo {
    pub from: Instance,
    pub target: Mission,
    pub last_status: Option<Instance>,
}

/// The mathematical content of a [`ConverterInfo`].
pub struct ConverterInfoView {
    pub from: InstanceView,
    pub target: MissionView,
    pub last_status: Option<InstanceView>,
}

impl View for ConverterInfo {
    type V = ConverterInfoView;

    open spec fn view(&self) -> ConverterInfoView {
        ConverterInfoView {
            from: self.from@,
            target: self.target@,
            last_status: match self.last_status {
                Some(i) => Some(i@),
                None => None,
            },
        }
    }
}

impl DeepView for ConverterInfo {
    type V = ConverterInfoView;

    open spec fn deep_view(&self) -> ConverterInfoView {
        self@
    }
}

/// What a converter that answers later is called with.
#[derive(Debug, Clone)]
pub struct CallOutParameter {
    pub from: Instance,
    pub last_status: Option<Instance>,
    /// The id of the task, which the callback names.
    pub carrier_id: String,
}

/// The position of the first text of `wanted` that is not in `have`, or the
/// length of `wanted` where all are.
pub open spec fn first_missing(wanted: Seq<Seq<char>>, have: Set<Seq<char>>, from: int) -> int
    decreases wanted.len() - from,
{
    if from < 0 || from >= wanted.len() || !have.contains(wanted[from]) {
        from
    } else {
        first_missing(wanted, have, from + 1)
    }
}

/// The position of the first text of `unwanted` that is in `have`, or the
/// length of `unwanted` where none is.
pub open spec fn first_present(unwanted: Seq<Seq<char>>, have: Set<Seq<char>>, from: int) -> int
    decreases unwanted.len() - from,
{
    if from < 0 || from >= unwanted.len() || have.contains(unwanted[from]) {
        from
    } else {
        first_present(unwanted, have, from + 1)
    }
}

/// What holding the states `last` against the demand gives: the first state
/// that should be there and is not, else the first state that should not be
/// there and is, else nothing.
pub open spec fn last_demand_failure(last: Set<Seq<char>>, demand: LastStatusDemandView) -> Option<
    NatureErrorView,
> {
    let missing = first_missing(demand.target_status_include, last, 0);
    let present = first_present(demand.target_status_exclude, last, 0);
    if missing < demand.target_status_include.len() {
        Some(
            NatureErrorView {
                kind: ErrorKind::NotIncludeStatus,
                message: demand.target_status_include[missing],
            },
        )
    } else if present < demand.target_status_exclude.len() {
        Some(
            NatureErrorView {
                kind: ErrorKind::ContainsExcludeStatus,
                message: demand.target_status_exclude[present],
            },
        )
    } else {
        None
    }
}

/// Why a conversion for `mapping` may not run given the last state of its
/// target, if anything stands against it.
pub open spec fn last_state_failure(
    mapping: MissionView,
    last_target: Option<InstanceView>,
) -> Option<NatureErrorView> {
    match (last_target, mapping.last_status_demand) {
        (Some(last), Some(demand)) => last_demand_failure(last.states, demand),
        _ => None,
    }
}

impl ConverterInfo {
    /// Holds the states `last` of the last state of a target against what
    /// the relation demands of it: every state of `target_status_include`
    /// must be there, no state of `target_status_exclude` may be. The first
    /// state that breaks the demand is named in the error.
    pub fn check_last(last: &TextSet, demand: &LastStatusDemand) -> (r: Result<(), NatureError>)
        ensures
            match r {
                Ok(_) => last_demand_failure(last@, demand@) is None,
                Err(e) => last_demand_failure(last@, demand@) == Some(e@),
            },
    {
        let ghost wanted = demand@.target_status_include;
        let ghost unwanted = demand@.target_status_exclude;
        let mut i: usize = 0;
        while i < demand.target_status_include.len()
            invariant
                i <= demand.target_status_include.len(),
                wanted == demand@.target_status_include,
                first_missing(wanted, last@, 0) == first_missing(wanted, last@, i as int),
            decreases demand.target_status_include.len() - i,
        {
            if !last.contains(demand.target_status_include[i].as_str()) {
                return Err(
                    NatureError::TargetInstanceNotIncludeStatus(
                        demand.target_status_include[i].clone(),
                    ),
                );
            }
            i += 1;
        }
        let mut j: usize = 0;
        while j < demand.target_status_exclude.len()
            invariant
                j <= demand.target_status_exclude.len(),
                wanted == demand@.target_status_include,
                unwanted == demand@.target_status_exclude,
                first_missing(wanted, last@, 0) == wanted.len(),
                first_present(unwanted, last@, 0) == first_present(unwanted, last@, j as int),
            decreases demand.target_status_exclude.len() - j,
        {
            if last.contains(demand.target_status_exclude[j].as_str()) {
                return Err(
                    NatureError::TargetInstanceContainsExcludeStatus(
                        demand.target_status_exclude[j].clone(),
                    ),
                );
            }
            j += 1;
        }
        Ok(())
    }

    /// The body of the convert task that carries out `mapping` for the
    /// upstream `instance`, given the last state `last_target` of the target.
    /// Refused where the states of the last state break what the relation
    /// demands of them.
    pub fn new(instance: &Instance, mapping: &Mission, last_target: Option<Instance>) -> (r:
        Result<ConverterInfo, NatureError>)
        ensures
            match r {
                Ok(info) => {
                    &&& last_state_failure(
                        mapping@,
                        match last_target {
                            Some(i) => Some(i@),
                            None => None,
                        },
                    ) is None
                    &&& info@ == (ConverterInfoView {
                        from: instance@,
                        target: mapping@,
                        last_status: match last_target {
                            Some(i) => Some(i@),
                            None => None,
                        },
                    })
                },
                Err(e) => last_state_failure(
                    mapping@,
                    match last_target {
                        Some(i) => Some(i@),
                        None => None,
                    },
                ) == Some(e@),
            },
    {
        if let Some(last) = &last_target {
            if let Some(demand) = &mapping.last_status_demand {
                match ConverterInfo::check_last(&last.states, demand) {
                    Err(e) => {
                        return Err(e);
                    },
                    Ok(_) => {},
                }
            }
        }
        Ok(
            ConverterInfo {
                from: instance.duplicate(),
                target: mapping.duplicate(),
                last_status: last_target,
            },
        )
    }

    /// A copy with the same content.
    pub fn duplicate(&self) -> (r: ConverterInfo)
        ensures
            r@ == self@,
    {
        ConverterInfo {
            from: self.from.duplicate(),
            target: self.target.duplicate(),
            last_status: match &self.last_status {
                Some(i) => Some(i.duplicate()),
                None => None,
            },
        }
    }
}

impl CallOutParameter {
    /// What the converter of the convert task `task` with the body
    /// `internal` is called with.
    pub fn new(internal: &ConverterInfo, task: &RawTask) -> (r: CallOutParameter)
        ensures
            r.from@ == internal@.from,
            match r.last_status {
                Some(i) => internal@.last_status == Some(i@),
                None => internal@.last_status is None,
            },
            r.carrier_id@ == task@.task_id,
    {
        CallOutParameter {
            from: internal.from.duplicate(),
            last_status: match &internal.last_status {
                Some(i) => Some(i.duplicate()),
                None => None,
            },
            carrier_id: task.task_id.clone(),
        }
    }
}

/// The text of the error that more than one instance for a stateful target
/// gives.
pub open spec fn too_many_states() -> Seq<char> {
    "a stateful target must return less than 2 instances"@
}

/// The text of the error that a version beyond the largest one gives.
pub open spec fn version_exhausted() -> Seq<char> {
    "the state version can not grow any further"@
}

/// A converted instance of a target without state, made ready for storage:
/// it is of the target meta, whatever the converter said, and it names the
/// upstream instance as where it came from.
pub open spec fn settled(to: MetaView, upstream: InstanceView, ins: InstanceView) -> InstanceView {
    InstanceView { meta: to.key, from_key: upstream.key(), ..ins }
}

/// The version that follows the last state: zero where there is none, else
/// one more than its version; nothing where that would not fit.
pub open spec fn next_version(last: Option<InstanceView>) -> Option<i32> {
    match last {
        None => Some(0),
        Some(l) => if l.state_version < i32::MAX {
            Some((l.state_version + 1) as i32)
        } else {
            None
        },
    }
}

/// A converted instance of a stateful target, made ready for storage as the
/// given version: settled as any other, and with the id and the `para` of
/// the last state where the converter left them unset.
pub open spec fn settled_state(
    to: MetaView,
    upstream: InstanceView,
    last: Option<InstanceView>,
    version: i32,
    ins: InstanceView,
) -> InstanceView {
    InstanceView {
        meta: to.key,
        from_key: upstream.key(),
        state_version: version,
        id: match last {
            Some(l) => if ins.id == 0 {
                l.id
            } else {
                ins.id
            },
            None => ins.id,
        },
        para: match last {
            Some(l) => if ins.para.len() == 0 {
                l.para
            } else {
                ins.para
            },
            None => ins.para,
        },
        ..ins
    }
}

/// What verifying the converted `instances` for the target `to` gives: for a
/// stateful target at most one instance, as the next version; for any other
/// target every instance, settled.
pub open spec fn verified(
    to: MetaView,
    upstream: InstanceView,
    last: Option<InstanceView>,
    instances: Seq<InstanceView>,
) -> Result<Seq<InstanceView>, NatureErrorView> {
    if to.is_state() {
        if instances.len() > 1 {
            Err(NatureErrorView { kind: ErrorKind::Logical, message: too_many_states() })
        } else if instances.len() == 1 {
            match next_version(last) {
                Some(v) => Ok(seq![settled_state(to, upstream, last, v, instances[0])]),
                None => Err(
                    NatureErrorView { kind: ErrorKind::Logical, message: version_exhausted() },
                ),
            }
        } else {
            Ok(Seq::empty())
        }
    } else {
        Ok(Seq::new(instances.len(), |i: int| settled(to, upstream, instances[i])))
    }
}

/// Makes the instances that a converter returned ready for storage and
/// enforces the rules of the target: every instance becomes one of the
/// target meta `to` and names `upstream` as where it came from; a stateful
/// target takes at most one instance, which becomes the version after
/// `last_state` and inherits its id and `para` where it has none of its own.
pub fn verify(
    to: &Meta,
    upstream: &Instance,
    last_state: &Option<Instance>,
    instances: &Vec<Instance>,
) -> (r: Result<Vec<Instance>, NatureError>)
    ensures
        match r {
            Ok(v) => verified(
                to@,
                upstream@,
                match last_state {
                    Some(i) => Some(i@),
                    None => None,
                },
                instances.deep_view(),
            ) == Ok::<Seq<InstanceView>, NatureErrorView>(v.deep_view()),
            Err(e) => verified(
                to@,
                upstream@,
                match last_state {
                    Some(i) => Some(i@),
                    None => None,
                },
                instances.deep_view(),
            ) == Err::<Seq<InstanceView>, NatureErrorView>(e@),
        },
{
    let mut rtn: Vec<Instance> = Vec::new();
    let from_key = upstream.get_key();
    if to.is_state() {
        if instances.len() > 1 {
            return Err(
                NatureError::LogicalError(
                    "a stateful target must return less than 2 instances".to_owned(),
                ),
            );
        }
        if instances.len() == 1 {
            let mut ins = instances[0].duplicate();
            match last_state {
                Some(last) => {
                    if last.state_version == i32::MAX {
                        return Err(
                            NatureError::LogicalError(
                                "the state version can not grow any further".to_owned(),
                            ),
                        );
                    }
                    ins.state_version = last.state_version + 1;
                    if ins.id == 0 {
                        ins.id = last.id;
                    }
                    if ins.para.as_str().is_empty() {
                        ins.para = last.para.clone();
                    }
                },
                None => {
                    ins.state_version = 0;
                },
            }
            ins.meta = to.meta_string();
            ins.from_key = from_key;
            rtn.push(ins);
            assert(rtn.deep_view() =~= seq![ins@]);
        } else {
            assert(rtn.deep_view() =~= Seq::<InstanceView>::empty());
        }
        return Ok(rtn);
    }
    let mut i: usize = 0;
    while i < instances.len()
        invariant
            i <= instances.len(),
            from_key@ == upstream@.key(),
            rtn.deep_view() == Seq::new(
                i as nat,
                |k: int| settled(to@, upstream@, instances.deep_view()[k]),
            ),
        decreases instances.len() - i,
    {
        let mut instance = instances[i].duplicate();
        instance.meta = to.meta_string();
        instance.from_key = from_key.clone();
        let ghost before = rtn.deep_view();
        rtn.push(instance);
        assert(rtn.deep_view() =~= before.push(instance@));
        assert(rtn.deep_view() =~= Seq::new(
            (i + 1) as nat,
            |k: int| settled(to@, upstream@, instances.deep_view()[k]),
        ));
        i += 1;
    }
    Ok(rtn)
}

/// What a converter that answered later called back with.
#[derive(Debug, Clone)]
pub enum CallbackResult {
    /// The converter refused the input.
    Failure(String),
    /// The downstream instances.
    Instances(Vec<Instance>),
}

/// The callback of a converter that answered later.
#[derive(Debug, Clone)]
pub struct DelayedInstances {
    /// The id of the convert task that the callback answers.
    pub carrier_id: String,
    pub result: CallbackResult,
}

/// What becomes of the instances that a conversion returned: made ready for
/// storage they go on to be stored; where they break the rules of the
/// target, the task ends in failure.
pub open spec fn instances_handled(
    info: ConverterInfoView,
    task: RawTaskView,
    instances: Seq<InstanceView>,
    self_route: Option<Seq<Seq<MissionView>>>,
) -> CommandView {
    match verified(info.target.to, info.from, info.last_status, instances) {
        Ok(v) => CommandView::Forward(
            MessageView::Converted(
                info,
                ConvertedView { done_task: task, converted: v, self_route },
            ),
        ),
        Err(e) => CommandView::ToError { error: e, task },
    }
}

/// The instances of a self-routing answer, in order.
pub open spec fn routed_instances(list: Seq<SelfRouteInstanceView>) -> Seq<InstanceView> {
    Seq::new(list.len(), |i: int| list[i].instance)
}

/// The missions of a self-routing answer, instance by instance.
pub open spec fn routed_missions(list: Seq<SelfRouteInstanceView>) -> Seq<Seq<MissionView>> {
    Seq::new(list.len(), |i: int| list[i].converter)
}

/// What the runtime is to do with the convert task `task` at the time `now`
/// after its converter returned: instances are made ready and go on to be
/// stored; a delay makes the task due that many seconds from now, without
/// counting as a try; a logical error ends the task in failure; an
/// environment error leaves it in the log for its next try.
pub open spec fn convert_command(
    info: ConverterInfoView,
    task: RawTaskView,
    returned: ConverterReturnedView,
    now: i64,
) -> CommandView {
    match returned {
        ConverterReturnedView::Instances(list) => instances_handled(info, task, list, None),
        ConverterReturnedView::SelfRoute(list) => instances_handled(
            info,
            task,
            routed_instances(list),
            Some(routed_missions(list)),
        ),
        ConverterReturnedView::Delay(seconds) => CommandView::Delay {
            task_id: task.task_id,
            execute_time: later(now, seconds),
        },
        ConverterReturnedView::LogicalError(msg) => CommandView::ToError {
            error: NatureErrorView { kind: ErrorKind::Logical, message: msg },
            task,
        },
        ConverterReturnedView::EnvError(_) => CommandView::Retry { task_id: task.task_id, now },
    }
}

/// What the runtime is to do after the callback `result` for the convert
/// task `task` arrived: an error ends the task in failure; instances are
/// handled as if the converter had returned them at once.
pub open spec fn callback_command(
    info: ConverterInfoView,
    task: RawTaskView,
    result: CallbackResult,
) -> CommandView {
    match result {
        CallbackResult::Failure(msg) => CommandView::ToError {
            error: NatureErrorView { kind: ErrorKind::Logical, message: msg@ },
            task,
        },
        CallbackResult::Instances(list) => instances_handled(info, task, list.deep_view(), None),
    }
}

/// The decisions of the convert stage.
pub trait ConvertServiceTrait {
    /// Decides what follows the callback `delayed` of a converter that
    /// answered later, given the convert task that it names as the log
    /// holds it. Where the task could not be loaded, the reason is handed
    /// back.
    fn submit_callback(
        delayed: DelayedInstances,
        carrier: Result<(ConverterInfo, RawTask), NatureError>,
    ) -> (r: Result<Command, NatureError>)
        ensures
            match r {
                Ok(c) => carrier matches Ok(pair) && c@ == callback_command(
                    pair.0@,
                    pair.1@,
                    delayed.result,
                ),
                Err(e) => carrier matches Err(x) && e@ == x@,
            },
    ;

    /// Decides what follows for the convert task `carrier` at the time `now`
    /// after its converter returned `returned`.
    fn do_convert_task(carrier: (ConverterInfo, RawTask), returned: ConverterReturned, now: i64) -> (r:
        Command)
        ensures
            r@ == convert_command(carrier.0@, carrier.1@, returned@, now),
    ;
}

/// The convert stage.
#[derive(Debug, Clone, Copy)]
pub struct ConvertServiceImpl;

/// Parts a self-routing answer into its instances and their missions.
fn part_routes(list: &Vec<SelfRouteInstance>) -> (r: (Vec<Instance>, Vec<Vec<Mission>>))
    ensures
        r.0.deep_view() == routed_instances(list.deep_view()),
        r.1.deep_view() == routed_missions(list.deep_view()),
{
    let mut instances: Vec<Instance> = Vec::new();
    let mut missions: Vec<Vec<Mission>> = Vec::new();
    let mut i: usize = 0;
    while i < list.len()
        invariant
            i <= list.len(),
            instances.deep_view() == routed_instances(list.deep_view().take(i as int)),
            missions.deep_view() == routed_missions(list.deep_view().take(i as int)),
        decreases list.len() - i,
    {
        let ghost i0 = instances.deep_view();
        let ghost m0 = missions.deep_view();
        let one = list[i].instance.duplicate();
        let its = duplicate_missions(&list[i].converter);
        instances.push(one);
        missions.push(its);
        assert(instances.deep_view() =~= i0.push(one@));
        assert(missions.deep_view() =~= m0.push(its.deep_view()));
        assert(instances.deep_view() =~= routed_instances(list.deep_view().take(i + 1)));
        assert(missions.deep_view() =~= routed_missions(list.deep_view().take(i + 1)));
        i += 1;
    }
    assert(list.deep_view().take(list.len() as int) =~= list.deep_view());
    (instances, missions)
}

impl ConvertServiceImpl {
    /// Makes the instances that the conversion `carrier` returned ready for
    /// storage, or says which rule of the target they break.
    pub fn handle_instances(
        carrier: (ConverterInfo, RawTask),
        instances: &Vec<Instance>,
        self_route: Option<Vec<Vec<Mission>>>,
    ) -> (r: Command)
        ensures
            r@ == instances_handled(
                carrier.0@,
                carrier.1@,
                instances.deep_view(),
                match self_route {
                    Some(routes) => Some(routes.deep_view()),
                    None => None,
                },
            ),
    {
        let (info, task) = carrier;
        match verify(&info.target.to, &info.from, &info.last_status, instances) {
            Ok(converted) => Command::Forward(
                Message::Converted(info, Converted { done_task: task, converted, self_route }),
            ),
            Err(error) => Command::ToError { error, task },
        }
    }

    /// Decides at the time `now` how the store tasks `drafts`, made of the
    /// instances of one conversion, reach the log once the convert task
    /// `carrier` is done: all of them in one batch that finishes the carrier,
    /// and then on to the store stage. If one of them could not be made or
    /// written, nothing is saved: the carrier stays in the log for its next
    /// try where a collaborator was unreachable, and ends in failure
    /// otherwise.
    pub fn do_store(carrier: &RawTask, key: &str, drafts: Vec<Draft>, now: i64) -> (r: Command)
        ensures
            r@ == (match store_tasks_built(drafts.deep_view(), Some(key@), now) {
                BuiltView::Tasks(batch, send) => CommandView::SaveAndSend {
                    batch,
                    parent_id: carrier@.task_id,
                    send,
                },
                BuiltView::Stopped(e) => failure_command(e, carrier@, now),
                BuiltView::Unwritable(e) => failure_command(e, carrier@, now),
            }),
    {
        match build_store_tasks(drafts, Some(key), now) {
            Built::Tasks(batch, send) => Command::SaveAndSend {
                batch,
                parent_id: carrier.task_id.clone(),
                send,
            },
            Built::Stopped(e) => Command::for_failure(e, carrier.duplicate(), now),
            Built::Unwritable(e) => Command::for_failure(e, carrier.duplicate(), now),
        }
    }

    /// Makes the convert tasks that follow the stored instance of `task`:
    /// one per mission. A stored instance without missions is signalled as
    /// `Break`; otherwise the first draft that failed or could not be written
    /// gives the error.
    pub fn generate(task: &StoreTaskInfo, drafts: Vec<ConvertDraft>, now: i64) -> (r: Result<
        (Vec<RawTask>, Vec<Message>),
        NatureError,
    >)
        ensures
            match r {
                Ok(pair) => task@.mission.len() > 0 && convert_tasks_built(drafts.deep_view(), now)
                    == BuiltView::Tasks(pair.0.deep_view(), pair.1.deep_view()),
                Err(e) => if task@.mission.len() == 0 {
                    e@.kind == ErrorKind::Break
                } else {
                    convert_tasks_built(drafts.deep_view(), now) == BuiltView::Stopped(e@)
                        || convert_tasks_built(drafts.deep_view(), now) == BuiltView::Unwritable(e@)
                },
            },
    {
        if task.mission.len() == 0 {
            return Err(NatureError::Break);
        }
        match build_convert_tasks(drafts, now) {
            Built::Tasks(raws, messages) => Ok((raws, messages)),
            Built::Stopped(e) => Err(e),
            Built::Unwritable(e) => Err(e),
        }
    }
}

impl ConvertServiceTrait for ConvertServiceImpl {
    fn submit_callback(
        delayed: DelayedInstances,
        carrier: Result<(ConverterInfo, RawTask), NatureError>,
    ) -> (r: Result<Command, NatureError>) {
        let carrier = match carrier {
            Ok(pair) => pair,
            Err(e) => {
                return Err(e);
            },
        };
        match delayed.result {
            CallbackResult::Failure(err) => Ok(
                Command::ToError { error: NatureError::LogicalError(err), task: carrier.1 },
            ),
            CallbackResult::Instances(ins) => Ok(
                ConvertServiceImpl::handle_instances(carrier, &ins, None),
            ),
        }
    }

    fn do_convert_task(carrier: (ConverterInfo, RawTask), returned: ConverterReturned, now: i64) -> (r:
        Command) {
        match returned {
            ConverterReturned::Instances(instances) => ConvertServiceImpl::handle_instances(
                carrier,
                &instances,
                None,
            ),
            ConverterReturned::SelfRoute(list) => {
                let (instances, missions) = part_routes(&list);
                ConvertServiceImpl::handle_instances(carrier, &instances, Some(missions))
            },
            ConverterReturned::Delay(delay) => Command::Delay {
                task_id: carrier.1.task_id.clone(),
                execute_time: time_after(now, delay),
            },
            ConverterReturned::LogicalError(msg) => Command::ToError {
                error: NatureError::LogicalError(msg),
                task: carrier.1,
            },
            ConverterReturned::EnvError(_) => Command::Retry {
                task_id: carrier.1.task_id.clone(),
                now,
            },
        }
    }
}

} // verus!
