//! The consumers of the channels: for each stage, what follows from a task
//! and from what the outside world answered.

use crate::common::converter::ConverterReturned;
use crate::common::error::{ErrorKind, NatureError, NatureErrorView};
use crate::common::instance::InstanceView;
use crate::common::task::{RawTask, RawTaskView};
use crate::fg_service::convert::{
    convert_command, ConvertServiceImpl, ConvertServiceTrait, ConverterInfo,
};
use crate::task::command::{
    failure_command, Command, CommandView, Converted, Message, MessageView,
};
use crate::task::draft::{
    build_store_tasks, convert_tasks_built, store_tasks_built, Built, BuiltView, ConvertDraft, ConvertDraftView, Draft, DraftView,
};
use crate::task::store::{
    ParallelBatchInstance, PlanInfo, SerialBatchInstance, StoreTaskInfo, StoreTaskInfoView,
};
use vstd::prelude::*;
use vstd::string::*;

verus! {

/// The stages of the pipeline, as the channels see them.
#[derive(Debug, Clone, Copy)]
pub struct InnerController {}

/// How a serial batch ended: all its instances are in the store.
#[derive(Debug, Clone)]
pub struct SerialFinished {
    /// The ids of the instances, in the order of the batch.
    pub succeeded_id: Vec<u64>,
}

/// What comes next in a serial batch.
#[derive(Debug, Clone)]
pub enum SerialStep {
    /// Store the instance at this position of the batch, then ask again.
    StoreNext(usize),
    /// The batch ends here, before its end: an instance could not be stored,
    /// and what becomes of the batch task is the command.
    Stop(Command),
    /// Every instance is in the store.
    Finished(SerialFinished),
}

/// The mathematical content of a [`SerialStep`].
pub enum SerialStepView {
    StoreNext(nat),
    Stop(CommandView),
    Finished { succeeded_id: Seq<u64> },
}

impl View for SerialStep {
    type V = SerialStepView;

    open spec fn view(&self) -> SerialStepView {
        match self {
            SerialStep::StoreNext(i) => SerialStepView::StoreNext(*i as nat),
            SerialStep::Stop(c) => SerialStepView::Stop(c@),
            SerialStep::Finished(f) => SerialStepView::Finished { succeeded_id: f.succeeded_id@ },
        }
    }
}

/// The instance is in the store: it was stored now, or was there already.
pub open spec fn is_stored(outcome: Result<u64, NatureError>) -> bool {
    match outcome {
        Ok(_) => true,
        Err(e) => e.kind() == ErrorKind::Duplicated,
    }
}

/// The first position at or after `from` among the first `k` outcomes at
/// which the instance did not get into the store, or `k` where there is
/// none.
pub open spec fn first_unstored(outcomes: Seq<Result<u64, NatureError>>, k: int, from: int) -> int
    decreases k - from,
{
    if from < 0 || from >= k || from >= outcomes.len() || !is_stored(outcomes[from]) {
        from
    } else {
        first_unstored(outcomes, k, from + 1)
    }
}

/// The ids of the instances, in order.
pub open spec fn ids_of_instances(instances: Seq<InstanceView>) -> Seq<u64> {
    Seq::new(instances.len(), |i: int| instances[i].id)
}

/// What comes next in the serial batch `task` of `instances` at the time
/// `now`, once the first of them have been stored with the given `outcomes`.
/// The first instance that did not get into the store ends the batch: the
/// batch task stays in the log for its next try where the store was
/// unreachable, and ends in failure otherwise. While every instance so far is
/// in the store, the next one is stored; after the last one the batch is
/// finished.
pub open spec fn serial_step(
    instances: Seq<InstanceView>,
    task: RawTaskView,
    outcomes: Seq<Result<u64, NatureError>>,
    now: i64,
) -> SerialStepView {
    let done = if outcomes.len() < instances.len() {
        outcomes.len()
    } else {
        instances.len()
    };
    let failed = first_unstored(outcomes, done as int, 0);
    if failed < done {
        SerialStepView::Stop(failure_command(outcomes[failed]->Err_0@, task, now))
    } else if done < instances.len() {
        SerialStepView::StoreNext(done)
    } else {
        SerialStepView::Finished { succeeded_id: ids_of_instances(instances) }
    }
}

/// What follows once the store has answered for the instance of a store
/// task: an instance that is stored, now or from an earlier run, goes on to
/// the next stage; an unreachable store leaves the task in the log for its
/// next try; any other error ends the task in failure.
pub open spec fn store_command(
    info: StoreTaskInfoView,
    task: RawTaskView,
    saved: Result<u64, NatureError>,
    now: i64,
) -> CommandView {
    match saved {
        Ok(_) => CommandView::Forward(MessageView::Stored(info, task)),
        Err(e) => if e.kind() == ErrorKind::Duplicated {
            CommandView::Forward(MessageView::Stored(info, task))
        } else {
            failure_command(e@, task, now)
        },
    }
}

/// The task is done and nothing follows it: an empty batch is saved, which
/// takes the task out of the log.
pub open spec fn finished_command(task: RawTaskView) -> CommandView {
    CommandView::SaveAndSend {
        batch: Seq::empty(),
        parent_id: task.task_id,
        send: Seq::empty(),
    }
}

/// What becomes of a store task at the time `now` when a convert task of its
/// missions could not be made for the reason `e`: where the missions have no
/// work to do, the task is done; where a collaborator was unreachable, it
/// stays in the log for its next try; otherwise it ends in failure.
pub open spec fn generation_failed(e: NatureErrorView, task: RawTaskView, now: i64) -> CommandView {
    if e.kind == ErrorKind::Break {
        finished_command(task)
    } else {
        failure_command(e, task, now)
    }
}

/// What follows a stored instance at the time `now`, given the drafts of the
/// convert tasks of its missions: an instance without missions is done;
/// drafts that all became tasks are saved in one batch that finishes the
/// store task and then go on to the convert stage; the first draft that did
/// not decides what becomes of the store task.
pub open spec fn stored_command(
    info: StoreTaskInfoView,
    task: RawTaskView,
    drafts: Seq<ConvertDraftView>,
    now: i64,
) -> CommandView {
    if info.mission.len() == 0 {
        finished_command(task)
    } else {
        match convert_tasks_built(drafts, now) {
            BuiltView::Tasks(batch, send) => CommandView::SaveAndSend {
                batch,
                parent_id: task.task_id,
                send,
            },
            BuiltView::Stopped(e) => generation_failed(e, task, now),
            BuiltView::Unwritable(e) => generation_failed(e, task, now),
        }
    }
}

/// What follows at the time `now` once the instances of a plan have been
/// drafted as store tasks: drafts that all became tasks are saved in one
/// batch that finishes the carrier and then go on to the store stage; if a
/// draft could not be made or written, nothing is saved, and the carrier
/// stays in the log for its next try where a collaborator was unreachable
/// and ends in failure otherwise.
pub open spec fn prepared_command(
    carrier: RawTaskView,
    key: Option<Seq<char>>,
    drafts: Seq<DraftView>,
    now: i64,
) -> CommandView {
    match store_tasks_built(drafts, key, now) {
        BuiltView::Tasks(batch, send) => CommandView::SaveAndSend {
            batch,
            parent_id: carrier.task_id,
            send,
        },
        BuiltView::Stopped(e) => failure_command(e, carrier, now),
        BuiltView::Unwritable(e) => failure_command(e, carrier, now),
    }
}

/// Carries out [`prepared_command`].
fn prepare(carrier: RawTask, key: Option<&str>, drafts: Vec<Draft>, now: i64) -> (r: Command)
    ensures
        r@ == prepared_command(
            carrier@,
            match key {
                Some(k) => Some(k@),
                None => None,
            },
            drafts.deep_view(),
            now,
        ),
{
    match build_store_tasks(drafts, key, now) {
        Built::Tasks(store_infos, t_d) => Command::SaveAndSend {
            batch: store_infos,
            parent_id: carrier.task_id,
            send: t_d,
        },
        Built::Stopped(e) => Command::for_failure(e, carrier, now),
        Built::Unwritable(e) => Command::for_failure(e, carrier, now),
    }
}

impl InnerController {
    /// The serial batch stage: says what comes next for the batch `task` at
    /// the time `now` once the first of its instances have been stored with
    /// the given `outcomes`, one outcome per instance in the order of the
    /// batch. No instance is stored before the one ahead of it is in the
    /// store.
    pub fn channel_serial(
        task: &(SerialBatchInstance, RawTask),
        outcomes: &Vec<Result<u64, NatureError>>,
        now: i64,
    ) -> (r: SerialStep)
        ensures
            r@ == serial_step(task.0.instances.deep_view(), task.1@, outcomes@, now),
    {
        let instances = &task.0.instances;
        let done: usize = if outcomes.len() < instances.len() {
            outcomes.len()
        } else {
            instances.len()
        };
        let mut succeeded_id: Vec<u64> = Vec::new();
        let mut i: usize = 0;
        assert(succeeded_id@ =~= ids_of_instances(instances.deep_view()).take(0));
        while i < done
            invariant
                i <= done,
                done <= outcomes.len(),
                done <= instances.len(),
                *instances == task.0.instances,
                done == outcomes.len() || done == instances.len(),
                first_unstored(outcomes@, done as int, 0) == first_unstored(
                    outcomes@,
                    done as int,
                    i as int,
                ),
                succeeded_id@ == ids_of_instances(instances.deep_view()).take(i as int),
            decreases done - i,
        {
            match &outcomes[i] {
                Ok(_) => {},
                Err(e) => {
                    if e.kind() != ErrorKind::Duplicated {
                        return SerialStep::Stop(
                            Command::for_failure(e.duplicate(), task.1.duplicate(), now),
                        );
                    }
                },
            }
            succeeded_id.push(instances[i].id);
            assert(succeeded_id@ =~= ids_of_instances(instances.deep_view()).take(i + 1));
            i += 1;
        }
        if done < instances.len() {
            SerialStep::StoreNext(done)
        } else {
            assert(ids_of_instances(instances.deep_view()).take(done as int)
                =~= ids_of_instances(instances.deep_view()));
            SerialStep::Finished(SerialFinished { succeeded_id })
        }
    }

    /// The parallel batch stage: the instances of the batch `task`, drafted
    /// as store tasks, are saved in one batch that finishes the batch task
    /// and then go on to the store stage in no particular order, each filed
    /// under the meta of its instance.
    pub fn channel_parallel(task: (ParallelBatchInstance, RawTask), drafts: Vec<Draft>, now: i64) -> (r:
        Command)
        ensures
            r@ == prepared_command(task.1@, None, drafts.deep_view(), now),
    {
        prepare(task.1, None, drafts, now)
    }

    /// The store stage: decides what follows for the store task `store` at
    /// the time `now` once the store has answered `saved` for its instance.
    pub fn channel_store(store: (StoreTaskInfo, RawTask), saved: Result<u64, NatureError>, now: i64) -> (r:
        Command)
        ensures
            r@ == store_command(store.0@, store.1@, saved, now),
    {
        match saved {
            Ok(_) => Command::Forward(Message::Stored(store.0, store.1)),
            Err(e) => {
                if e.kind() == ErrorKind::Duplicated {
                    Command::Forward(Message::Stored(store.0, store.1))
                } else {
                    Command::for_failure(e, store.1, now)
                }
            },
        }
    }

    /// The stage after storing: makes the missions of the stored instance of
    /// `store` into convert tasks, given their drafts.
    pub fn channel_stored(store: (StoreTaskInfo, RawTask), drafts: Vec<ConvertDraft>, now: i64) -> (r:
        Command)
        ensures
            r@ == stored_command(store.0@, store.1@, drafts.deep_view(), now),
    {
        match ConvertServiceImpl::generate(&store.0, drafts, now) {
            Err(err) => match err {
                NatureError::Break => {
                    let batch: Vec<RawTask> = Vec::new();
                    let send: Vec<Message> = Vec::new();
                    assert(batch.deep_view() =~= Seq::<RawTaskView>::empty());
                    assert(send.deep_view() =~= Seq::<MessageView>::empty());
                    Command::SaveAndSend { batch, parent_id: store.1.task_id, send }
                },
                e => Command::for_failure(e, store.1, now),
            },
            Ok(converters) => Command::SaveAndSend {
                batch: converters.0,
                parent_id: store.1.task_id,
                send: converters.1,
            },
        }
    }

    /// The convert stage: decides what follows for the convert task `task`
    /// at the time `now` after its converter returned `returned`.
    pub fn channel_convert(task: (ConverterInfo, RawTask), returned: ConverterReturned, now: i64) -> (r:
        Command)
        ensures
            r@ == convert_command(task.0@, task.1@, returned@, now),
    {
        ConvertServiceImpl::do_convert_task(task, returned, now)
    }

    /// The stage after converting: once the plan of the conversion `task` is
    /// saved, its instances, drafted as store tasks, are prepared for the
    /// store stage. Where the plan could not be saved, the convert task
    /// stays in the log for its next try if a collaborator was unreachable,
    /// and ends in failure otherwise.
    pub fn channel_converted(
        task: (ConverterInfo, Converted),
        plan: Result<PlanInfo, NatureError>,
        drafts: Vec<Draft>,
        now: i64,
    ) -> (r: Command)
        ensures
            r@ == (match plan {
                Ok(p) => prepared_command(
                    task.1@.done_task,
                    Some(p@.to.key),
                    drafts.deep_view(),
                    now,
                ),
                Err(e) => failure_command(e@, task.1@.done_task, now),
            }),
    {
        match plan {
            Ok(plan) => prepare(task.1.done_task, Some(plan.to.key.as_str()), drafts, now),
            Err(e) => Command::for_failure(e, task.1.done_task, now),
        }
    }
}

/// Prepares the instances of `plan`, drafted as store tasks, for the store
/// stage once the task `carrier` that produced them is done. The tasks are
/// filed under the key of the target meta of the plan.
pub fn prepare_to_store(carrier: &RawTask, plan: &PlanInfo, drafts: Vec<Draft>, now: i64) -> (r:
    Command)
    ensures
        r@ == prepared_command(carrier@, Some(plan@.to.key), drafts.deep_view(), now),
{
    prepare(carrier.duplicate(), Some(plan.to.key.as_str()), drafts, now)
}

} // verus!
