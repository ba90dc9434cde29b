//! Messages between the stages of the pipeline, and commands: what a stage
//! tells the runtime to do with a task once it has decided.

use crate::common::error::{ErrorKind, NatureError, NatureErrorView};
use crate::common::instance::{Instance, InstanceView};
use crate::common::mission::{Mission, MissionView};
use crate::common::task::{RawTask, RawTaskView, TaskErrorView};
use crate::db::task_log::{
    batch_saved, in_batch, lemma_no_orphan_children, retried, TaskLog, TaskLogView,
};
use crate::fg_service::convert::{ConverterInfo, ConverterInfoView};
use crate::task::store::{StoreTaskInfo, StoreTaskInfoView};
use vstd::prelude::*;
use vstd::string::*;

verus! {

/// What a finished conversion hands on.
#[derive(Debug, Clone)]
pub struct Converted {
    /// The convert task that is done.
    pub done_task: RawTask,
    /// The instances to store, made ready for storage.
    pub converted: Vec<Instance>,
    /// Where the converter routes by itself: for each instance the missions
    /// that follow it, in place of what the planner would plan.
    pub self_route: Option<Vec<Vec<Mission>>>,
}

/// The mathematical content of a [`Converted`].
pub struct ConvertedView {
    pub done_task: RawTaskView,
    pub converted: Seq<InstanceView>,
    pub self_route: Option<Seq<Seq<MissionView>>>,
}

impl View for Converted {
    type V = ConvertedView;

    open spec fn view(&self) -> ConvertedView {
        ConvertedView {
            done_task: self.done_task@,
            converted: self.converted.deep_view(),
            self_route: match self.self_route {
                Some(r) => Some(r.deep_view()),
                None => None,
            },
        }
    }
}

/// What travels on the channels between the stages.
#[derive(Debug, Clone)]
pub enum Message {
    /// An instance to persist.
    Store(StoreTaskInfo, RawTask),
    /// An instance that is persisted; its missions are to be made into
    /// convert tasks.
    Stored(StoreTaskInfo, RawTask),
    /// A mission to carry out.
    Convert(ConverterInfo, RawTask),
    /// The outcome of a conversion, to be made into store tasks.
    Converted(ConverterInfo, Converted),
}

/// The mathematical content of a [`Message`].
pub enum MessageView {
    Store(StoreTaskInfoView, RawTaskView),
    Stored(StoreTaskInfoView, RawTaskView),
    Convert(ConverterInfoView, RawTaskView),
    Converted(ConverterInfoView, ConvertedView),
}

impl View for Message {
    type V = MessageView;

    open spec fn view(&self) -> MessageView {
        match self {
            Message::Store(i, t) => MessageView::Store(i@, t@),
            Message::Stored(i, t) => MessageView::Stored(i@, t@),
            Message::Convert(i, t) => MessageView::Convert(i@, t@),
            Message::Converted(i, c) => MessageView::Converted(i@, c@),
        }
    }
}

impl DeepView for Message {
    type V = MessageView;

    open spec fn deep_view(&self) -> MessageView {
        self@
    }
}

/// What the runtime is to do with a task after a stage has decided.
#[derive(Debug, Clone)]
pub enum Command {
    /// Nothing. A task that is in the log stays there and is found again
    /// when it is due.
    Rest,
    /// End the task in failure: move it to the error table.
    ToError { error: NatureError, task: RawTask },
    /// Leave the task in the log and schedule its next try.
    Retry { task_id: String, now: i64 },
    /// Leave the task in the log and make it due at the given time. This
    /// does not count as a try.
    Delay { task_id: String, execute_time: i64 },
    /// Hand the message to the next stage.
    Forward(Message),
    /// Save the batch and delete the parent task in one transaction; only
    /// once that has succeeded, hand every message to its stage.
    SaveAndSend { batch: Vec<RawTask>, parent_id: String, send: Vec<Message> },
}

/// The mathematical content of a [`Command`].
pub enum CommandView {
    Rest,
    ToError { error: NatureErrorView, task: RawTaskView },
    Retry { task_id: Seq<char>, now: i64 },
    Delay { task_id: Seq<char>, execute_time: i64 },
    Forward(MessageView),
    SaveAndSend { batch: Seq<RawTaskView>, parent_id: Seq<char>, send: Seq<MessageView> },
}

impl View for Command {
    type V = CommandView;

    open spec fn view(&self) -> CommandView {
        match self {
            Command::Rest => CommandView::Rest,
            Command::ToError { error, task } => CommandView::ToError { error: error@, task: task@ },
            Command::Retry { task_id, now } => CommandView::Retry { task_id: task_id@, now: *now },
            Command::Delay { task_id, execute_time } => CommandView::Delay {
                task_id: task_id@,
                execute_time: *execute_time,
            },
            Command::Forward(m) => CommandView::Forward(m@),
            Command::SaveAndSend { batch, parent_id, send } => CommandView::SaveAndSend {
                batch: batch.deep_view(),
                parent_id: parent_id@,
                send: send.deep_view(),
            },
        }
    }
}

/// What becomes of a task that failed at the time `now`: where a
/// collaborator was unreachable the task stays in the log and is scheduled
/// for its next try; for any other reason it ends in failure.
pub open spec fn failure_command(error: NatureErrorView, task: RawTaskView, now: i64) -> CommandView {
    if error.kind == ErrorKind::Env {
        CommandView::Retry { task_id: task.task_id, now }
    } else {
        CommandView::ToError { error, task }
    }
}

/// The log after the command has been carried out.
pub open spec fn performed(cmd: CommandView, log: TaskLogView) -> TaskLogView {
    match cmd {
        CommandView::Rest => log,
        CommandView::Forward(_) => log,
        CommandView::ToError { error, task } => TaskLogView {
            tasks: log.tasks.remove(task.task_id),
            errors: log.errors.push(
                TaskErrorView { task, err_code: error.kind, err_msg: error.message },
            ),
        },
        CommandView::Retry { task_id, now } => if log.tasks.dom().contains(task_id) {
            TaskLogView { tasks: log.tasks.insert(task_id, retried(log.tasks[task_id], now)), ..log }
        } else {
            log
        },
        CommandView::Delay { task_id, execute_time } => if log.tasks.dom().contains(task_id) {
            TaskLogView {
                tasks: log.tasks.insert(
                    task_id,
                    RawTaskView { execute_time, ..log.tasks[task_id] },
                ),
                ..log
            }
        } else {
            log
        },
        CommandView::SaveAndSend { batch, parent_id, send } => TaskLogView {
            tasks: batch_saved(log.tasks, batch, parent_id),
            ..log
        },
    }
}

/// The messages that go to the next stages once the command has been
/// carried out.
pub open spec fn sent(cmd: CommandView) -> Seq<MessageView> {
    match cmd {
        CommandView::Forward(m) => seq![m],
        CommandView::SaveAndSend { batch, parent_id, send } => send,
        _ => Seq::empty(),
    }
}

impl Command {
    /// Decides what becomes of the task `task` that failed with `error` at
    /// the time `now`: an environment error leaves it in the log for its next
    /// try, any other error ends it in failure.
    pub fn for_failure(error: NatureError, task: RawTask, now: i64) -> (r: Command)
        ensures
            r@ == failure_command(error@, task@, now),
    {
        if error.kind() == ErrorKind::Env {
            Command::Retry { task_id: task.task_id, now }
        } else {
            Command::ToError { error, task }
        }
    }

    /// Carries the command out on the log `log` and hands back the messages
    /// for the next stages.
    pub fn perform(self, log: &mut TaskLog) -> (messages: Vec<Message>)
        ensures
            final(log)@ == performed(self@, old(log)@),
            messages.deep_view() == sent(self@),
    {
        match self {
            Command::Rest => {
                let messages: Vec<Message> = Vec::new();
                assert(messages.deep_view() =~= Seq::<MessageView>::empty());
                messages
            },
            Command::Forward(m) => {
                let messages: Vec<Message> = vec![m];
                assert(messages.deep_view() =~= seq![m@]);
                messages
            },
            Command::ToError { error, task } => {
                log.move_to_error(&error, &task);
                let messages: Vec<Message> = Vec::new();
                assert(messages.deep_view() =~= Seq::<MessageView>::empty());
                messages
            },
            Command::Retry { task_id, now } => {
                log.increase_retry(task_id.as_str(), now);
                let messages: Vec<Message> = Vec::new();
                assert(messages.deep_view() =~= Seq::<MessageView>::empty());
                messages
            },
            Command::Delay { task_id, execute_time } => {
                log.update_execute_time(task_id.as_str(), execute_time);
                let messages: Vec<Message> = Vec::new();
                assert(messages.deep_view() =~= Seq::<MessageView>::empty());
                messages
            },
            Command::SaveAndSend { batch, parent_id, send } => {
                log.save_batch(&batch, parent_id.as_str());
                send
            },
        }
    }
}

/// No orphan child tasks, whatever a stage decides: a command puts no task
/// into the log except the children of a batch, and with them in the log
/// their parent is gone from it.
pub proof fn lemma_commands_leave_no_orphans(cmd: CommandView, log: TaskLogView, id: Seq<char>)
    requires
        performed(cmd, log).tasks.dom().contains(id),
        !log.tasks.dom().contains(id),
    ensures
        cmd matches CommandView::SaveAndSend { batch, parent_id, send } && in_batch(batch, id)
            && !performed(cmd, log).tasks.dom().contains(parent_id),
{
    match cmd {
        CommandView::SaveAndSend { batch, parent_id, send } => {
            lemma_no_orphan_children(log.tasks, batch, parent_id);
        },
        _ => {},
    }
}

} // verus!
