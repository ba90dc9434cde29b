//! Raw tasks, the durable unit of work.

use crate::common::error::{ErrorKind, NatureError};
use crate::text::{hexadecimal, hexadecimal_text};
use vstd::prelude::*;
use vstd::string::*;

verus! {

/// The stage of the pipeline that a task belongs to.
#[derive(Debug, Clone, Copy, PartialEq, Eq, Structural)]
pub enum TaskType {
    Store,
    Convert,
    BatchSerial,
    BatchParallel,
}

impl TaskType {
    /// The number that stands for the stage in the task table.
    pub open spec fn code_of(self) -> i8 {
        match self {
            TaskType::Store => 1,
            TaskType::Convert => 2,
            TaskType::BatchParallel => 11,
            TaskType::BatchSerial => 12,
        }
    }

    /// The stage that a number of the task table stands for, if it stands
    /// for one.
    pub open spec fn of_code(code: i8) -> Option<TaskType> {
        if code == 1 {
            Some(TaskType::Store)
        } else if code == 2 {
            Some(TaskType::Convert)
        } else if code == 11 {
            Some(TaskType::BatchParallel)
        } else if code == 12 {
            Some(TaskType::BatchSerial)
        } else {
            None
        }
    }

    /// The number that stands for the stage in the task table. Reading it
    /// back gives the stage again.
    pub fn code(&self) -> (c: i8)
        ensures
            c == self.code_of(),
            TaskType::of_code(c) == Some(*self),
    {
        match self {
            TaskType::Store => 1,
            TaskType::Convert => 2,
            TaskType::BatchParallel => 11,
            TaskType::BatchSerial => 12,
        }
    }

    /// The stage that a number of the task table stands for.
    pub fn from_code(code: i8) -> (r: Option<TaskType>)
        ensures
            r == TaskType::of_code(code),
    {
        if code == 1 {
            Some(TaskType::Store)
        } else if code == 2 {
            Some(TaskType::Convert)
        } else if code == 11 {
            Some(TaskType::BatchParallel)
        } else if code == 12 {
            Some(TaskType::BatchSerial)
        } else {
            None
        }
    }
}

/// The digest of a task body: the 128 bits of the name-based (MD5) UUID of
/// the body's bytes in the DNS namespace.
pub uninterp spec fn content_digest(data: Seq<char>) -> u128;

/// Calls `Uuid::new_v3` with the DNS namespace on the bytes of `data` and
/// packs the result into a number. The contract claims only that the outcome
/// is the one named by [`content_digest`]: the same body always has the same
/// digest.
#[verifier::external_body]
pub(crate) fn digest(data: &str) -> (d: u128)
    ensures
        d == content_digest(data@),
{
    uuid::Uuid::new_v3(&uuid::Uuid::NAMESPACE_DNS, data.as_bytes()).as_u128()
}

/// The id of the task with the body `data`: its digest in hexadecimal.
pub open spec fn task_id_of(data: Seq<char>) -> Seq<char> {
    hexadecimal(content_digest(data) as nat)
}

/// The durable unit of work.
#[derive(Debug, Clone)]
pub struct RawTask {
    /// The hash of the body: primary key and token against doing the same
    /// work twice.
    pub task_id: String,
    pub task_type: TaskType,
    /// A hint for routing, mostly the key of the target meta.
    pub task_key: String,
    /// The body, serialized.
    pub data: String,
    /// Milliseconds since the epoch.
    pub create_time: i64,
    /// From when on the task may run, in milliseconds since the epoch.
    pub execute_time: i64,
    pub retried_times: i16,
}

/// The mathematical content of a [`RawTask`].
pub struct RawTaskView {
    pub task_id: Seq<char>,
    pub task_type: TaskType,
    pub task_key: Seq<char>,
    pub data: Seq<char>,
    pub create_time: i64,
    pub execute_time: i64,
    pub retried_times: i16,
}

impl View for RawTask {
    type V = RawTaskView;

    open spec fn view(&self) -> RawTaskView {
        RawTaskView {
            task_id: self.task_id@,
            task_type: self.task_type,
            task_key: self.task_key@,
            data: self.data@,
            create_time: self.create_time,
            execute_time: self.execute_time,
            retried_times: self.retried_times,
        }
    }
}

impl DeepView for RawTask {
    type V = RawTaskView;

    open spec fn deep_view(&self) -> RawTaskView {
        self@
    }
}

impl RawTaskView {
    /// The task made at the time `now` for the body `data`: due at once,
    /// never retried, its id the hash of the body.
    pub open spec fn fresh(
        data: Seq<char>,
        task_key: Seq<char>,
        task_type: TaskType,
        now: i64,
    ) -> RawTaskView {
        RawTaskView {
            task_id: task_id_of(data),
            task_type,
            task_key,
            data,
            create_time: now,
            execute_time: now,
            retried_times: 0,
        }
    }
}

impl RawTask {
    /// Makes the task for the serialized body `data` at the time `now`.
    pub fn new(data: &str, task_key: &str, task_type: TaskType, now: i64) -> (r: RawTask)
        ensures
            r@ == RawTaskView::fresh(data@, task_key@, task_type, now),
    {
        RawTask {
            task_id: hexadecimal_text(digest(data)),
            task_type,
            task_key: task_key.to_owned(),
            data: data.to_owned(),
            create_time: now,
            execute_time: now,
            retried_times: 0,
        }
    }

    /// A copy with the same content.
    pub fn duplicate(&self) -> (r: RawTask)
        ensures
            r@ == self@,
    {
        RawTask {
            task_id: self.task_id.clone(),
            task_type: self.task_type,
            task_key: self.task_key.clone(),
            data: self.data.clone(),
            create_time: self.create_time,
            execute_time: self.execute_time,
            retried_times: self.retried_times,
        }
    }
}

/// The id of a task depends on its body alone: whenever and for whatever
/// stage a body is made into a task again, the task has the same id.
pub proof fn lemma_task_id_is_content_hash(
    data: Seq<char>,
    key1: Seq<char>,
    type1: TaskType,
    now1: i64,
    key2: Seq<char>,
    type2: TaskType,
    now2: i64,
)
    ensures
        RawTaskView::fresh(data, key1, type1, now1).task_id == RawTaskView::fresh(
            data,
            key2,
            type2,
            now2,
        ).task_id,
{
}

/// A task that ended in failure, with the reason.
#[derive(Debug, Clone)]
pub struct TaskError {
    pub task: RawTask,
    pub err_code: ErrorKind,
    pub err_msg: String,
}

/// The mathematical content of a [`TaskError`].
pub struct TaskErrorView {
    pub task: RawTaskView,
    pub err_code: ErrorKind,
    pub err_msg: Seq<char>,
}

impl View for TaskError {
    type V = TaskErrorView;

    open spec fn view(&self) -> TaskErrorView {
        TaskErrorView { task: self.task@, err_code: self.err_code, err_msg: self.err_msg@ }
    }
}

impl DeepView for TaskError {
    type V = TaskErrorView;

    open spec fn deep_view(&self) -> TaskErrorView {
        self@
    }
}

impl TaskError {
    /// The record of `task` having failed with `err`.
    pub fn new(err: &NatureError, task: &RawTask) -> (r: TaskError)
        ensures
            r@ == (TaskErrorView { task: task@, err_code: err.kind(), err_msg: err.message() }),
    {
        let err_msg = match err {
            NatureError::VerifyError(m) => m.clone(),
            NatureError::LogicalError(m) => m.clone(),
            NatureError::EnvError(m) => m.clone(),
            NatureError::SystemError(m) => m.clone(),
            NatureError::Duplicated => String::new(),
            NatureError::Break => String::new(),
            NatureError::TargetInstanceNotIncludeStatus(m) => m.clone(),
            NatureError::TargetInstanceContainsExcludeStatus(m) => m.clone(),
        };
        TaskError { task: task.duplicate(), err_code: err.kind(), err_msg }
    }
}

} // verus!
