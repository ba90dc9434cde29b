//! The task log: the durable store of the tasks in flight, with the error
//! table beside it. This is the log held in memory; it fixes what the
//! operations of a task store mean.

use crate::common::collections::{distinct_keys, lemma_map_of_entries, lemma_map_of_equals, map_of};
use crate::common::error::{ErrorKind, NatureError};
use crate::common::task::{RawTask, RawTaskView, TaskError, TaskErrorView};
use crate::text::same_text;
use vstd::prelude::*;
use vstd::string::*;

verus! {

/// The tasks of a list, each beside its id.
pub open spec fn by_id(tasks: Seq<RawTaskView>) -> Seq<(Seq<char>, RawTaskView)> {
    Seq::new(tasks.len(), |i: int| (tasks[i].task_id, tasks[i]))
}

/// The log after the tasks of a batch have been added in order: a task whose
/// id is in the log already is skipped.
pub open spec fn batch_added(
    log: Map<Seq<char>, RawTaskView>,
    batch: Seq<RawTaskView>,
) -> Map<Seq<char>, RawTaskView>
    decreases batch.len(),
{
    if batch.len() == 0 {
        log
    } else {
        let before = batch_added(log, batch.drop_last());
        if before.dom().contains(batch.last().task_id) {
            before
        } else {
            before.insert(batch.last().task_id, batch.last())
        }
    }
}

/// The log after a batch of child tasks has been saved for the parent task
/// `parent`: the children are added, then the parent is deleted.
pub open spec fn batch_saved(
    log: Map<Seq<char>, RawTaskView>,
    batch: Seq<RawTaskView>,
    parent: Seq<char>,
) -> Map<Seq<char>, RawTaskView> {
    batch_added(log, batch).remove(parent)
}

/// Some task of the batch has the given id.
pub open spec fn in_batch(batch: Seq<RawTaskView>, id: Seq<char>) -> bool {
    exists|i: int| 0 <= i < batch.len() && (#[trigger] batch[i]).task_id == id
}

/// Adding a batch adds exactly the ids of the batch and leaves every task
/// that was in the log as it was.
pub proof fn lemma_batch_added(log: Map<Seq<char>, RawTaskView>, batch: Seq<RawTaskView>)
    ensures
        forall|id: Seq<char>|
            #![trigger batch_added(log, batch).dom().contains(id)]
            batch_added(log, batch).dom().contains(id) <==> log.dom().contains(id) || in_batch(
                batch,
                id,
            ),
        forall|id: Seq<char>|
            log.dom().contains(id) ==> #[trigger] batch_added(log, batch)[id] == log[id],
    decreases batch.len(),
{
    let after = batch_added(log, batch);
    if batch.len() == 0 {
        assert forall|id: Seq<char>| !in_batch(batch, id) by {}
    } else {
        let rest = batch.drop_last();
        let before = batch_added(log, rest);
        let last = batch.last();
        lemma_batch_added(log, rest);
        assert forall|id: Seq<char>|
            after.dom().contains(id) <==> log.dom().contains(id) || in_batch(batch, id) by {
            assert(before.dom().contains(id) <==> log.dom().contains(id) || in_batch(rest, id));
            if in_batch(rest, id) {
                let i = choose|i: int| 0 <= i < rest.len() && (#[trigger] rest[i]).task_id == id;
                assert(batch[i].task_id == id);
            }
            if in_batch(batch, id) {
                let i = choose|i: int| 0 <= i < batch.len() && (#[trigger] batch[i]).task_id == id;
                if i < rest.len() {
                    assert(rest[i].task_id == id);
                } else {
                    assert(id == last.task_id);
                }
            }
            if id == last.task_id {
                assert(batch[batch.len() - 1].task_id == id);
            }
        }
        assert forall|id: Seq<char>| log.dom().contains(id) implies #[trigger] after[id]
            == log[id] by {
            assert(before.dom().contains(id));
            assert(before[id] == log[id]);
        }
    }
}

/// No orphan child tasks: once a batch is saved, the parent is gone from the
/// log; whatever is new in the log is a child of the batch; and every child
/// is in the log unless it has the id of the parent itself.
pub proof fn lemma_no_orphan_children(
    log: Map<Seq<char>, RawTaskView>,
    batch: Seq<RawTaskView>,
    parent: Seq<char>,
)
    ensures
        !batch_saved(log, batch, parent).dom().contains(parent),
        forall|id: Seq<char>|
            #![trigger batch_saved(log, batch, parent).dom().contains(id)]
            batch_saved(log, batch, parent).dom().contains(id) && !log.dom().contains(id)
                ==> in_batch(batch, id),
        forall|i: int|
            0 <= i < batch.len() && (#[trigger] batch[i]).task_id != parent ==> batch_saved(
                log,
                batch,
                parent,
            ).dom().contains(batch[i].task_id),
        forall|id: Seq<char>|
            log.dom().contains(id) && id != parent ==> batch_saved(log, batch, parent).dom().contains(
                id,
            ) && #[trigger] batch_saved(log, batch, parent)[id] == log[id],
{
    let added = batch_added(log, batch);
    lemma_batch_added(log, batch);
    assert forall|id: Seq<char>|
        batch_saved(log, batch, parent).dom().contains(id) && !log.dom().contains(
            id,
        ) implies in_batch(batch, id) by {
        assert(added.dom().contains(id));
    }
    assert forall|i: int| 0 <= i < batch.len() && (#[trigger] batch[i]).task_id != parent implies batch_saved(
    log, batch, parent).dom().contains(batch[i].task_id) by {
        assert(in_batch(batch, batch[i].task_id));
        assert(added.dom().contains(batch[i].task_id));
    }
    assert forall|id: Seq<char>| log.dom().contains(id) && id != parent implies batch_saved(
        log,
        batch,
        parent,
    ).dom().contains(id) && #[trigger] batch_saved(log, batch, parent)[id] == log[id] by {
        assert(added.dom().contains(id));
        assert(added[id] == log[id]);
    }
}

/// Idempotent re-entry: saving the same batch for the same parent a second
/// time leaves the log as the first time left it.
pub proof fn lemma_replay_changes_nothing(
    log: Map<Seq<char>, RawTaskView>,
    batch: Seq<RawTaskView>,
    parent: Seq<char>,
)
    ensures
        batch_saved(batch_saved(log, batch, parent), batch, parent) == batch_saved(
            log,
            batch,
            parent,
        ),
{
    let added = batch_added(log, batch);
    let once = batch_saved(log, batch, parent);
    let again = batch_added(once, batch);
    let twice = batch_saved(once, batch, parent);
    lemma_batch_added(log, batch);
    lemma_batch_added(once, batch);
    assert forall|id: Seq<char>| twice.dom().contains(id) <==> once.dom().contains(id) by {
        if twice.dom().contains(id) {
            assert(again.dom().contains(id));
            if in_batch(batch, id) {
                assert(added.dom().contains(id));
            }
        }
        if once.dom().contains(id) {
            assert(again.dom().contains(id));
        }
    }
    assert forall|id: Seq<char>| twice.dom().contains(id) implies twice[id] == once[id] by {
        assert(once.dom().contains(id));
        assert(again[id] == once[id]);
    }
    assert(twice =~= once);
}

/// How many seconds a task waits before its next try after it has been
/// retried `retried` times: one second at first, twice as long each time, and
/// never more than 300 seconds.
pub open spec fn backoff_seconds(retried: nat) -> nat
    decreases retried,
{
    if retried == 0 {
        1
    } else if backoff_seconds((retried - 1) as nat) * 2 >= 300 {
        300
    } else {
        backoff_seconds((retried - 1) as nat) * 2
    }
}

/// The longest that a task ever waits for its next try, in seconds.
pub const BACKOFF_CAP: u32 = 300;

/// The number of tries that a task has behind it; a count below zero counts
/// as none.
pub open spec fn tries(retried_times: i16) -> nat {
    if retried_times < 0 {
        0
    } else {
        retried_times as nat
    }
}

/// The wait before the next try of a task that has been retried
/// `retried_times` times, in seconds.
pub fn backoff(retried_times: i16) -> (seconds: u32)
    ensures
        seconds == backoff_seconds(tries(retried_times)),
        1 <= seconds <= BACKOFF_CAP,
{
    let mut seconds: u32 = 1;
    let mut i: i16 = 0;
    while i < retried_times
        invariant
            0 <= i,
            i <= retried_times || (retried_times < 0 && i == 0),
            seconds == backoff_seconds(i as nat),
            1 <= seconds <= 300,
        decreases retried_times - i,
    {
        if seconds * 2 >= 300 {
            seconds = 300;
        } else {
            seconds = seconds * 2;
        }
        i += 1;
    }
    seconds
}

/// The time `now` moved on by `seconds`, in milliseconds, and no further
/// than the largest time there is.
pub open spec fn later(now: i64, seconds: u32) -> i64 {
    if now + seconds * 1000 > i64::MAX {
        i64::MAX
    } else {
        (now + seconds * 1000) as i64
    }
}

/// Moves the time `now` on by `seconds`.
pub fn time_after(now: i64, seconds: u32) -> (t: i64)
    ensures
        t == later(now, seconds),
{
    let delta: i64 = (seconds as i64) * 1000;
    if now > i64::MAX - delta {
        i64::MAX
    } else {
        now + delta
    }
}

/// One more try than `retried_times`, and no more than the largest count
/// there is.
pub open spec fn one_more(retried_times: i16) -> i16 {
    if retried_times == i16::MAX {
        i16::MAX
    } else {
        (retried_times + 1) as i16
    }
}

/// A task scheduled for its next try at the time `now`: it is due after the
/// wait that its tries so far call for, and has one try more behind it.
pub open spec fn retried(task: RawTaskView, now: i64) -> RawTaskView {
    RawTaskView {
        execute_time: later(now, backoff_seconds(tries(task.retried_times)) as u32),
        retried_times: one_more(task.retried_times),
        ..task
    }
}

/// The content of a task log: the tasks in flight by id, and the error
/// table in the order in which tasks failed.
pub struct TaskLogView {
    pub tasks: Map<Seq<char>, RawTaskView>,
    pub errors: Seq<TaskErrorView>,
}

/// The tasks in flight and the tasks that failed. No two tasks in flight
/// share an id.
#[derive(Debug)]
pub struct TaskLog {
    tasks: Vec<RawTask>,
    errors: Vec<TaskError>,
}

impl View for TaskLog {
    type V = TaskLogView;

    closed spec fn view(&self) -> TaskLogView {
        TaskLogView {
            tasks: map_of(by_id(self.tasks.deep_view())),
            errors: self.errors.deep_view(),
        }
    }
}

/// The position of the task with the id `id`, if it is in the list.
fn task_position(tasks: &Vec<RawTask>, id: &str) -> (r: Option<usize>)
    ensures
        match r {
            Some(i) => i < tasks.len() && tasks.deep_view()[i as int].task_id == id@,
            None => forall|j: int| 0 <= j < tasks.len() ==> tasks.deep_view()[j].task_id != id@,
        },
{
    let mut i: usize = 0;
    while i < tasks.len()
        invariant
            i <= tasks.len(),
            forall|j: int| 0 <= j < i ==> tasks.deep_view()[j].task_id != id@,
        decreases tasks.len() - i,
    {
        if same_text(tasks[i].task_id.as_str(), id) {
            return Some(i);
        }
        i += 1;
    }
    None
}

/// Replacing the task at one position by a task of the same id replaces its
/// entry in the map.
proof fn lemma_task_replaced(tasks: Seq<RawTaskView>, i: int, task: RawTaskView)
    requires
        distinct_keys(by_id(tasks)),
        0 <= i < tasks.len(),
        tasks[i].task_id == task.task_id,
    ensures
        distinct_keys(by_id(tasks.update(i, task))),
        map_of(by_id(tasks.update(i, task))) == map_of(by_id(tasks)).insert(task.task_id, task),
{
    let before = by_id(tasks);
    let after = by_id(tasks.update(i, task));
    lemma_map_of_entries(before);
    assert forall|a: int, b: int|
        0 <= a < after.len() && 0 <= b < after.len() && a != b implies after[a].0 != after[b].0 by {
        assert(after[a].0 == before[a].0);
        assert(after[b].0 == before[b].0);
    }
    let m = map_of(before).insert(task.task_id, task);
    assert forall|j: int| 0 <= j < after.len() implies m.dom().contains((#[trigger] after[j]).0)
        && m[after[j].0] == after[j].1 by {
        assert(after[j].0 == before[j].0);
        if j != i {
            assert(before[j].0 != before[i].0);
            assert(map_of(before)[before[j].0] == before[j].1);
        }
    }
    assert forall|k: Seq<char>| m.dom().contains(k) implies exists|j: int|
        0 <= j < after.len() && (#[trigger] after[j]).0 == k by {
        if k == task.task_id {
            assert(after[i].0 == k);
        } else {
            let j = choose|j: int| 0 <= j < before.len() && #[trigger] before[j].0 == k;
            assert(after[j].0 == k);
        }
    }
    lemma_map_of_equals(after, m);
}

/// Appending a task whose id is new adds its entry to the map.
proof fn lemma_task_pushed(tasks: Seq<RawTaskView>, task: RawTaskView)
    requires
        distinct_keys(by_id(tasks)),
        forall|j: int| 0 <= j < tasks.len() ==> tasks[j].task_id != task.task_id,
    ensures
        distinct_keys(by_id(tasks.push(task))),
        map_of(by_id(tasks.push(task))) == map_of(by_id(tasks)).insert(task.task_id, task),
        !map_of(by_id(tasks)).dom().contains(task.task_id),
{
    let before = by_id(tasks);
    let after = by_id(tasks.push(task));
    lemma_map_of_entries(before);
    assert(after.drop_last() =~= before);
    assert forall|a: int, b: int|
        0 <= a < after.len() && 0 <= b < after.len() && a != b implies after[a].0 != after[b].0 by {
        if a < before.len() {
            assert(after[a].0 == before[a].0);
        }
        if b < before.len() {
            assert(after[b].0 == before[b].0);
        }
    }
    if map_of(before).dom().contains(task.task_id) {
        let j = choose|j: int| 0 <= j < before.len() && #[trigger] before[j].0 == task.task_id;
        assert(tasks[j].task_id == task.task_id);
    }
}

/// Taking the task at one position out takes its entry out of the map.
proof fn lemma_task_removed(tasks: Seq<RawTaskView>, i: int)
    requires
        distinct_keys(by_id(tasks)),
        0 <= i < tasks.len(),
    ensures
        distinct_keys(by_id(tasks.remove(i))),
        map_of(by_id(tasks.remove(i))) == map_of(by_id(tasks)).remove(tasks[i].task_id),
{
    let before = by_id(tasks);
    let after = by_id(tasks.remove(i));
    lemma_map_of_entries(before);
    assert forall|j: int| 0 <= j < after.len() implies #[trigger] after[j] == before[if j < i {
        j
    } else {
        j + 1
    }] by {}
    assert forall|a: int, b: int|
        0 <= a < after.len() && 0 <= b < after.len() && a != b implies after[a].0 != after[b].0 by {
        let a0 = if a < i {
            a
        } else {
            a + 1
        };
        let b0 = if b < i {
            b
        } else {
            b + 1
        };
        assert(after[a] == before[a0]);
        assert(after[b] == before[b0]);
    }
    let m = map_of(before).remove(tasks[i].task_id);
    assert forall|j: int| 0 <= j < after.len() implies m.dom().contains((#[trigger] after[j]).0)
        && m[after[j].0] == after[j].1 by {
        let j0 = if j < i {
            j
        } else {
            j + 1
        };
        assert(after[j] == before[j0]);
        assert(before[j0].0 != before[i].0);
        assert(map_of(before)[before[j0].0] == before[j0].1);
    }
    assert forall|k: Seq<char>| m.dom().contains(k) implies exists|j: int|
        0 <= j < after.len() && (#[trigger] after[j]).0 == k by {
        let j0 = choose|j: int| 0 <= j < before.len() && #[trigger] before[j].0 == k;
        assert(j0 != i);
        let j = if j0 < i {
            j0
        } else {
            j0 - 1
        };
        assert(after[j] == before[j0]);
    }
    lemma_map_of_equals(after, m);
}

/// No task of the list has the id: the map has no entry for it.
proof fn lemma_task_absent(tasks: Seq<RawTaskView>, id: Seq<char>)
    requires
        distinct_keys(by_id(tasks)),
        forall|j: int| 0 <= j < tasks.len() ==> tasks[j].task_id != id,
    ensures
        !map_of(by_id(tasks)).dom().contains(id),
{
    let before = by_id(tasks);
    lemma_map_of_entries(before);
    if map_of(before).dom().contains(id) {
        let j = choose|j: int| 0 <= j < before.len() && #[trigger] before[j].0 == id;
        assert(tasks[j].task_id == id);
    }
}

/// The task at a position of the list is the entry of its id in the map.
proof fn lemma_task_present(tasks: Seq<RawTaskView>, i: int)
    requires
        distinct_keys(by_id(tasks)),
        0 <= i < tasks.len(),
    ensures
        map_of(by_id(tasks)).dom().contains(tasks[i].task_id),
        map_of(by_id(tasks))[tasks[i].task_id] == tasks[i],
{
    let before = by_id(tasks);
    lemma_map_of_entries(before);
    assert(before[i].0 == tasks[i].task_id);
    assert(map_of(before)[before[i].0] == before[i].1);
}

impl TaskLog {
    #[verifier::type_invariant]
    spec fn ids_distinct(self) -> bool {
        distinct_keys(by_id(self.tasks.deep_view()))
    }

    /// The empty log.
    pub fn new() -> (log: TaskLog)
        ensures
            log@.tasks == Map::<Seq<char>, RawTaskView>::empty(),
            log@.errors == Seq::<TaskErrorView>::empty(),
    {
        let log = TaskLog { tasks: Vec::new(), errors: Vec::new() };
        assert(by_id(log.tasks.deep_view()) =~= Seq::<(Seq<char>, RawTaskView)>::empty());
        assert(log.errors.deep_view() =~= Seq::<TaskErrorView>::empty());
        log
    }

    /// How many tasks are in flight.
    pub fn len(&self) -> (n: usize)
        ensures
            n == self@.tasks.dom().len(),
            self@.tasks.dom().finite(),
    {
        proof {
            use_type_invariant(self);
            lemma_map_of_entries(by_id(self.tasks.deep_view()));
        }
        self.tasks.len()
    }

    /// How many tasks have failed for good.
    pub fn error_count(&self) -> (n: usize)
        ensures
            n == self@.errors.len(),
    {
        self.errors.len()
    }

    /// Whether a task with the id `task_id` is in flight.
    pub fn contains(&self, task_id: &str) -> (r: bool)
        ensures
            r == self@.tasks.dom().contains(task_id@),
    {
        proof {
            use_type_invariant(self);
        }
        match task_position(&self.tasks, task_id) {
            Some(i) => {
                proof {
                    lemma_task_present(self.tasks.deep_view(), i as int);
                }
                true
            },
            None => {
                proof {
                    lemma_task_absent(self.tasks.deep_view(), task_id@);
                }
                false
            },
        }
    }

    /// A copy of the task with the id `task_id`, if it is in flight.
    pub fn get(&self, task_id: &str) -> (r: Option<RawTask>)
        ensures
            match r {
                Some(t) => self@.tasks.dom().contains(task_id@) && self@.tasks[task_id@] == t@,
                None => !self@.tasks.dom().contains(task_id@),
            },
    {
        proof {
            use_type_invariant(self);
        }
        match task_position(&self.tasks, task_id) {
            Some(i) => {
                proof {
                    lemma_task_present(self.tasks.deep_view(), i as int);
                }
                Some(self.tasks[i].duplicate())
            },
            None => {
                proof {
                    lemma_task_absent(self.tasks.deep_view(), task_id@);
                }
                None
            },
        }
    }

    /// A copy of the failed task at position `i` of the error table, if the
    /// table is that long.
    pub fn get_error(&self, i: usize) -> (r: Option<TaskError>)
        ensures
            match r {
                Some(e) => i < self@.errors.len() && e@ == self@.errors[i as int],
                None => i >= self@.errors.len(),
            },
    {
        if i < self.errors.len() {
            Some(
                TaskError {
                    task: self.errors[i].task.duplicate(),
                    err_code: self.errors[i].err_code,
                    err_msg: self.errors[i].err_msg.clone(),
                },
            )
        } else {
            None
        }
    }

    /// Puts `task` into the log. A task whose id is in the log already is
    /// refused as `Duplicated`, and the log stays as it is.
    pub fn insert(&mut self, task: RawTask) -> (r: Result<(), NatureError>)
        ensures
            final(self)@.errors == old(self)@.errors,
            match r {
                Ok(_) => !old(self)@.tasks.dom().contains(task@.task_id) && final(self)@.tasks == old(
                    self,
                )@.tasks.insert(task@.task_id, task@),
                Err(e) => old(self)@.tasks.dom().contains(task@.task_id) && e.kind()
                    == ErrorKind::Duplicated && final(self)@.tasks == old(self)@.tasks,
            },
    {
        proof {
            use_type_invariant(&*self);
        }
        match task_position(&self.tasks, task.task_id.as_str()) {
            Some(i) => {
                proof {
                    lemma_task_present(self.tasks.deep_view(), i as int);
                }
                Err(NatureError::Duplicated)
            },
            None => {
                let mut taken = TaskLog { tasks: Vec::new(), errors: Vec::new() };
                std::mem::swap(self, &mut taken);
                let TaskLog { tasks: tasks0, errors } = taken;
                let mut tasks = tasks0;
                let ghost before = tasks.deep_view();
                proof {
                    lemma_task_pushed(before, task@);
                }
                tasks.push(task);
                assert(tasks.deep_view() =~= before.push(task@));
                *self = TaskLog { tasks, errors };
                Ok(())
            },
        }
    }

    /// Takes the task with the id `task_id` out of the log. Returns how many
    /// tasks were taken out: one, or none where no such task was in flight.
    pub fn delete(&mut self, task_id: &str) -> (n: usize)
        ensures
            final(self)@.errors == old(self)@.errors,
            final(self)@.tasks == old(self)@.tasks.remove(task_id@),
            n == (if old(self)@.tasks.dom().contains(task_id@) {
                1int
            } else {
                0int
            }),
    {
        proof {
            use_type_invariant(&*self);
        }
        match task_position(&self.tasks, task_id) {
            Some(i) => {
                let mut taken = TaskLog { tasks: Vec::new(), errors: Vec::new() };
                std::mem::swap(self, &mut taken);
                let TaskLog { tasks: tasks0, errors } = taken;
                let mut tasks = tasks0;
                let ghost before = tasks.deep_view();
                proof {
                    lemma_task_removed(before, i as int);
                    lemma_task_present(before, i as int);
                }
                tasks.remove(i);
                assert(tasks.deep_view() =~= before.remove(i as int));
                *self = TaskLog { tasks, errors };
                1
            },
            None => {
                proof {
                    lemma_task_absent(self.tasks.deep_view(), task_id@);
                    assert(self@.tasks.remove(task_id@) =~= self@.tasks);
                }
                0
            },
        }
    }

    /// Saves the child tasks `tasks` of the task `parent_task_id` in one
    /// step: every child is put into the log, one that is there already
    /// counting as saved, and then the parent is taken out. A reader of the
    /// log never finds a new child beside its parent.
    pub fn save_batch(&mut self, tasks: &Vec<RawTask>, parent_task_id: &str)
        ensures
            final(self)@.errors == old(self)@.errors,
            final(self)@.tasks == batch_saved(old(self)@.tasks, tasks.deep_view(), parent_task_id@),
            !final(self)@.tasks.dom().contains(parent_task_id@),
    {
        let ghost batch = tasks.deep_view();
        let ghost log0 = self@.tasks;
        let mut i: usize = 0;
        assert(batch.take(0) =~= Seq::<RawTaskView>::empty());
        while i < tasks.len()
            invariant
                i <= tasks.len(),
                batch == tasks.deep_view(),
                self@.errors == old(self)@.errors,
                self@.tasks == batch_added(log0, batch.take(i as int)),
            decreases tasks.len() - i,
        {
            assert(batch.take(i + 1).drop_last() =~= batch.take(i as int));
            assert(batch.take(i + 1).last() == batch[i as int]);
            let _ = self.insert(tasks[i].duplicate());
            i += 1;
        }
        assert(batch.take(tasks.len() as int) =~= batch);
        self.delete(parent_task_id);
    }

    /// Sets the time from which the task with the id `task_id` may run.
    /// Returns whether such a task was in flight.
    pub fn update_execute_time(&mut self, task_id: &str, execute_time: i64) -> (found: bool)
        ensures
            final(self)@.errors == old(self)@.errors,
            found == old(self)@.tasks.dom().contains(task_id@),
            found ==> final(self)@.tasks == old(self)@.tasks.insert(
                task_id@,
                RawTaskView { execute_time, ..old(self)@.tasks[task_id@] },
            ),
            !found ==> final(self)@.tasks == old(self)@.tasks,
    {
        proof {
            use_type_invariant(&*self);
        }
        match task_position(&self.tasks, task_id) {
            Some(i) => {
                let mut taken = TaskLog { tasks: Vec::new(), errors: Vec::new() };
                std::mem::swap(self, &mut taken);
                let TaskLog { tasks: tasks0, errors } = taken;
                let mut tasks = tasks0;
                let ghost before = tasks.deep_view();
                let mut task = tasks[i].duplicate();
                task.execute_time = execute_time;
                proof {
                    lemma_task_present(before, i as int);
                    lemma_task_replaced(before, i as int, task@);
                }
                tasks.set(i, task);
                assert(tasks.deep_view() =~= before.update(i as int, task@));
                *self = TaskLog { tasks, errors };
                true
            },
            None => {
                proof {
                    lemma_task_absent(self.tasks.deep_view(), task_id@);
                }
                false
            },
        }
    }

    /// Schedules the next try of the task with the id `task_id` at the time
    /// `now`: it counts one try more and is due after the wait that its tries
    /// so far call for. Returns whether such a task was in flight.
    pub fn increase_retry(&mut self, task_id: &str, now: i64) -> (found: bool)
        ensures
            final(self)@.errors == old(self)@.errors,
            found == old(self)@.tasks.dom().contains(task_id@),
            found ==> final(self)@.tasks == old(self)@.tasks.insert(
                task_id@,
                retried(old(self)@.tasks[task_id@], now),
            ),
            !found ==> final(self)@.tasks == old(self)@.tasks,
    {
        proof {
            use_type_invariant(&*self);
        }
        match task_position(&self.tasks, task_id) {
            Some(i) => {
                let mut taken = TaskLog { tasks: Vec::new(), errors: Vec::new() };
                std::mem::swap(self, &mut taken);
                let TaskLog { tasks: tasks0, errors } = taken;
                let mut tasks = tasks0;
                let ghost before = tasks.deep_view();
                let mut task = tasks[i].duplicate();
                task.execute_time = time_after(now, backoff(task.retried_times));
                if task.retried_times < i16::MAX {
                    task.retried_times = task.retried_times + 1;
                }
                proof {
                    lemma_task_present(before, i as int);
                    lemma_task_replaced(before, i as int, task@);
                }
                tasks.set(i, task);
                assert(tasks.deep_view() =~= before.update(i as int, task@));
                *self = TaskLog { tasks, errors };
                true
            },
            None => {
                proof {
                    lemma_task_absent(self.tasks.deep_view(), task_id@);
                }
                false
            },
        }
    }

    /// Ends `task` in failure: in one step its record goes to the end of the
    /// error table with the kind and the message of `err`, and the task
    /// leaves the log.
    pub fn move_to_error(&mut self, err: &NatureError, task: &RawTask)
        ensures
            final(self)@.tasks == old(self)@.tasks.remove(task@.task_id),
            final(self)@.errors == old(self)@.errors.push(
                TaskErrorView { task: task@, err_code: err.kind(), err_msg: err.message() },
            ),
    {
        self.delete(task.task_id.as_str());
        let ghost kept = self@.tasks;
        let mut taken = TaskLog { tasks: Vec::new(), errors: Vec::new() };
        std::mem::swap(self, &mut taken);
        proof {
            use_type_invariant(&taken);
        }
        let TaskLog { tasks, errors: errors0 } = taken;
        let mut errors = errors0;
        let ghost before = errors.deep_view();
        let record = TaskError::new(err, task);
        errors.push(record);
        assert(errors.deep_view() =~= before.push(record@));
        *self = TaskLog { tasks, errors };
    }
}

/// The tasks are in ascending order of the time from which they may run.
pub open spec fn by_execute_time(tasks: Seq<RawTaskView>) -> bool {
    forall|a: int, b: int|
        0 <= a <= b < tasks.len() ==> (#[trigger] tasks[a]).execute_time <= (
        #[trigger] tasks[b]).execute_time
}

/// Some task of the list has the given id.
pub open spec fn listed_id(tasks: Seq<RawTaskView>, id: Seq<char>) -> bool {
    exists|k: int| 0 <= k < tasks.len() && (#[trigger] tasks[k]).task_id == id
}

/// `due` is what asking the log `log` for at most `limit` overdue tasks at
/// the time `now` gives: tasks of the log that may run by now, no task
/// twice, the earliest first, and none left out unless the limit is reached
/// by tasks that are no later.
pub open spec fn overdue_of(
    log: Map<Seq<char>, RawTaskView>,
    now: i64,
    limit: nat,
    due: Seq<RawTaskView>,
) -> bool {
    &&& due.len() <= limit
    &&& by_execute_time(due)
    &&& forall|k: int|
        0 <= k < due.len() ==> log.dom().contains((#[trigger] due[k]).task_id) && log[due[k].task_id]
            == due[k] && due[k].execute_time <= now
    &&& forall|a: int, b: int|
        0 <= a < due.len() && 0 <= b < due.len() && a != b ==> (#[trigger] due[a]).task_id != (
        #[trigger] due[b]).task_id
    &&& forall|id: Seq<char>|
        #![trigger log.dom().contains(id)]
        log.dom().contains(id) && log[id].execute_time <= now ==> listed_id(due, id) || (due.len()
            == limit && forall|k: int|
            0 <= k < due.len() ==> (#[trigger] due[k]).execute_time <= log[id].execute_time)
}

/// The task `x` is accounted for by `due`: it is listed, or the limit is
/// reached by tasks that are no later.
spec fn accounted(due: Seq<RawTaskView>, limit: nat, x: RawTaskView) -> bool {
    listed_id(due, x.task_id) || (due.len() >= limit && forall|k: int|
        0 <= k < limit ==> (#[trigger] due[k]).execute_time <= x.execute_time)
}

/// `due` holds what is overdue among the first `i` tasks of `all`, in order,
/// as far as the limit allows.
spec fn gathered(all: Seq<RawTaskView>, i: int, now: i64, limit: nat, due: Seq<RawTaskView>) -> bool {
    &&& by_execute_time(due)
    &&& forall|k: int|
        0 <= k < due.len() ==> (#[trigger] due[k]).execute_time <= now && exists|j: int|
            0 <= j < i && #[trigger] all[j] == due[k]
    &&& forall|a: int, b: int|
        0 <= a < due.len() && 0 <= b < due.len() && a != b ==> (#[trigger] due[a]).task_id != (
        #[trigger] due[b]).task_id
    &&& forall|j: int|
        0 <= j < i && (#[trigger] all[j]).execute_time <= now ==> accounted(due, limit, all[j])
}

proof fn lemma_gather_insert(
    all: Seq<RawTaskView>,
    i: int,
    now: i64,
    limit: nat,
    due0: Seq<RawTaskView>,
    p: int,
)
    requires
        distinct_keys(by_id(all)),
        0 <= i < all.len(),
        gathered(all, i, now, limit, due0),
        due0.len() <= limit,
        all[i].execute_time <= now,
        0 <= p <= due0.len(),
        forall|k: int| 0 <= k < p ==> (#[trigger] due0[k]).execute_time <= all[i].execute_time,
        forall|k: int|
            p <= k < due0.len() ==> (#[trigger] due0[k]).execute_time > all[i].execute_time,
    ensures
        gathered(all, i + 1, now, limit, due0.insert(p, all[i])),
{
    let t = all[i];
    let due1 = due0.insert(p, t);
    assert forall|k: int| 0 <= k < due1.len() implies #[trigger] due1[k] == (if k < p {
        due0[k]
    } else if k == p {
        t
    } else {
        due0[k - 1]
    }) by {}
    assert(!listed_id(due0, t.task_id)) by {
        if listed_id(due0, t.task_id) {
            let k = choose|k: int| 0 <= k < due0.len() && (#[trigger] due0[k]).task_id == t.task_id;
            let j = choose|j: int| 0 <= j < i && #[trigger] all[j] == due0[k];
            assert(by_id(all)[j].0 == by_id(all)[i].0);
        }
    }
    assert(by_execute_time(due1)) by {
        assert forall|a: int, b: int| 0 <= a <= b < due1.len() implies (
        #[trigger] due1[a]).execute_time <= (#[trigger] due1[b]).execute_time by {
            let a0 = if a < p {
                a
            } else {
                a - 1
            };
            let b0 = if b < p {
                b
            } else {
                b - 1
            };
            if a != p && b != p {
                assert(due0[a0].execute_time <= due0[b0].execute_time);
            } else if a == p && b != p {
                assert(due0[b0].execute_time > t.execute_time);
            } else if a != p && b == p {
                assert(due0[a0].execute_time <= t.execute_time);
            }
        }
    }
    assert forall|k: int| 0 <= k < due1.len() implies (#[trigger] due1[k]).execute_time <= now
        && exists|j: int| 0 <= j < i + 1 && #[trigger] all[j] == due1[k] by {
        if k == p {
            assert(all[i] == due1[k]);
        } else {
            let k0 = if k < p {
                k
            } else {
                k - 1
            };
            assert(due0[k0].execute_time <= now);
            let j = choose|j: int| 0 <= j < i && #[trigger] all[j] == due0[k0];
            assert(all[j] == due1[k]);
        }
    }
    assert forall|a: int, b: int|
        0 <= a < due1.len() && 0 <= b < due1.len() && a != b implies (#[trigger] due1[a]).task_id
        != (#[trigger] due1[b]).task_id by {
        let a0 = if a < p {
            a
        } else {
            a - 1
        };
        let b0 = if b < p {
            b
        } else {
            b - 1
        };
        if a != p && b != p {
            assert(due0[a0].task_id != due0[b0].task_id);
        } else if a == p {
            assert(due0[b0].task_id != t.task_id);
        } else {
            assert(due0[a0].task_id != t.task_id);
        }
    }
    assert forall|j: int| 0 <= j < i + 1 && (#[trigger] all[j]).execute_time <= now implies accounted(
    due1, limit, all[j]) by {
        if j == i {
            assert(due1[p].task_id == all[j].task_id);
        } else {
            assert(accounted(due0, limit, all[j]));
            if listed_id(due0, all[j].task_id) {
                let k = choose|k: int|
                    0 <= k < due0.len() && (#[trigger] due0[k]).task_id == all[j].task_id;
                let k1 = if k < p {
                    k
                } else {
                    k + 1
                };
                assert(due1[k1] == due0[k]);
            } else {
                assert forall|k: int| 0 <= k < limit implies (#[trigger] due1[k]).execute_time
                    <= all[j].execute_time by {
                    if k < p {
                        assert(due0[k].execute_time <= all[j].execute_time);
                    } else if k == p {
                        assert(due0[p].execute_time > t.execute_time);
                        assert(due0[p].execute_time <= all[j].execute_time);
                    } else {
                        assert(due0[k - 1].execute_time <= all[j].execute_time);
                    }
                }
            }
        }
    }
}

proof fn lemma_gather_drop(all: Seq<RawTaskView>, i: int, now: i64, limit: nat, due1: Seq<RawTaskView>)
    requires
        distinct_keys(by_id(all)),
        0 <= i <= all.len(),
        gathered(all, i, now, limit, due1),
        due1.len() == limit + 1,
    ensures
        gathered(all, i, now, limit, due1.drop_last()),
{
    let due2 = due1.drop_last();
    assert forall|k: int| 0 <= k < due2.len() implies #[trigger] due2[k] == due1[k] by {}
    assert(by_execute_time(due2)) by {
        assert forall|a: int, b: int| 0 <= a <= b < due2.len() implies (
        #[trigger] due2[a]).execute_time <= (#[trigger] due2[b]).execute_time by {
            assert(due1[a].execute_time <= due1[b].execute_time);
        }
    }
    assert forall|k: int| 0 <= k < due2.len() implies (#[trigger] due2[k]).execute_time <= now
        && exists|j: int| 0 <= j < i && #[trigger] all[j] == due2[k] by {
        assert(due1[k].execute_time <= now);
        let j = choose|j: int| 0 <= j < i && #[trigger] all[j] == due1[k];
        assert(all[j] == due2[k]);
    }
    assert forall|a: int, b: int|
        0 <= a < due2.len() && 0 <= b < due2.len() && a != b implies (#[trigger] due2[a]).task_id
        != (#[trigger] due2[b]).task_id by {
        assert(due1[a].task_id != due1[b].task_id);
    }
    assert forall|j: int| 0 <= j < i && (#[trigger] all[j]).execute_time <= now implies accounted(
    due2, limit, all[j]) by {
        assert(accounted(due1, limit, all[j]));
        if listed_id(due1, all[j].task_id) {
            let k = choose|k: int|
                0 <= k < due1.len() && (#[trigger] due1[k]).task_id == all[j].task_id;
            if k < due2.len() {
                assert(due2[k].task_id == all[j].task_id);
            } else {
                let w = choose|w: int| 0 <= w < i && #[trigger] all[w] == due1[k];
                if w != j {
                    assert(by_id(all)[w].0 == by_id(all)[j].0);
                }
                assert forall|m: int| 0 <= m < limit implies (#[trigger] due2[m]).execute_time
                    <= all[j].execute_time by {
                    assert(due1[m].execute_time <= due1[k].execute_time);
                }
            }
        } else {
            assert forall|m: int| 0 <= m < limit implies (#[trigger] due2[m]).execute_time
                <= all[j].execute_time by {
                assert(due1[m].execute_time <= all[j].execute_time);
            }
        }
    }
}

proof fn lemma_gather_done(all: Seq<RawTaskView>, now: i64, limit: nat, due: Seq<RawTaskView>)
    requires
        distinct_keys(by_id(all)),
        gathered(all, all.len() as int, now, limit, due),
        due.len() <= limit,
    ensures
        overdue_of(map_of(by_id(all)), now, limit, due),
{
    let log = map_of(by_id(all));
    lemma_map_of_entries(by_id(all));
    assert forall|k: int| 0 <= k < due.len() implies log.dom().contains((#[trigger] due[k]).task_id)
        && log[due[k].task_id] == due[k] && due[k].execute_time <= now by {
        assert(due[k].execute_time <= now);
        let j = choose|j: int| 0 <= j < all.len() && #[trigger] all[j] == due[k];
        lemma_task_present(all, j);
    }
    assert forall|id: Seq<char>|
        #![trigger log.dom().contains(id)]
        log.dom().contains(id) && log[id].execute_time <= now implies listed_id(due, id) || (
        due.len() == limit && forall|k: int|
            0 <= k < due.len() ==> (#[trigger] due[k]).execute_time <= log[id].execute_time) by {
        let j = choose|j: int| 0 <= j < by_id(all).len() && #[trigger] by_id(all)[j].0 == id;
        lemma_task_present(all, j);
        assert(all[j].task_id == id);
        assert(accounted(due, limit, all[j]));
    }
}

impl TaskLog {
    /// The tasks that may run at the time `now`, the earliest first, and at
    /// most `limit` of them.
    pub fn get_overdue(&self, now: i64, limit: usize) -> (due: Vec<RawTask>)
        ensures
            overdue_of(self@.tasks, now, limit as nat, due.deep_view()),
    {
        proof {
            use_type_invariant(self);
        }
        let ghost all = self.tasks.deep_view();
        let mut due: Vec<RawTask> = Vec::new();
        let mut i: usize = 0;
        while i < self.tasks.len()
            invariant
                i <= self.tasks.len(),
                all == self.tasks.deep_view(),
                distinct_keys(by_id(all)),
                due.len() <= limit,
                gathered(all, i as int, now, limit as nat, due.deep_view()),
            decreases self.tasks.len() - i,
        {
            let ghost due0 = due.deep_view();
            if self.tasks[i].execute_time <= now {
                let at = self.tasks[i].execute_time;
                let mut p: usize = 0;
                while p < due.len() && due[p].execute_time <= at
                    invariant
                        p <= due.len(),
                        due.deep_view() == due0,
                        by_execute_time(due0),
                        forall|k: int| 0 <= k < p ==> (#[trigger] due0[k]).execute_time <= at,
                    decreases due.len() - p,
                {
                    p += 1;
                }
                assert forall|k: int| p <= k < due0.len() implies (#[trigger] due0[k]).execute_time
                    > at by {
                    assert(due0[p as int].execute_time <= due0[k].execute_time);
                }
                proof {
                    lemma_gather_insert(all, i as int, now, limit as nat, due0, p as int);
                }
                due.insert(p, self.tasks[i].duplicate());
                assert(due.deep_view() =~= due0.insert(p as int, all[i as int]));
                if due.len() > limit {
                    let ghost due1 = due.deep_view();
                    proof {
                        lemma_gather_drop(all, i + 1, now, limit as nat, due1);
                    }
                    due.pop();
                    assert(due.deep_view() =~= due1.drop_last());
                }
            } else {
                assert(gathered(all, i + 1, now, limit as nat, due0));
            }
            i += 1;
        }
        proof {
            lemma_gather_done(all, now, limit as nat, due.deep_view());
        }
        due
    }
}

} // verus!
