//! The way in: a single instance handed to the engine.

use crate::common::error::NatureError;
use crate::common::instance::Instance;
use crate::common::mission::MissionView;
use crate::common::task::{RawTask, RawTaskView, TaskType};
use crate::task::command::{failure_command, Command, CommandView};
use crate::task::store::{StoreTaskInfo, StoreTaskInfoView};
use vstd::prelude::*;
use vstd::string::*;

verus! {

/// The line that an instance goes down from input to storage.
#[derive(Debug, Clone, Copy)]
pub struct ProcessLine;

impl ProcessLine {
    /// Takes in an instance that starts a chain of changes: makes its store
    /// task at the time `now` from the body as written down, filed under the
    /// meta of the instance. Where the body could not be written, the reason
    /// is handed back and no task is made.
    pub fn single_input(instance: Instance, body: Result<String, NatureError>, now: i64) -> (r:
        Result<(StoreTaskInfo, RawTask), NatureError>)
        ensures
            match r {
                Ok(pair) => {
                    &&& body matches Ok(b)
                    &&& pair.0@ == (StoreTaskInfoView {
                        instance: instance@,
                        upstream: None,
                        mission: Seq::<MissionView>::empty(),
                        need_cache: false,
                    })
                    &&& pair.1@ == RawTaskView::fresh(b@, instance@.meta, TaskType::Store, now)
                },
                Err(e) => body matches Err(x) && e@ == x@,
            },
    {
        match body {
            Err(e) => Err(e),
            Ok(b) => {
                let carrier = RawTask::new(b.as_str(), instance.meta.as_str(), TaskType::Store, now);
                let task = StoreTaskInfo::new(instance, Vec::new(), None, false);
                assert(task@.mission =~= Seq::<MissionView>::empty());
                Ok((task, carrier))
            },
        }
    }

    /// Decides what follows at the time `now` once a received store task has
    /// gone through the store stage: if that failed because a collaborator
    /// was unreachable, the task stays in the log for its next try; if it
    /// failed for any other reason, the task ends in failure.
    pub fn store_for_receive(carrier: RawTask, stored: Result<u64, NatureError>, now: i64) -> (r:
        Command)
        ensures
            r@ == (match stored {
                Ok(_) => CommandView::Rest,
                Err(e) => failure_command(e@, carrier@, now),
            }),
    {
        match stored {
            Ok(_) => Command::Rest,
            Err(err) => Command::for_failure(err, carrier, now),
        }
    }

    /// Ends the task `carrier` in failure for the reason `err`.
    pub fn move_to_err(err: NatureError, carrier: RawTask) -> (r: Command)
        ensures
            r@ == (CommandView::ToError { error: err@, task: carrier@ }),
    {
        Command::ToError { error: err, task: carrier }
    }
}

} // verus!
