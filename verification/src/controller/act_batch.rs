//! The batch stage: many root instances handed in as one task.

use crate::common::error::{NatureError, NatureErrorView};
use crate::common::task::{RawTask, RawTaskView};
use crate::task::command::{failure_command, Command, CommandView};
use crate::task::draft::{build_store_tasks, store_tasks_built, Built, BuiltView, Draft, DraftView};
use vstd::prelude::*;
use vstd::string::*;

verus! {

/// What a batch comes to: the first draft in order that could not be made
/// or written gives the error; else all drafts are saved in one batch that
/// finishes the batch task and then go on to the store stage, each filed
/// under the meta of its instance.
pub open spec fn batch_outcome(raw: RawTaskView, drafts: Seq<DraftView>, now: i64) -> Result<
    CommandView,
    NatureErrorView,
> {
    match store_tasks_built(drafts, None, now) {
        BuiltView::Tasks(batch, send) => Ok(
            CommandView::SaveAndSend { batch, parent_id: raw.task_id, send },
        ),
        BuiltView::Stopped(e) => Err(e),
        BuiltView::Unwritable(e) => Err(e),
    }
}

/// The batch stage: decides what follows for the batch task `raw` at the
/// time `now`, given the instances of the batch drafted as store tasks. A
/// batch that can not be carried out because a collaborator was unreachable
/// stays in the log for its next try; one that can not be carried out for
/// any other reason ends in failure.
pub fn channel_batch(raw: RawTask, drafts: Vec<Draft>, now: i64) -> (r: Command)
    ensures
        r@ == (match batch_outcome(raw@, drafts.deep_view(), now) {
            Ok(c) => c,
            Err(e) => failure_command(e, raw@, now),
        }),
{
    match inner_batch(&raw, drafts, now) {
        Err(e) => Command::for_failure(e, raw, now),
        Ok(c) => c,
    }
}

/// Makes the drafts of a batch into store tasks and says how they reach the
/// log, or why the batch can not be carried out.
pub fn inner_batch(raw: &RawTask, drafts: Vec<Draft>, now: i64) -> (r: Result<
    Command,
    NatureError,
>)
    ensures
        match r {
            Ok(c) => batch_outcome(raw@, drafts.deep_view(), now) == Ok::<
                CommandView,
                NatureErrorView,
            >(c@),
            Err(e) => batch_outcome(raw@, drafts.deep_view(), now) == Err::<
                CommandView,
                NatureErrorView,
            >(e@),
        },
{
    match build_store_tasks(drafts, None, now) {
        Built::Tasks(store_infos, t_d) => Ok(
            Command::SaveAndSend { batch: store_infos, parent_id: raw.task_id.clone(), send: t_d },
        ),
        Built::Stopped(e) => Err(e),
        Built::Unwritable(e) => Err(e),
    }
}

} // verus!
