//! Drafts: task bodies on their way to becoming raw tasks. Writing a body
//! down is left to the runtime; a draft carries what came of it.

use crate::common::error::{NatureError, NatureErrorView};
use crate::common::task::{RawTask, RawTaskView, TaskType};
use crate::fg_service::convert::{ConverterInfo, ConverterInfoView};
use crate::task::command::{Message, MessageView};
use crate::task::store::{StoreTaskInfo, StoreTaskInfoView};
use vstd::prelude::*;
use vstd::string::*;

verus! {

/// A store task on its way to the log.
#[derive(Debug, Clone)]
pub enum Draft {
    /// The task could not be made: what it needs could not be loaded.
    Failed(NatureError),
    /// The task was made but its body could not be written down.
    Unwritten(StoreTaskInfo, NatureError),
    /// The task and its body as written down.
    Ready(StoreTaskInfo, String),
}

/// The mathematical content of a [`Draft`].
pub enum DraftView {
    Failed(NatureErrorView),
    Unwritten(StoreTaskInfoView, NatureErrorView),
    Ready(StoreTaskInfoView, Seq<char>),
}

impl View for Draft {
    type V = DraftView;

    open spec fn view(&self) -> DraftView {
        match self {
            Draft::Failed(e) => DraftView::Failed(e@),
            Draft::Unwritten(t, e) => DraftView::Unwritten(t@, e@),
            Draft::Ready(t, body) => DraftView::Ready(t@, body@),
        }
    }
}

impl DeepView for Draft {
    type V = DraftView;

    open spec fn deep_view(&self) -> DraftView {
        self@
    }
}

/// A convert task on its way to the log.
#[derive(Debug, Clone)]
pub enum ConvertDraft {
    /// The task could not be made: the last state of its target could not be
    /// loaded or does not allow the conversion.
    Failed(NatureError),
    /// The task was made but its body could not be written down.
    Unwritten(ConverterInfo, NatureError),
    /// The task and its body as written down.
    Ready(ConverterInfo, String),
}

/// The mathematical content of a [`ConvertDraft`].
pub enum ConvertDraftView {
    Failed(NatureErrorView),
    Unwritten(ConverterInfoView, NatureErrorView),
    Ready(ConverterInfoView, Seq<char>),
}

impl View for ConvertDraft {
    type V = ConvertDraftView;

    open spec fn view(&self) -> ConvertDraftView {
        match self {
            ConvertDraft::Failed(e) => ConvertDraftView::Failed(e@),
            ConvertDraft::Unwritten(t, e) => ConvertDraftView::Unwritten(t@, e@),
            ConvertDraft::Ready(t, body) => ConvertDraftView::Ready(t@, body@),
        }
    }
}

impl DeepView for ConvertDraft {
    type V = ConvertDraftView;

    open spec fn deep_view(&self) -> ConvertDraftView {
        self@
    }
}

/// What becomes of a list of drafts.
pub enum Built {
    /// A task could not be made, for the given reason.
    Stopped(NatureError),
    /// A body could not be written down, for the given reason.
    Unwritable(NatureError),
    /// Every draft became a raw task: the raw tasks, and each beside its
    /// body as the message for the next stage.
    Tasks(Vec<RawTask>, Vec<Message>),
}

/// The mathematical content of a [`Built`].
pub enum BuiltView {
    Stopped(NatureErrorView),
    Unwritable(NatureErrorView),
    Tasks(Seq<RawTaskView>, Seq<MessageView>),
}

impl View for Built {
    type V = BuiltView;

    open spec fn view(&self) -> BuiltView {
        match self {
            Built::Stopped(e) => BuiltView::Stopped(e@),
            Built::Unwritable(e) => BuiltView::Unwritable(e@),
            Built::Tasks(raws, messages) => BuiltView::Tasks(raws.deep_view(), messages.deep_view()),
        }
    }
}

/// The routing key of the store task for `task`: `key` where one is given,
/// else the meta of the instance.
pub open spec fn store_key(key: Option<Seq<char>>, task: StoreTaskInfoView) -> Seq<char> {
    match key {
        Some(k) => k,
        None => task.instance.meta,
    }
}

/// What becomes of store drafts at the time `now`: the first draft in order
/// that failed or could not be written decides; otherwise every draft
/// becomes a store task.
pub open spec fn store_tasks_built(drafts: Seq<DraftView>, key: Option<Seq<char>>, now: i64) -> BuiltView
    decreases drafts.len(),
{
    if drafts.len() == 0 {
        BuiltView::Tasks(Seq::empty(), Seq::empty())
    } else {
        match store_tasks_built(drafts.drop_last(), key, now) {
            BuiltView::Tasks(raws, messages) => match drafts.last() {
                DraftView::Failed(e) => BuiltView::Stopped(e),
                DraftView::Unwritten(_, e) => BuiltView::Unwritable(e),
                DraftView::Ready(task, body) => {
                    let raw = RawTaskView::fresh(body, store_key(key, task), TaskType::Store, now);
                    BuiltView::Tasks(raws.push(raw), messages.push(MessageView::Store(task, raw)))
                },
            },
            other => other,
        }
    }
}

/// What becomes of convert drafts at the time `now`: the first draft in
/// order that failed or could not be written decides; otherwise every draft
/// becomes a convert task under the key of its target meta.
pub open spec fn convert_tasks_built(drafts: Seq<ConvertDraftView>, now: i64) -> BuiltView
    decreases drafts.len(),
{
    if drafts.len() == 0 {
        BuiltView::Tasks(Seq::empty(), Seq::empty())
    } else {
        match convert_tasks_built(drafts.drop_last(), now) {
            BuiltView::Tasks(raws, messages) => match drafts.last() {
                ConvertDraftView::Failed(e) => BuiltView::Stopped(e),
                ConvertDraftView::Unwritten(_, e) => BuiltView::Unwritable(e),
                ConvertDraftView::Ready(info, body) => {
                    let raw = RawTaskView::fresh(body, info.target.to.key, TaskType::Convert, now);
                    BuiltView::Tasks(raws.push(raw), messages.push(MessageView::Convert(info, raw)))
                },
            },
            other => other,
        }
    }
}

/// The raw task that a message carries.
pub open spec fn carried(message: MessageView) -> Option<RawTaskView> {
    match message {
        MessageView::Store(_, raw) => Some(raw),
        MessageView::Stored(_, raw) => Some(raw),
        MessageView::Convert(_, raw) => Some(raw),
        MessageView::Converted(_, _) => None,
    }
}

/// The ids of the tasks of a batch, in order.
pub open spec fn ids_of(batch: Seq<RawTaskView>) -> Seq<Seq<char>> {
    Seq::new(batch.len(), |i: int| batch[i].task_id)
}

/// Nothing goes to a stage that is not in the batch: where store drafts
/// become tasks, there is one message per task, and each message carries its
/// task.
pub proof fn lemma_store_messages_carry_the_batch(
    drafts: Seq<DraftView>,
    key: Option<Seq<char>>,
    now: i64,
)
    requires
        store_tasks_built(drafts, key, now) is Tasks,
    ensures
        store_tasks_built(drafts, key, now)->Tasks_0.len() == drafts.len(),
        store_tasks_built(drafts, key, now)->Tasks_1.len() == drafts.len(),
        forall|i: int|
            0 <= i < drafts.len() ==> carried(
                #[trigger] store_tasks_built(drafts, key, now)->Tasks_1[i],
            ) == Some(store_tasks_built(drafts, key, now)->Tasks_0[i]),
    decreases drafts.len(),
{
    if drafts.len() > 0 {
        lemma_store_messages_carry_the_batch(drafts.drop_last(), key, now);
    }
}

/// Nothing goes to a stage that is not in the batch: where convert drafts
/// become tasks, there is one message per task, and each message carries its
/// task.
pub proof fn lemma_convert_messages_carry_the_batch(drafts: Seq<ConvertDraftView>, now: i64)
    requires
        convert_tasks_built(drafts, now) is Tasks,
    ensures
        convert_tasks_built(drafts, now)->Tasks_0.len() == drafts.len(),
        convert_tasks_built(drafts, now)->Tasks_1.len() == drafts.len(),
        forall|i: int|
            0 <= i < drafts.len() ==> carried(
                #[trigger] convert_tasks_built(drafts, now)->Tasks_1[i],
            ) == Some(convert_tasks_built(drafts, now)->Tasks_0[i]),
    decreases drafts.len(),
{
    if drafts.len() > 0 {
        lemma_convert_messages_carry_the_batch(drafts.drop_last(), now);
    }
}

/// Idempotent re-entry: making the same store drafts into tasks at another
/// time gives tasks with the same ids, in the same order.
pub proof fn lemma_store_ids_do_not_depend_on_time(
    drafts: Seq<DraftView>,
    key: Option<Seq<char>>,
    first: i64,
    second: i64,
)
    requires
        store_tasks_built(drafts, key, first) is Tasks,
    ensures
        store_tasks_built(drafts, key, second) is Tasks,
        ids_of(store_tasks_built(drafts, key, second)->Tasks_0) == ids_of(
            store_tasks_built(drafts, key, first)->Tasks_0,
        ),
    decreases drafts.len(),
{
    if drafts.len() > 0 {
        let rest = drafts.drop_last();
        lemma_store_ids_do_not_depend_on_time(rest, key, first, second);
        lemma_store_messages_carry_the_batch(rest, key, first);
        lemma_store_messages_carry_the_batch(rest, key, second);
        let r1 = store_tasks_built(rest, key, first)->Tasks_0;
        let r2 = store_tasks_built(rest, key, second)->Tasks_0;
        let b1 = store_tasks_built(drafts, key, first)->Tasks_0;
        let b2 = store_tasks_built(drafts, key, second)->Tasks_0;
        assert forall|i: int| 0 <= i < b1.len() implies b2[i].task_id == b1[i].task_id by {
            if i < r1.len() {
                assert(ids_of(r2)[i] == ids_of(r1)[i]);
            }
        }
    }
    assert(ids_of(store_tasks_built(drafts, key, second)->Tasks_0) =~= ids_of(
        store_tasks_built(drafts, key, first)->Tasks_0,
    ));
}

/// Idempotent re-entry: making the same convert drafts into tasks at another
/// time gives tasks with the same ids, in the same order.
pub proof fn lemma_convert_ids_do_not_depend_on_time(
    drafts: Seq<ConvertDraftView>,
    first: i64,
    second: i64,
)
    requires
        convert_tasks_built(drafts, first) is Tasks,
    ensures
        convert_tasks_built(drafts, second) is Tasks,
        ids_of(convert_tasks_built(drafts, second)->Tasks_0) == ids_of(
            convert_tasks_built(drafts, first)->Tasks_0,
        ),
    decreases drafts.len(),
{
    if drafts.len() > 0 {
        let rest = drafts.drop_last();
        lemma_convert_ids_do_not_depend_on_time(rest, first, second);
        lemma_convert_messages_carry_the_batch(rest, first);
        lemma_convert_messages_carry_the_batch(rest, second);
        let r1 = convert_tasks_built(rest, first)->Tasks_0;
        let r2 = convert_tasks_built(rest, second)->Tasks_0;
        let b1 = convert_tasks_built(drafts, first)->Tasks_0;
        let b2 = convert_tasks_built(drafts, second)->Tasks_0;
        assert forall|i: int| 0 <= i < b1.len() implies b2[i].task_id == b1[i].task_id by {
            if i < r1.len() {
                assert(ids_of(r2)[i] == ids_of(r1)[i]);
            }
        }
    }
    assert(ids_of(convert_tasks_built(drafts, second)->Tasks_0) =~= ids_of(
        convert_tasks_built(drafts, first)->Tasks_0,
    ));
}

proof fn lemma_store_failure_stays(drafts: Seq<DraftView>, key: Option<Seq<char>>, now: i64, k: int)
    requires
        0 <= k <= drafts.len(),
        !(store_tasks_built(drafts.take(k), key, now) is Tasks),
    ensures
        store_tasks_built(drafts, key, now) == store_tasks_built(drafts.take(k), key, now),
    decreases drafts.len() - k,
{
    if k < drafts.len() {
        assert(drafts.take(k + 1).drop_last() =~= drafts.take(k));
        lemma_store_failure_stays(drafts, key, now, k + 1);
    } else {
        assert(drafts.take(k) =~= drafts);
    }
}

proof fn lemma_convert_failure_stays(drafts: Seq<ConvertDraftView>, now: i64, k: int)
    requires
        0 <= k <= drafts.len(),
        !(convert_tasks_built(drafts.take(k), now) is Tasks),
    ensures
        convert_tasks_built(drafts, now) == convert_tasks_built(drafts.take(k), now),
    decreases drafts.len() - k,
{
    if k < drafts.len() {
        assert(drafts.take(k + 1).drop_last() =~= drafts.take(k));
        lemma_convert_failure_stays(drafts, now, k + 1);
    } else {
        assert(drafts.take(k) =~= drafts);
    }
}

/// Makes the store drafts into raw tasks at the time `now`, under the
/// routing key `key` or, where none is given, under the meta of each
/// instance.
pub fn build_store_tasks(drafts: Vec<Draft>, key: Option<&str>, now: i64) -> (r: Built)
    ensures
        r@ == store_tasks_built(
            drafts.deep_view(),
            match key {
                Some(k) => Some(k@),
                None => None,
            },
            now,
        ),
{
    let ghost all = drafts.deep_view();
    let ghost k = match key {
        Some(k) => Some(k@),
        None => None,
    };
    let mut pending = drafts;
    let mut raws: Vec<RawTask> = Vec::new();
    let mut messages: Vec<Message> = Vec::new();
    let mut rest: Vec<Draft> = Vec::new();
    while pending.len() > 0
        invariant
            all == pending.deep_view() + rest.deep_view().reverse(),
        decreases pending.len(),
    {
        let ghost d0 = pending.deep_view();
        let ghost r0 = rest.deep_view();
        match pending.pop() {
            Some(d) => {
                rest.push(d);
                assert(pending.deep_view() =~= d0.drop_last());
                assert(rest.deep_view() =~= r0.push(d0.last()));
                assert(rest.deep_view().reverse() =~= seq![d0.last()] + r0.reverse());
                assert(d0 =~= d0.drop_last() + seq![d0.last()]);
                assert(pending.deep_view() + rest.deep_view().reverse() =~= d0 + r0.reverse());
            },
            None => {},
        }
    }
    assert(pending.deep_view() =~= Seq::<DraftView>::empty());
    assert(all =~= rest.deep_view().reverse());
    let ghost mut done: int = 0;
    assert(all.take(0) =~= Seq::<DraftView>::empty());
    assert(raws.deep_view() =~= Seq::<RawTaskView>::empty());
    assert(messages.deep_view() =~= Seq::<MessageView>::empty());
    while rest.len() > 0
        invariant
            0 <= done <= all.len(),
            all == drafts.deep_view(),
            rest.len() == all.len() - done,
            all.skip(done) == rest.deep_view().reverse(),
            k == (match key {
                Some(k) => Some(k@),
                None => None,
            }),
            store_tasks_built(all.take(done), k, now) == BuiltView::Tasks(
                raws.deep_view(),
                messages.deep_view(),
            ),
        decreases rest.len(),
    {
        let ghost r0 = rest.deep_view();
        assert(all.take(done + 1).drop_last() =~= all.take(done));
        assert(all.take(done + 1).last() == all[done]);
        assert(all.skip(done)[0] == r0.reverse()[0]);
        assert(r0.reverse()[0] == r0.last());
        match rest.pop() {
            Some(Draft::Failed(e)) => {
                proof {
                    lemma_store_failure_stays(all, k, now, done + 1);
                }
                return Built::Stopped(e);
            },
            Some(Draft::Unwritten(_, e)) => {
                proof {
                    lemma_store_failure_stays(all, k, now, done + 1);
                }
                return Built::Unwritable(e);
            },
            Some(Draft::Ready(task, body)) => {
                let raw = match key {
                    Some(k) => RawTask::new(body.as_str(), k, TaskType::Store, now),
                    None => RawTask::new(
                        body.as_str(),
                        task.instance.meta.as_str(),
                        TaskType::Store,
                        now,
                    ),
                };
                let ghost raws0 = raws.deep_view();
                let ghost messages0 = messages.deep_view();
                raws.push(raw.duplicate());
                let message = Message::Store(task, raw);
                messages.push(message);
                assert(raws.deep_view() =~= raws0.push(raw@));
                assert(messages.deep_view() =~= messages0.push(message@));
                proof {
                    assert(rest.deep_view() =~= r0.drop_last());
                    assert(all.skip(done + 1) =~= all.skip(done).skip(1));
                    assert(r0.reverse().skip(1) =~= r0.drop_last().reverse());
                    done = done + 1;
                }
            },
            None => {},
        }
    }
    assert(all.take(done) =~= all);
    Built::Tasks(raws, messages)
}

/// Makes the convert drafts into raw tasks at the time `now`, each under the
/// key of its target meta.
pub fn build_convert_tasks(drafts: Vec<ConvertDraft>, now: i64) -> (r: Built)
    ensures
        r@ == convert_tasks_built(drafts.deep_view(), now),
{
    let ghost all = drafts.deep_view();
    let mut pending = drafts;
    let mut raws: Vec<RawTask> = Vec::new();
    let mut messages: Vec<Message> = Vec::new();
    let mut rest: Vec<ConvertDraft> = Vec::new();
    while pending.len() > 0
        invariant
            all == pending.deep_view() + rest.deep_view().reverse(),
        decreases pending.len(),
    {
        let ghost d0 = pending.deep_view();
        let ghost r0 = rest.deep_view();
        match pending.pop() {
            Some(d) => {
                rest.push(d);
                assert(pending.deep_view() =~= d0.drop_last());
                assert(rest.deep_view() =~= r0.push(d0.last()));
                assert(rest.deep_view().reverse() =~= seq![d0.last()] + r0.reverse());
                assert(d0 =~= d0.drop_last() + seq![d0.last()]);
                assert(pending.deep_view() + rest.deep_view().reverse() =~= d0 + r0.reverse());
            },
            None => {},
        }
    }
    assert(pending.deep_view() =~= Seq::<ConvertDraftView>::empty());
    assert(all =~= rest.deep_view().reverse());
    let ghost mut done: int = 0;
    assert(all.take(0) =~= Seq::<ConvertDraftView>::empty());
    assert(raws.deep_view() =~= Seq::<RawTaskView>::empty());
    assert(messages.deep_view() =~= Seq::<MessageView>::empty());
    while rest.len() > 0
        invariant
            0 <= done <= all.len(),
            all == drafts.deep_view(),
            rest.len() == all.len() - done,
            all.skip(done) == rest.deep_view().reverse(),
            convert_tasks_built(all.take(done), now) == BuiltView::Tasks(
                raws.deep_view(),
                messages.deep_view(),
            ),
        decreases rest.len(),
    {
        let ghost r0 = rest.deep_view();
        assert(all.take(done + 1).drop_last() =~= all.take(done));
        assert(all.take(done + 1).last() == all[done]);
        assert(all.skip(done)[0] == r0.reverse()[0]);
        assert(r0.reverse()[0] == r0.last());
        match rest.pop() {
            Some(ConvertDraft::Failed(e)) => {
                proof {
                    lemma_convert_failure_stays(all, now, done + 1);
                }
                return Built::Stopped(e);
            },
            Some(ConvertDraft::Unwritten(_, e)) => {
                proof {
                    lemma_convert_failure_stays(all, now, done + 1);
                }
                return Built::Unwritable(e);
            },
            Some(ConvertDraft::Ready(info, body)) => {
                let raw = RawTask::new(
                    body.as_str(),
                    info.target.to.key.as_str(),
                    TaskType::Convert,
                    now,
                );
                let ghost raws0 = raws.deep_view();
                let ghost messages0 = messages.deep_view();
                raws.push(raw.duplicate());
                let message = Message::Convert(info, raw);
                messages.push(message);
                assert(raws.deep_view() =~= raws0.push(raw@));
                assert(messages.deep_view() =~= messages0.push(message@));
                proof {
                    assert(rest.deep_view() =~= r0.drop_last());
                    assert(all.skip(done + 1) =~= all.skip(done).skip(1));
                    assert(r0.reverse().skip(1) =~= r0.drop_last().reverse());
                    done = done + 1;
                }
            },
            None => {},
        }
    }
    assert(all.take(done) =~= all);
    Built::Tasks(raws, messages)
}

} // verus!
