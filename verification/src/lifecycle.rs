//! What holds of tasks over their whole life: laws that relate the operations of the manager.

use crate::bt::{is_bt, monitor_reports, TorrentSnapshot};
use crate::engine::EventView;
use crate::manager::{ErrorView, ManagerView, StartView, TransferAction};
use crate::manager::{event_task, index_from, index_from_is_first, list_after, list_after_all};
use crate::manager::{restored, takes_progress, task_after, task_for, task_index};
use crate::paths::{PlaceView, Platform};
use crate::task::{BtExtraView, TaskStatus, TaskType, TaskView, Timestamp};
use vstd::prelude::*;

verus! {

/// No two tasks have the same id.
pub open spec fn unique_ids(list: Seq<TaskView>) -> bool {
    forall|i: int, j: int|
        0 <= i < list.len() && 0 <= j < list.len() && (#[trigger] list[i]).id == (
        #[trigger] list[j]).id ==> i == j
}

/// Whether two lists hold the same ids in the same order.
pub open spec fn same_ids(a: Seq<TaskView>, b: Seq<TaskView>) -> bool {
    a.len() == b.len() && forall|i: int|
        0 <= i < a.len() ==> (#[trigger] a[i]).id == (#[trigger] b[i]).id
}

/// Where a task stands depends on the ids alone.
pub proof fn position_depends_on_ids(a: Seq<TaskView>, b: Seq<TaskView>, id: Seq<char>, from: int)
    requires
        same_ids(a, b),
        0 <= from,
    ensures
        index_from(a, id, from) == index_from(b, id, from),
    decreases a.len() - from,
{
    if from < a.len() {
        assert(a[from].id == b[from].id);
        position_depends_on_ids(a, b, id, from + 1);
    }
}

/// A report never changes what a task is: its id, link, place, type and time of addition.
pub proof fn event_keeps_identity(task: TaskView, event: EventView)
    ensures
        task_after(task, event).id == task.id,
        task_after(task, event).url == task.url,
        task_after(task, event).save_path == task.save_path,
        task_after(task, event).task_type == task.task_type,
        task_after(task, event).created_at == task.created_at,
        task_after(task, event).chunks.len() == task.chunks.len(),
{
}

/// A report neither adds, removes nor moves a task, and changes only the one it is about.
pub proof fn event_touches_one_task(list: Seq<TaskView>, event: EventView)
    ensures
        same_ids(list_after(list, event), list),
        forall|i: int|
            0 <= i < list.len() && list[i].id != event_task(event) ==> #[trigger] list_after(
                list,
                event,
            )[i] == list[i],
{
    index_from_is_first(list, event_task(event), 0);
}

/// A report about a task that is not there changes nothing.
pub proof fn stray_event_is_ignored(list: Seq<TaskView>, event: EventView)
    requires
        forall|i: int| 0 <= i < list.len() ==> (#[trigger] list[i]).id != event_task(event),
    ensures
        list_after(list, event) == list,
{
    index_from_is_first(list, event_task(event), 0);
}

/// A report of progress that comes after its task was paused or stopped, has failed or is
/// complete, does not make it move again: only the details shown of a torrent may change.
pub proof fn late_progress_is_ignored(task: TaskView, event: EventView)
    requires
        event is Progress,
        !takes_progress(task.status),
    ensures
        task_after(task, event) == (TaskView {
            bt_extra: task_after(task, event).bt_extra,
            ..task
        }),
{
}

/// Reports about different tasks can be taken in in either order.
pub proof fn events_of_different_tasks_commute(list: Seq<TaskView>, a: EventView, b: EventView)
    requires
        event_task(a) != event_task(b),
    ensures
        list_after(list_after(list, a), b) == list_after(list_after(list, b), a),
{
    let x = list_after(list, a);
    let y = list_after(list, b);
    event_touches_one_task(list, a);
    event_touches_one_task(list, b);
    position_depends_on_ids(x, list, event_task(b), 0);
    position_depends_on_ids(y, list, event_task(a), 0);
    index_from_is_first(list, event_task(a), 0);
    index_from_is_first(list, event_task(b), 0);
    assert(list_after(x, b) =~= list_after(y, a));
}

/// A report that is taken in twice counts once.
pub proof fn repeated_event_counts_once(list: Seq<TaskView>, event: EventView)
    ensures
        list_after(list_after(list, event), event) == list_after(list, event),
{
    let once = list_after(list, event);
    event_touches_one_task(list, event);
    position_depends_on_ids(once, list, event_task(event), 0);
    index_from_is_first(list, event_task(event), 0);
    if let Some(i) = task_index(list, event_task(event)) {
        assert(task_after(once[i], event) =~= once[i]);
    }
    assert(list_after(once, event) =~= once);
}

/// Any number of reports neither adds, removes nor moves a task.
pub proof fn events_keep_ids(list: Seq<TaskView>, events: Seq<EventView>)
    ensures
        same_ids(list_after_all(list, events), list),
    decreases events.len(),
{
    if events.len() > 0 {
        let before = list_after_all(list, events.drop_last());
        events_keep_ids(list, events.drop_last());
        event_touches_one_task(before, events.last());
        let after = list_after(before, events.last());
        assert forall|i: int| 0 <= i < after.len() implies (#[trigger] after[i]).id == (
        #[trigger] list[i]).id by {
            assert(after[i].id == before[i].id);
        }
    }
}

/// Whatever was reported before, a task that is reported complete is complete and at rest.
pub proof fn completion_is_final(list: Seq<TaskView>, events: Seq<EventView>, id: Seq<char>)
    requires
        task_index(list, id) is Some,
    ensures
        ({
            let i = task_index(list, id)->0;
            let before = list_after_all(list, events);
            list_after_all(list, events.push(EventView::Completed { task_id: id })) == before.update(
                i,
                TaskView { status: TaskStatus::Completed, speed: 0, ..before[i] },
            )
        }),
{
    let done = EventView::Completed { task_id: id };
    let before = list_after_all(list, events);
    events_keep_ids(list, events);
    position_depends_on_ids(before, list, id, 0);
    assert(events.push(done).drop_last() =~= events);
}

/// A report that a transfer failed marks its task as failed, and keeps the reason.
pub proof fn failure_is_kept(list: Seq<TaskView>, id: Seq<char>, message: Seq<char>)
    requires
        task_index(list, id) is Some,
    ensures
        ({
            let after = list_after(list, EventView::Error { task_id: id, message });
            let i = task_index(list, id)->0;
            after[i].status == TaskStatus::Failed && after[i].error_message == Some(message)
        }),
{
    index_from_is_first(list, id, 0);
}

impl ManagerView {
    /// Starting a task twice is starting it once: the second time nothing is to be done.
    pub proof fn second_start_does_nothing(self, id: Seq<char>, token: u64, other: u64)
        requires
            self.started(id, token).0 is Ok,
        ensures
            self.started(id, token).1.started(id, other).0 == Ok::<_, crate::manager::ErrorView>(
                StartView::Nothing,
            ),
            self.started(id, token).1.started(id, other).1 == self.started(id, token).1,
    {
        let next = self.started(id, token).1;
        index_from_is_first(self.tasks, id, 0);
        assert(same_ids(next.tasks, self.tasks));
        position_depends_on_ids(next.tasks, self.tasks, id, 0);
    }

    /// What is refused changes nothing.
    pub proof fn refused_start_changes_nothing(self, id: Seq<char>, token: u64)
        requires
            self.started(id, token).0 is Err,
        ensures
            self.started(id, token).1 == self,
    {
    }

    /// A task that was paused or stopped can be started again, and goes on with what it has: an
    /// HTTP task always, a torrent where there is an engine.
    pub proof fn halted_task_can_start_again(self, id: Seq<char>, status: TaskStatus, token: u64)
        requires
            task_index(self.tasks, id) is Some,
            status == TaskStatus::Paused || status == TaskStatus::Stopped,
            self.tasks[task_index(self.tasks, id)->0].task_type == TaskType::Http
                || self.bt_available,
        ensures
            ({
                let i = task_index(self.tasks, id)->0;
                let at_rest = self.released(id).1.halted(id, status);
                let (outcome, running) = at_rest.started(id, token);
                &&& at_rest.tasks[i] == (TaskView { status, speed: 0, ..self.tasks[i] })
                &&& outcome == Ok::<_, crate::manager::ErrorView>(
                    match self.tasks[i].task_type {
                        TaskType::Http => StartView::Http(at_rest.tasks[i]),
                        TaskType::BitTorrent => StartView::BitTorrent(self.tasks[i].url),
                    },
                )
                &&& running.tasks[i] == (TaskView {
                    status: TaskStatus::Downloading,
                    speed: 0,
                    ..self.tasks[i]
                })
            }),
    {
        index_from_is_first(self.tasks, id, 0);
        let at_rest = self.released(id).1.halted(id, status);
        assert(same_ids(at_rest.tasks, self.tasks));
        position_depends_on_ids(at_rest.tasks, self.tasks, id, 0);
    }

    /// The transfer that a start set going is the one that the next halt cancels.
    pub proof fn halt_cancels_what_start_began(self, id: Seq<char>, token: u64)
        requires
            self.started(id, token).0 matches Ok(StartView::Http(_)),
        ensures
            self.started(id, token).1.released(id).0 == Some(TransferAction::Cancel(token)),
    {
        let next = self.started(id, token).1;
        index_from_is_first(self.tasks, id, 0);
        assert(same_ids(next.tasks, self.tasks));
        position_depends_on_ids(next.tasks, self.tasks, id, 0);
    }

    /// A token is handed out once: halting an HTTP task again cancels nothing.
    pub proof fn second_halt_cancels_nothing(self, id: Seq<char>)
        requires
            task_index(self.tasks, id) is Some,
            self.tasks[task_index(self.tasks, id)->0].task_type == TaskType::Http,
        ensures
            self.released(id).1.released(id).0 == Some(TransferAction::Nothing),
            self.released(id).1.released(id).1 == self.released(id).1,
    {
        let next = self.released(id).1;
        assert(next.cancel_tokens.remove(id) =~= next.cancel_tokens);
    }

    /// Ending a transfer does not touch the tasks.
    pub proof fn release_keeps_tasks(self, id: Seq<char>)
        ensures
            self.released(id).1.tasks == self.tasks,
    {
    }

    /// A task that was removed is gone, and the others are as they were, in the same order.
    pub proof fn removed_task_is_gone(self, id: Seq<char>)
        requires
            unique_ids(self.tasks),
        ensures
            task_index(self.without(id).tasks, id) is None,
            unique_ids(self.without(id).tasks),
            forall|other: Seq<char>|
                other != id ==> (#[trigger] task_index(self.without(id).tasks, other) is Some
                    <==> task_index(self.tasks, other) is Some),
            self.without(id).tasks == self.tasks.filter(|t: TaskView| t.id != id),
    {
        let left = self.without(id).tasks;
        index_from_is_first(self.tasks, id, 0);
        index_from_is_first(left, id, 0);
        let keep = |t: TaskView| t.id != id;
        match task_index(self.tasks, id) {
            Some(k) => {
                filter_drops_one(self.tasks, id, k);
                assert forall|i: int| 0 <= i < left.len() implies (#[trigger] left[i]).id
                    != id by {
                    let j = if i < k {
                        i
                    } else {
                        i + 1
                    };
                    assert(left[i] == self.tasks[j]);
                    assert(self.tasks[j].id != self.tasks[k].id);
                }
                assert forall|i: int, j: int|
                    0 <= i < left.len() && 0 <= j < left.len() && (#[trigger] left[i]).id == (
                    #[trigger] left[j]).id implies i == j by {
                    let a = if i < k {
                        i
                    } else {
                        i + 1
                    };
                    let b = if j < k {
                        j
                    } else {
                        j + 1
                    };
                    assert(self.tasks[a].id == self.tasks[b].id);
                }
                assert forall|other: Seq<char>| other != id implies (#[trigger] task_index(
                    left,
                    other,
                ) is Some <==> task_index(self.tasks, other) is Some) by {
                    index_from_is_first(left, other, 0);
                    index_from_is_first(self.tasks, other, 0);
                    if let Some(i) = task_index(left, other) {
                        let j = if i < k {
                            i
                        } else {
                            i + 1
                        };
                        assert(self.tasks[j].id == other);
                    }
                    if let Some(j) = task_index(self.tasks, other) {
                        let i = if j < k {
                            j
                        } else {
                            j - 1
                        };
                        assert(left[i].id == other);
                    }
                }
            },
            None => {
                filter_keeps_all(self.tasks, id);
            },
        }
    }
}

/// Whether a list holds an HTTP task with a given id.
pub open spec fn has_http_task(list: Seq<TaskView>, id: Seq<char>) -> bool {
    exists|i: int|
        0 <= i < list.len() && (#[trigger] list[i]).id == id && list[i].task_type == TaskType::Http
}

impl ManagerView {
    /// Whether tokens are kept for HTTP tasks of the list alone.
    pub open spec fn tokens_have_tasks(self) -> bool {
        forall|id: Seq<char>| #[trigger]
            self.cancel_tokens.dom().contains(id) ==> has_http_task(self.tasks, id)
    }

    proof fn tokens_survive(self, next: ManagerView)
        requires
            self.tokens_have_tasks(),
            same_ids(next.tasks, self.tasks),
            forall|i: int|
                0 <= i < self.tasks.len() ==> (#[trigger] next.tasks[i]).task_type
                    == self.tasks[i].task_type,
            forall|id: Seq<char>| #[trigger]
                next.cancel_tokens.dom().contains(id) ==> self.cancel_tokens.dom().contains(id)
                    || has_http_task(next.tasks, id),
        ensures
            next.tokens_have_tasks(),
    {
        assert forall|id: Seq<char>| #[trigger]
            next.cancel_tokens.dom().contains(id) implies has_http_task(next.tasks, id) by {
            if self.cancel_tokens.dom().contains(id) {
                let i = choose|i: int|
                    0 <= i < self.tasks.len() && (#[trigger] self.tasks[i]).id == id
                        && self.tasks[i].task_type == TaskType::Http;
                assert(next.tasks[i].id == id);
            }
        }
    }

    /// Tokens are kept for HTTP tasks of the list alone, whatever is started, halted or reported.
    pub proof fn tokens_stay_with_tasks(
        self,
        id: Seq<char>,
        token: u64,
        status: TaskStatus,
        event: EventView,
    )
        requires
            self.tokens_have_tasks(),
        ensures
            self.started(id, token).1.tokens_have_tasks(),
            self.released(id).1.tokens_have_tasks(),
            self.halted(id, status).tokens_have_tasks(),
            (ManagerView { tasks: list_after(self.tasks, event), ..self }).tokens_have_tasks(),
    {
        index_from_is_first(self.tasks, id, 0);
        event_touches_one_task(self.tasks, event);
        index_from_is_first(self.tasks, event_task(event), 0);
        let running = self.started(id, token).1;
        if let Some(i) = task_index(self.tasks, id) {
            assert(running.tasks[i].id == id);
        }
        self.tokens_survive(running);
        self.tokens_survive(self.released(id).1);
        self.tokens_survive(self.halted(id, status));
        self.tokens_survive(ManagerView { tasks: list_after(self.tasks, event), ..self });
    }

    /// No token is kept before anything is started, and adding a task keeps tokens with theirs.
    pub proof fn tokens_begin_with_tasks(self, added: TaskView)
        ensures
            self.cancel_tokens == Map::<Seq<char>, u64>::empty() ==> self.tokens_have_tasks(),
            self.tokens_have_tasks() ==> (ManagerView {
                tasks: self.tasks.push(added),
                ..self
            }).tokens_have_tasks(),
    {
        let next = ManagerView { tasks: self.tasks.push(added), ..self };
        if self.tokens_have_tasks() {
            assert forall|id: Seq<char>| #[trigger]
                next.cancel_tokens.dom().contains(id) implies has_http_task(next.tasks, id) by {
                assert(self.cancel_tokens.dom().contains(id));
                let i = choose|i: int|
                    0 <= i < self.tasks.len() && (#[trigger] self.tasks[i]).id == id
                        && self.tasks[i].task_type == TaskType::Http;
                assert(next.tasks[i] == self.tasks[i]);
            }
        }
    }

    /// A task that is removed takes its token with it.
    pub proof fn removed_task_leaves_no_token(self, id: Seq<char>)
        requires
            self.tokens_have_tasks(),
            unique_ids(self.tasks),
        ensures
            self.released(id).1.without(id).tokens_have_tasks(),
            !self.released(id).1.without(id).cancel_tokens.dom().contains(id),
    {
        let last = self.released(id).1.without(id);
        index_from_is_first(self.tasks, id, 0);
        assert forall|other: Seq<char>| #[trigger]
            last.cancel_tokens.dom().contains(other) implies other != id && has_http_task(
            last.tasks,
            other,
        ) by {
            assert(self.cancel_tokens.dom().contains(other));
            let i = choose|i: int|
                0 <= i < self.tasks.len() && (#[trigger] self.tasks[i]).id == other
                    && self.tasks[i].task_type == TaskType::Http;
            if let Some(k) = task_index(self.tasks, id) {
                if i == k {
                    assert(false);
                }
                let j = if i < k {
                    i
                } else {
                    i - 1
                };
                assert(last.tasks[j] == self.tasks[i]);
            }
        }
    }

    /// Tokens are for HTTP alone: starting or halting a torrent leaves them as they are.
    pub proof fn torrents_need_no_token(self, id: Seq<char>, token: u64)
        requires
            task_index(self.tasks, id) is Some,
            self.tasks[task_index(self.tasks, id)->0].task_type == TaskType::BitTorrent,
        ensures
            self.started(id, token).1.cancel_tokens == self.cancel_tokens,
            self.released(id).1 == self,
    {
    }
}

proof fn filter_keeps_all(list: Seq<TaskView>, id: Seq<char>)
    requires
        forall|i: int| 0 <= i < list.len() ==> (#[trigger] list[i]).id != id,
    ensures
        list.filter(|t: TaskView| t.id != id) == list,
    decreases list.len(),
{
    reveal(Seq::filter);
    if list.len() > 0 {
        filter_keeps_all(list.drop_last(), id);
        assert(list.drop_last().push(list.last()) =~= list);
    }
}

proof fn filter_drops_one(list: Seq<TaskView>, id: Seq<char>, k: int)
    requires
        unique_ids(list),
        0 <= k < list.len(),
        list[k].id == id,
    ensures
        list.filter(|t: TaskView| t.id != id) == list.remove(k),
    decreases list.len(),
{
    reveal(Seq::filter);
    let front = list.drop_last();
    if k == list.len() - 1 {
        assert forall|i: int| 0 <= i < front.len() implies (#[trigger] front[i]).id != id by {
            assert(list[i].id != list[k].id);
        }
        filter_keeps_all(front, id);
        assert(list.remove(k) =~= front);
    } else {
        assert forall|i: int, j: int|
            0 <= i < front.len() && 0 <= j < front.len() && (#[trigger] front[i]).id == (
            #[trigger] front[j]).id implies i == j by {
            assert(list[i].id == list[j].id);
        }
        filter_drops_one(front, id, k);
        assert(list.last().id != id) by {
            assert(list[list.len() - 1].id != list[k].id);
        }
        assert(list.remove(k) =~= front.remove(k).push(list.last()));
    }
}

/// After the stored tasks were taken up nothing counts as being transferred, and taking them up
/// once more changes nothing.
pub proof fn restored_tasks_are_at_rest(task: TaskView)
    ensures
        restored(task).status != TaskStatus::Downloading,
        restored(restored(task)) == restored(task),
        task.status != TaskStatus::Downloading ==> restored(task) == task,
{
}

/// A task that was added stands behind all others, and is found by its id, where no other task
/// has that id.
pub proof fn added_task_is_found(list: Seq<TaskView>, added: TaskView)
    requires
        forall|i: int| 0 <= i < list.len() ==> (#[trigger] list[i]).id != added.id,
    ensures
        task_index(list.push(added), added.id) == Some(list.len() as int),
        unique_ids(list) ==> unique_ids(list.push(added)),
{
    let longer = list.push(added);
    index_from_is_first(longer, added.id, 0);
    assert(longer[list.len() as int].id == added.id);
    assert forall|i: int| 0 <= i < list.len() implies (#[trigger] longer[i]).id != added.id by {
        assert(longer[i] == list[i]);
    }
    if unique_ids(list) {
        assert forall|i: int, j: int|
            0 <= i < longer.len() && 0 <= j < longer.len() && (#[trigger] longer[i]).id == (
            #[trigger] longer[j]).id implies i == j by {
            if i < list.len() && j < list.len() {
                assert(list[i].id == list[j].id);
            }
        }
    }
}

/// Whether a list holds a task with a given id at a position, and none with it in front.
pub open spec fn is_first(list: Seq<TaskView>, id: Seq<char>, i: int) -> bool {
    &&& 0 <= i < list.len()
    &&& list[i].id == id
    &&& forall|j: int| 0 <= j < i ==> (#[trigger] list[j]).id != id
}

proof fn first_is_found(list: Seq<TaskView>, id: Seq<char>, i: int)
    requires
        is_first(list, id, i),
    ensures
        task_index(list, id) == Some(i),
{
    index_from_is_first(list, id, 0);
}

/// A report of size, ranges and name gives its task these, and changes nothing else.
pub proof fn metadata_is_taken_over(
    list: Seq<TaskView>,
    i: int,
    task_id: Seq<char>,
    total_size: Option<u64>,
    supports_range: bool,
    filename: Seq<char>,
)
    requires
        is_first(list, task_id, i),
    ensures
        ({
            let event = EventView::MetadataReady { task_id, total_size, supports_range, filename };
            let after = list_after(list, event);
            &&& after[i].total_size == total_size
            &&& after[i].supports_range == supports_range
            &&& after[i].filename == filename
            &&& after == list.update(
                i,
                TaskView {
                    total_size: after[i].total_size,
                    supports_range: after[i].supports_range,
                    filename: after[i].filename,
                    ..list[i]
                },
            )
        }),
{
    first_is_found(list, task_id, i);
}

/// A report of progress gives its task the bytes, the rate and the connections of the report, as
/// long as the task is queued, downloading or being merged, whatever details come with it; it
/// replaces the details exactly where it has some; and it changes nothing else.
pub proof fn progress_is_taken_over(
    list: Seq<TaskView>,
    i: int,
    task_id: Seq<char>,
    downloaded: u64,
    speed: u64,
    connections: usize,
    bt_extra: Option<BtExtraView>,
)
    requires
        is_first(list, task_id, i),
    ensures
        ({
            let event = EventView::Progress { task_id, downloaded, speed, connections, bt_extra };
            let after = list_after(list, event);
            let was = list[i];
            let moves = was.status == TaskStatus::Queued || was.status == TaskStatus::Downloading
                || was.status == TaskStatus::Merging;
            &&& moves ==> after[i].downloaded == downloaded && after[i].speed == speed
                && after[i].connections == connections
            &&& !moves ==> after[i].downloaded == was.downloaded && after[i].speed == was.speed
                && after[i].connections == was.connections
            &&& bt_extra is Some ==> after[i].bt_extra == bt_extra
            &&& bt_extra is None ==> after[i].bt_extra == was.bt_extra
            &&& after == list.update(
                i,
                TaskView {
                    downloaded: after[i].downloaded,
                    speed: after[i].speed,
                    connections: after[i].connections,
                    bt_extra: after[i].bt_extra,
                    ..was
                },
            )
        }),
{
    first_is_found(list, task_id, i);
}

/// A report that a chunk is done marks that chunk, where its task has it, and changes nothing else.
pub proof fn done_chunk_is_marked(
    list: Seq<TaskView>,
    i: int,
    task_id: Seq<char>,
    chunk_index: usize,
)
    requires
        is_first(list, task_id, i),
    ensures
        ({
            let after = list_after(list, EventView::ChunkCompleted { task_id, chunk_index });
            let was = list[i];
            &&& after == list.update(i, TaskView { chunks: after[i].chunks, ..was })
            &&& after[i].chunks.len() == was.chunks.len()
            &&& forall|k: int|
                0 <= k < was.chunks.len() ==> {
                    let now = #[trigger] after[i].chunks[k];
                    &&& now.completed == (was.chunks[k].completed || k == chunk_index)
                    &&& now.index == was.chunks[k].index
                    &&& now.start == was.chunks[k].start
                    &&& now.end == was.chunks[k].end
                    &&& now.downloaded == was.chunks[k].downloaded
                }
        }),
{
    first_is_found(list, task_id, i);
    let after = list_after(list, EventView::ChunkCompleted { task_id, chunk_index });
    assert(after =~= list.update(i, TaskView { chunks: after[i].chunks, ..list[i] }));
}

/// A report of a state puts its task into that state, whatever it was in, and changes nothing
/// else.
pub proof fn state_is_taken_over(
    list: Seq<TaskView>,
    i: int,
    task_id: Seq<char>,
    status: TaskStatus,
)
    requires
        is_first(list, task_id, i),
    ensures
        ({
            let after = list_after(list, EventView::StatusChanged { task_id, status });
            &&& after[i].status == status
            &&& after == list.update(i, TaskView { status: after[i].status, ..list[i] })
        }),
{
    first_is_found(list, task_id, i);
}

/// A report of a failure puts its task into the failed state with that message, whatever it was
/// in, and changes nothing else: what has been transferred stays.
pub proof fn failure_is_taken_over(
    list: Seq<TaskView>,
    i: int,
    task_id: Seq<char>,
    message: Seq<char>,
)
    requires
        is_first(list, task_id, i),
    ensures
        ({
            let after = list_after(list, EventView::Error { task_id, message });
            &&& after[i].status == TaskStatus::Failed
            &&& after[i].error_message == Some(message)
            &&& after == list.update(
                i,
                TaskView {
                    status: after[i].status,
                    error_message: after[i].error_message,
                    ..list[i]
                },
            )
        }),
{
    first_is_found(list, task_id, i);
}

/// A report that a task is complete puts it into that state and its rate to zero, whatever state
/// it was in, and changes nothing else.
pub proof fn completion_is_taken_over(list: Seq<TaskView>, i: int, task_id: Seq<char>)
    requires
        is_first(list, task_id, i),
    ensures
        ({
            let after = list_after(list, EventView::Completed { task_id });
            &&& after[i].status == TaskStatus::Completed
            &&& after[i].speed == 0
            &&& after == list.update(
                i,
                TaskView { status: after[i].status, speed: after[i].speed, ..list[i] },
            )
        }),
{
    first_is_found(list, task_id, i);
}

/// The id that a report carries is that of the task it is about, whatever kind of report it is.
pub proof fn reports_carry_their_task(
    task_id: Seq<char>,
    total_size: Option<u64>,
    flag: bool,
    words: Seq<char>,
    a: u64,
    b: u64,
    n: usize,
    bt_extra: Option<BtExtraView>,
    status: TaskStatus,
)
    ensures
        event_task(
            EventView::MetadataReady {
                task_id,
                total_size,
                supports_range: flag,
                filename: words,
            },
        ) == task_id,
        event_task(
            EventView::Progress { task_id, downloaded: a, speed: b, connections: n, bt_extra },
        ) == task_id,
        event_task(EventView::ChunkCompleted { task_id, chunk_index: n }) == task_id,
        event_task(EventView::StatusChanged { task_id, status }) == task_id,
        event_task(EventView::Error { task_id, message: words }) == task_id,
        event_task(EventView::Completed { task_id }) == task_id,
{
}

/// Reports are taken in one after the other: those of a longer run are those of a shorter one and
/// then the rest; without any nothing changes, and one alone does what it does.
pub proof fn reports_are_taken_in_turn(
    list: Seq<TaskView>,
    first: Seq<EventView>,
    second: Seq<EventView>,
    event: EventView,
)
    ensures
        list_after_all(list, Seq::empty()) == list,
        list_after_all(list, seq![event]) == list_after(list, event),
        list_after_all(list, first + second) == list_after_all(list_after_all(list, first), second),
    decreases second.len(),
{
    assert(seq![event].drop_last() =~= Seq::<EventView>::empty());
    assert(list_after_all(list, Seq::empty()) == list);
    if second.len() == 0 {
        assert(first + second =~= first);
    } else {
        reports_are_taken_in_turn(list, first, second.drop_last(), event);
        assert((first + second).drop_last() =~= first + second.drop_last());
    }
}

/// What the reports of a torrent's monitor make of a task that takes progress: it has the bytes of
/// the snapshot, and its size and name once the size is known; it stays in its state, at the
/// snapshot's rate, or, where the torrent is finished, is complete and at rest.
pub proof fn snapshot_is_taken_over(
    list: Seq<TaskView>,
    i: int,
    task_id: Seq<char>,
    stats: TorrentSnapshot,
    name: Option<Seq<char>>,
)
    requires
        is_first(list, task_id, i),
        list[i].status == TaskStatus::Queued || list[i].status == TaskStatus::Downloading
            || list[i].status == TaskStatus::Merging,
    ensures
        ({
            let after = list_after_all(list, monitor_reports(task_id, stats, name));
            &&& same_ids(after, list)
            &&& after[i].downloaded == stats.progress_bytes
            &&& stats.total_bytes > 0 ==> after[i].total_size == Some(stats.total_bytes)
                && !after[i].supports_range && (name is Some ==> after[i].filename == name->0) && (
                name is None ==> after[i].filename == "BT 下载"@)
            &&& stats.total_bytes == 0 ==> after[i].total_size == list[i].total_size
                && after[i].filename == list[i].filename
            &&& after[i].connections == (if stats.live is Some {
                stats.live->0.peer_live
            } else {
                0
            })
            &&& after[i].bt_extra is Some
            &&& after[i].bt_extra->0.uploaded == stats.uploaded_bytes
            &&& after[i].url == list[i].url && after[i].save_path == list[i].save_path
            &&& after[i].error_message == list[i].error_message
            &&& stats.finished ==> after[i].status == TaskStatus::Completed && after[i].speed == 0
            &&& !stats.finished ==> after[i].status == list[i].status && after[i].speed
                == (if stats.live is Some {
                stats.live->0.download_speed
            } else {
                0
            })
            &&& forall|k: int| 0 <= k < list.len() && k != i ==> #[trigger] after[k] == list[k]
        }),
{
    let all = monitor_reports(task_id, stats, name);
    first_is_found(list, task_id, i);
    let start = if stats.total_bytes > 0 {
        1int
    } else {
        0
    };
    let zero = Seq::<EventView>::empty();
    assert(all.take(0) =~= zero);
    let l0 = list_after_all(list, all.take(start));
    if start == 1 {
        assert(all.take(1).drop_last() =~= zero);
        assert(list_after_all(list, zero) == list);
    }
    assert(is_first(l0, task_id, i));
    first_is_found(l0, task_id, i);
    assert(all.take(start + 1).drop_last() =~= all.take(start));
    let l1 = list_after_all(list, all.take(start + 1));
    assert(l1 == list_after(l0, all[start]));
    assert(is_first(l1, task_id, i));
    first_is_found(l1, task_id, i);
    if stats.finished {
        assert(all.drop_last() =~= all.take(start + 1));
    } else {
        assert(all =~= all.take(start + 1));
    }
}

impl ManagerView {
    /// Starting an HTTP task that is not being downloaded, whatever else its state is, sets it
    /// going: the task is handed out as it stands, is downloading afterwards, and can be cancelled
    /// with the token. Nothing else changes.
    pub proof fn http_task_is_set_going(self, i: int, token: u64)
        requires
            0 <= i < self.tasks.len(),
            is_first(self.tasks, self.tasks[i].id, i),
            self.tasks[i].task_type == TaskType::Http,
            self.tasks[i].status != TaskStatus::Downloading,
        ensures
            ({
                let (outcome, next) = self.started(self.tasks[i].id, token);
                &&& outcome is Ok
                &&& outcome->Ok_0 == StartView::Http(self.tasks[i])
                &&& next.tasks[i].status == TaskStatus::Downloading
                &&& next.tasks == self.tasks.update(
                    i,
                    TaskView { status: next.tasks[i].status, ..self.tasks[i] },
                )
                &&& next.cancel_tokens.dom().contains(self.tasks[i].id)
                &&& next.cancel_tokens[self.tasks[i].id] == token
                &&& forall|other: Seq<char>|
                    other != self.tasks[i].id ==> (#[trigger] next.cancel_tokens.dom().contains(
                        other,
                    ) <==> self.cancel_tokens.dom().contains(other))
                &&& forall|other: Seq<char>|
                    other != self.tasks[i].id && self.cancel_tokens.dom().contains(other)
                        ==> #[trigger] next.cancel_tokens[other] == self.cancel_tokens[other]
                &&& next.config == self.config
                &&& next.http_downloader == self.http_downloader
                &&& next.bt_available == self.bt_available
            }),
    {
        first_is_found(self.tasks, self.tasks[i].id, i);
    }

    /// Starting a torrent that is not being downloaded, whatever else its state is, hands its link
    /// to the engine, where there is one, and the task is downloading afterwards. Without an engine
    /// it is refused. Nothing else changes.
    pub proof fn torrent_is_set_going(self, i: int, token: u64)
        requires
            0 <= i < self.tasks.len(),
            is_first(self.tasks, self.tasks[i].id, i),
            self.tasks[i].task_type == TaskType::BitTorrent,
            self.tasks[i].status != TaskStatus::Downloading,
        ensures
            ({
                let (outcome, next) = self.started(self.tasks[i].id, token);
                &&& self.bt_available ==> {
                    &&& outcome is Ok
                    &&& outcome->Ok_0 == StartView::BitTorrent(self.tasks[i].url)
                    &&& next.tasks[i].status == TaskStatus::Downloading
                    &&& next == (ManagerView {
                        tasks: self.tasks.update(
                            i,
                            TaskView { status: next.tasks[i].status, ..self.tasks[i] },
                        ),
                        ..self
                    })
                }
                &&& !self.bt_available ==> {
                    &&& outcome is Err
                    &&& outcome->Err_0 == ErrorView::NoEngine
                    &&& next == self
                }
            }),
    {
        first_is_found(self.tasks, self.tasks[i].id, i);
    }

    /// Starting a task that is being downloaded does nothing, and one that is not there is refused
    /// with its id.
    pub proof fn nothing_to_start(self, id: Seq<char>, i: int, token: u64)
        ensures
            is_first(self.tasks, id, i) && self.tasks[i].status == TaskStatus::Downloading ==> {
                &&& self.started(id, token).0 is Ok
                &&& self.started(id, token).0->Ok_0 == StartView::Nothing
                &&& self.started(id, token).1 == self
            },
            (forall|k: int| 0 <= k < self.tasks.len() ==> (#[trigger] self.tasks[k]).id != id) ==> {
                &&& self.started(id, token).0 is Err
                &&& self.started(id, token).0->Err_0 == ErrorView::NotFound(id)
                &&& self.started(id, token).1 == self
            },
    {
        index_from_is_first(self.tasks, id, 0);
    }

    /// What ends the transfer of a task: its token, where an HTTP task has one, which is then gone;
    /// the engine for a torrent, where there is one; and nothing for a task that is not there.
    pub proof fn transfer_is_ended(self, id: Seq<char>, i: int)
        ensures
            is_first(self.tasks, id, i) ==> {
                let (action, next) = self.released(id);
                let http = self.tasks[i].task_type == TaskType::Http;
                &&& http && self.cancel_tokens.dom().contains(id) ==> action == Some(
                    TransferAction::Cancel(self.cancel_tokens[id]),
                )
                &&& http && !self.cancel_tokens.dom().contains(id) ==> action == Some(
                    TransferAction::Nothing,
                )
                &&& !http && self.bt_available ==> action == Some(TransferAction::Engine)
                &&& !http && !self.bt_available ==> action == Some(TransferAction::Nothing)
                &&& http ==> !next.cancel_tokens.dom().contains(id)
                &&& forall|other: Seq<char>|
                    other != id ==> (#[trigger] next.cancel_tokens.dom().contains(other)
                        <==> self.cancel_tokens.dom().contains(other))
                &&& forall|other: Seq<char>|
                    other != id && self.cancel_tokens.dom().contains(other)
                        ==> #[trigger] next.cancel_tokens[other] == self.cancel_tokens[other]
                &&& next == (ManagerView { cancel_tokens: next.cancel_tokens, ..self })
            },
            (forall|k: int| 0 <= k < self.tasks.len() ==> (#[trigger] self.tasks[k]).id != id)
                ==> self.released(id).0 is None && self.released(id).1 == self,
    {
        index_from_is_first(self.tasks, id, 0);
    }

    /// A task that is put to rest is in the state that is asked for, at rate zero, and keeps all
    /// else, what it has transferred among it; the other tasks are as they were.
    pub proof fn rest_keeps_the_task(self, id: Seq<char>, i: int, status: TaskStatus)
        ensures
            is_first(self.tasks, id, i) ==> {
                let next = self.halted(id, status);
                &&& next.tasks[i].status == status
                &&& next.tasks[i].speed == 0
                &&& next == (ManagerView {
                    tasks: self.tasks.update(
                        i,
                        TaskView {
                            status: next.tasks[i].status,
                            speed: next.tasks[i].speed,
                            ..self.tasks[i]
                        },
                    ),
                    ..self
                })
            },
            (forall|k: int| 0 <= k < self.tasks.len() ==> (#[trigger] self.tasks[k]).id != id)
                ==> self.halted(id, status) == self,
    {
        index_from_is_first(self.tasks, id, 0);
    }

    /// Removing a task takes exactly it out of the list: those in front stay where they are, those
    /// behind move up by one. Nothing else changes.
    pub proof fn removal_takes_one_task(self, id: Seq<char>, i: int)
        ensures
            is_first(self.tasks, id, i) ==> {
                let next = self.without(id);
                &&& next.tasks.len() == self.tasks.len() - 1
                &&& forall|k: int| 0 <= k < i ==> #[trigger] next.tasks[k] == self.tasks[k]
                &&& forall|k: int|
                    i <= k < next.tasks.len() ==> #[trigger] next.tasks[k] == self.tasks[k + 1]
                &&& next == (ManagerView { tasks: next.tasks, ..self })
            },
            (forall|k: int| 0 <= k < self.tasks.len() ==> (#[trigger] self.tasks[k]).id != id)
                ==> self.without(id) == self,
    {
        index_from_is_first(self.tasks, id, 0);
    }
}

/// Taking up a stored task changes nothing but its state and its rate: one that was being
/// downloaded is paused at rate zero, any other is in the state and at the rate that it was stored
/// with.
pub proof fn stored_task_comes_back(task: TaskView)
    ensures
        task.status == TaskStatus::Downloading ==> restored(task).status == TaskStatus::Paused
            && restored(task).speed == 0,
        task.status != TaskStatus::Downloading ==> restored(task).status == task.status && restored(
            task,
        ).speed == task.speed,
        restored(task) == (TaskView {
            status: restored(task).status,
            speed: restored(task).speed,
            ..task
        }),
{
}

/// A task that is added is queued with nothing known or transferred, goes to the given directory
/// and keeps its link; a torrent is not named yet, any other task is named by what follows the last
/// slash of its link.
pub proof fn added_task_is_fresh(
    id: Seq<char>,
    created_at: Timestamp,
    front: Seq<char>,
    name: Seq<char>,
    is_file: bool,
    platform: Platform,
    dir: PlaceView,
)
    requires
        !name.contains('/'),
    ensures
        ({
            let url = front.push('/') + name;
            let task = task_for(id, created_at, url, is_file, platform, dir);
            &&& task.id == id && task.url == url && task.save_path == dir
            &&& task.created_at == created_at
            &&& task.status == TaskStatus::Queued
            &&& task.total_size is None && task.downloaded == 0 && task.speed == 0
            &&& task.connections == 0 && task.chunks.len() == 0 && !task.supports_range
            &&& task.error_message is None && task.bt_extra is None
            &&& is_bt(url, is_file, platform) ==> task.task_type == TaskType::BitTorrent
                && task.filename == "BT Download"@
            &&& !is_bt(url, is_file, platform) ==> task.task_type == TaskType::Http && task.filename
                == name
        }),
{
    let url = front.push('/') + name;
    let from = front.len() as int + 1;
    assert forall|j: int| from <= j < url.len() implies url[j] != '/' by {
        assert(url[j] == name[j - from]);
        assert(name.contains(name[j - from]));
    }
    crate::text::after_last_is_suffix(url, '/', from);
    assert(url.skip(from) =~= name);
}

} // verus!
