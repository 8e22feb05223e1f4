//! Downloads from their first step to their last: laws on what they report, and in which order.

use crate::chunks;
use crate::engine::{failure_text, is_pending, mode_for, parts_path, pending};
use crate::engine::{planned_chunks_are_pending, sampled_speed, sum_downloaded};
use crate::engine::{ChunkedPhase, ChunkedStep, ChunkedView, DownloadMode, EventView};
use crate::engine::{HttpDownloader, SinglePhase, SingleStep, SingleView};
use crate::manager::event_task;
use crate::paths::{PlaceView, StepView};
use crate::task::{ChunkInfo, TaskStatus};
use crate::text;
use vstd::prelude::*;

verus! {

/// The place of a report among those of a download: first that it has begun, then what arrives
/// and what fails, then that it is being merged, then that it is complete. Other reports have none.
pub open spec fn place(report: EventView) -> int {
    match report {
        EventView::StatusChanged { status, .. } => if status == TaskStatus::Downloading {
            0
        } else if status == TaskStatus::Merging {
            2
        } else {
            -1
        },
        EventView::Progress { .. } => 1,
        EventView::ChunkCompleted { .. } => 1,
        EventView::Error { .. } => 1,
        EventView::Completed { .. } => 3,
        EventView::MetadataReady { .. } => -1,
    }
}

/// Whether reports are about one task and come in their places: the first says that the download
/// has begun, and only what arrives or fails is reported more than once.
pub open spec fn in_order(reports: Seq<EventView>, task_id: Seq<char>) -> bool {
    &&& reports.len() > 0 ==> place(reports[0]) == 0
    &&& forall|i: int|
        0 <= i < reports.len() ==> event_task(#[trigger] reports[i]) == task_id && place(reports[i])
            >= 0
    &&& forall|i: int, j: int|
        0 <= i < j < reports.len() ==> place(#[trigger] reports[i]) < place(#[trigger] reports[j])
            || place(reports[i]) == 1 && place(reports[j]) == 1
}

/// Reports with that of another step behind them, where it makes one.
pub open spec fn with_report(reports: Seq<EventView>, report: Option<EventView>) -> Seq<EventView> {
    match report {
        Some(event) => reports.push(event),
        None => reports,
    }
}

proof fn order_is_kept(reports: Seq<EventView>, task_id: Seq<char>, next: EventView)
    requires
        in_order(reports, task_id),
        event_task(next) == task_id,
        place(next) >= 0,
        reports.len() == 0 ==> place(next) == 0,
        forall|i: int|
            0 <= i < reports.len() ==> place(#[trigger] reports[i]) < place(next) || place(
                reports[i],
            ) == 1 && place(next) == 1,
    ensures
        in_order(reports.push(next), task_id),
{
    let all = reports.push(next);
    assert forall|i: int, j: int| 0 <= i < j < all.len() implies place(#[trigger] all[i]) < place(
        #[trigger] all[j],
    ) || place(all[i]) == 1 && place(all[j]) == 1 by {
        assert(all[i] == reports[i]);
        if j < reports.len() {
            assert(all[j] == reports[j]);
        }
    }
}

impl ChunkedView {
    /// The download after several steps, one after the other.
    pub open spec fn run(self, steps: Seq<ChunkedStep>) -> ChunkedView
        decreases steps.len(),
    {
        if steps.len() == 0 {
            self
        } else {
            self.run(steps.drop_last()).after(steps.last())
        }
    }

    /// Whether several steps can come, one after the other.
    pub open spec fn allows_all(self, steps: Seq<ChunkedStep>) -> bool
        decreases steps.len(),
    {
        steps.len() == 0 || self.allows_all(steps.drop_last()) && self.run(
            steps.drop_last(),
        ).allows(steps.last())
    }

    /// What several steps report.
    pub open spec fn reports(self, steps: Seq<ChunkedStep>) -> Seq<EventView>
        decreases steps.len(),
    {
        if steps.len() == 0 {
            Seq::empty()
        } else {
            with_report(
                self.reports(steps.drop_last()),
                self.run(steps.drop_last()).report(steps.last()),
            )
        }
    }

    /// Each step keeps what always holds, and neither the task nor the number of workers changes.
    pub proof fn steps_keep_wf(self, steps: Seq<ChunkedStep>)
        requires
            self.wf(),
            self.allows_all(steps),
        ensures
            self.run(steps).wf(),
            self.run(steps).task_id == self.task_id,
            self.run(steps).connections == self.connections,
            self.run(steps).downloaded >= self.downloaded,
        decreases steps.len(),
    {
        if steps.len() > 0 {
            self.steps_keep_wf(steps.drop_last());
        }
    }

    /// A download in chunks reports first that it has begun, then what arrives and which chunks
    /// are done or have failed, then that it is being merged, then, with nothing in between, that
    /// it is complete. Where it ends without having been cancelled, that is its last report.
    pub proof fn reports_come_in_order(self, steps: Seq<ChunkedStep>)
        requires
            self.phase == ChunkedPhase::Ready,
            self.allows_all(steps),
        ensures
            in_order(self.reports(steps), self.task_id),
            forall|i: int|
                #![trigger self.reports(steps)[i]]
                0 <= i < self.reports(steps).len() && place(self.reports(steps)[i]) == 3 ==> i > 0
                    && place(self.reports(steps)[i - 1]) == 2,
            self.run(steps).phase == ChunkedPhase::Ended && !self.run(steps).cancelled
                ==> self.reports(steps).len() > 0 && place(self.reports(steps).last()) == 3,
    {
        self.reports_fit_phase(steps);
    }

    proof fn reports_fit_phase(self, steps: Seq<ChunkedStep>)
        requires
            self.phase == ChunkedPhase::Ready,
            self.allows_all(steps),
        ensures
            self.run(steps).task_id == self.task_id,
            in_order(self.reports(steps), self.task_id),
            ({
                let reports = self.reports(steps);
                &&& match self.run(steps).phase {
                    ChunkedPhase::Ready => reports.len() == 0,
                    ChunkedPhase::Running => reports.len() > 0 && forall|i: int|
                        0 <= i < reports.len() ==> place(#[trigger] reports[i]) <= 1,
                    ChunkedPhase::Merging => reports.len() > 0 && place(reports.last()) == 2
                        && forall|i: int|
                        0 <= i < reports.len() ==> place(#[trigger] reports[i]) <= 2,
                    ChunkedPhase::Ended => self.run(steps).cancelled || reports.len() > 0 && place(
                        reports.last(),
                    ) == 3,
                }
                &&& forall|i: int|
                    0 <= i < reports.len() && place(#[trigger] reports[i]) == 3 ==> i > 0 && place(
                        reports[i - 1],
                    ) == 2
            }),
        decreases steps.len(),
    {
        if steps.len() > 0 {
            self.reports_fit_phase(steps.drop_last());
            let before = self.run(steps.drop_last());
            let reports = self.reports(steps.drop_last());
            if let Some(event) = before.report(steps.last()) {
                order_is_kept(reports, self.task_id, event);
                let all = reports.push(event);
                assert forall|i: int|
                    0 <= i < all.len() && place(#[trigger] all[i]) == 3 implies i > 0 && place(
                    all[i - 1],
                ) == 2 by {
                    if i < reports.len() {
                        assert(all[i] == reports[i]);
                    }
                }
            }
        }
    }

    /// Whether the rate is not taken in any of several steps.
    pub open spec fn without_sample(steps: Seq<ChunkedStep>) -> bool {
        forall|i: int| 0 <= i < steps.len() ==> !(#[trigger] steps[i] is Sample)
    }

    proof fn sampled_stays(self, steps: Seq<ChunkedStep>)
        requires
            Self::without_sample(steps),
        ensures
            self.run(steps).sampled == self.sampled,
        decreases steps.len(),
    {
        if steps.len() > 0 {
            assert(!(steps[steps.len() - 1] is Sample));
            assert(Self::without_sample(steps.drop_last())) by {
                assert forall|i: int| 0 <= i < steps.drop_last().len() implies !(
                #[trigger] steps.drop_last()[i] is Sample) by {
                    assert(!(steps[i] is Sample));
                }
            }
            self.sampled_stays(steps.drop_last());
        }
    }

    /// The report that follows another one, or the beginning: bytes never fall, the rate is four
    /// times what has arrived since, and no more connections are reported than there are workers.
    pub proof fn progress_follows_progress(self, steps: Seq<ChunkedStep>)
        requires
            self.wf(),
            self.sampled == self.downloaded,
            self.allows_all(steps),
            Self::without_sample(steps),
        ensures
            ({
                let now = self.run(steps);
                &&& now.report(ChunkedStep::Sample) == Some(
                    EventView::Progress {
                        task_id: self.task_id,
                        downloaded: now.downloaded,
                        speed: sampled_speed(now.downloaded, self.downloaded),
                        connections: now.in_flight.len() as usize,
                        bt_extra: None,
                    },
                )
                &&& now.downloaded >= self.downloaded
                &&& now.in_flight.len() <= self.connections
                &&& now.after(ChunkedStep::Sample).sampled == now.downloaded
            }),
    {
        self.steps_keep_wf(steps);
        self.sampled_stays(steps);
    }
}

/// How many chunks of a list have a given index.
pub open spec fn times_listed(list: Seq<ChunkInfo>, index: usize) -> nat
    decreases list.len(),
{
    if list.len() == 0 {
        0
    } else {
        times_listed(list.drop_last(), index) + if list.last().index == index {
            1nat
        } else {
            0
        }
    }
}

/// Whether a report says that the chunk with a given index is done or has failed.
pub open spec fn tells_of(report: EventView, index: usize) -> bool {
    match report {
        EventView::ChunkCompleted { chunk_index, .. } => chunk_index == index,
        EventView::Error { message, .. } => exists|reason: Seq<char>|
            message == #[trigger] failure_text(index, reason),
        _ => false,
    }
}

/// How many reports say that the chunk with a given index is done or has failed.
pub open spec fn times_told(reports: Seq<EventView>, index: usize) -> nat
    decreases reports.len(),
{
    if reports.len() == 0 {
        0
    } else {
        times_told(reports.drop_last(), index) + if tells_of(reports.last(), index) {
            1nat
        } else {
            0
        }
    }
}

/// The message that a chunk has failed names the chunk.
pub proof fn failure_names_its_chunk(i: usize, j: usize, a: Seq<char>, b: Seq<char>)
    requires
        failure_text(i, a) == failure_text(j, b),
    ensures
        i == j,
{
    reveal_strlit("Chunk ");
    reveal_strlit(" failed: ");
    let x = text::decimal(i as nat);
    let y = text::decimal(j as nat);
    let s = failure_text(i, a);
    let t = failure_text(j, b);
    text::decimal_is_digits(i as nat);
    text::decimal_is_digits(j as nat);
    assert(s[6 + x.len() as int] == ' ' && t[6 + y.len() as int] == ' ');
    if x.len() < y.len() {
        assert(t[6 + x.len() as int] == y[x.len() as int]);
    } else if y.len() < x.len() {
        assert(s[6 + y.len() as int] == x[y.len() as int]);
    }
    assert forall|k: int| 0 <= k < x.len() implies x[k] == y[k] by {
        assert(s[6 + k] == x[k] && t[6 + k] == y[k]);
    }
    assert(x =~= y);
}

impl ChunkedView {
    proof fn finish_tells_of_its_chunk(
        self,
        index: usize,
        outcome: Result<(), Seq<char>>,
        other: usize,
    )
        ensures
            ({
                let report = self.report(ChunkedStep::Finish { index, outcome });
                report is Some && (tells_of(report->0, other) <==> other == index)
            }),
    {
        if let Err(reason) = outcome {
            let message = failure_text(index, reason);
            let report = self.report(ChunkedStep::Finish { index, outcome })->0;
            assert(report == EventView::Error { task_id: self.task_id, message });
            if tells_of(report, other) {
                let told = choose|told: Seq<char>| message == #[trigger] failure_text(other, told);
                failure_names_its_chunk(index, other, reason, told);
            }
        }
    }

    /// What becomes of the chunks with one index: they wait, are being fetched, or have been
    /// reported; only a cancelled download drops some.
    proof fn chunks_are_accounted_for(self, steps: Seq<ChunkedStep>, index: usize)
        requires
            self.phase == ChunkedPhase::Ready,
            self.in_flight.len() == 0,
            !self.cancelled,
            self.allows_all(steps),
        ensures
            ({
                let now = self.run(steps);
                let seen = times_told(self.reports(steps), index) + now.in_flight.count(index)
                    + times_listed(now.queue, index);
                &&& now.connections == self.connections
                &&& seen <= times_listed(self.queue, index)
                &&& !now.cancelled ==> seen == times_listed(self.queue, index)
                &&& now.phase == ChunkedPhase::Merging || now.phase == ChunkedPhase::Ended ==> {
                    &&& now.in_flight.len() == 0
                    &&& now.cancelled || now.queue.len() == 0 || now.connections == 0
                }
                &&& now.phase == ChunkedPhase::Merging ==> !now.cancelled
            }),
        decreases steps.len(),
    {
        broadcast use vstd::multiset::group_multiset_axioms;

        if steps.len() == 0 {
            assert(self.in_flight.count(index) == 0);
        } else {
            self.chunks_are_accounted_for(steps.drop_last(), index);
            let before = self.run(steps.drop_last());
            let reports = self.reports(steps.drop_last());
            if let ChunkedStep::Finish { index: done, outcome } = steps.last() {
                before.finish_tells_of_its_chunk(done, outcome, index);
            }
            if let Some(event) = before.report(steps.last()) {
                assert(reports.push(event).drop_last() =~= reports);
            }
        }
    }

    /// No chunk is reported done or failed more often than it waited to be fetched, however the
    /// download goes.
    pub proof fn no_chunk_is_told_twice(self, steps: Seq<ChunkedStep>, index: usize)
        requires
            self.phase == ChunkedPhase::Ready,
            self.in_flight.len() == 0,
            !self.cancelled,
            self.allows_all(steps),
        ensures
            times_told(self.reports(steps), index) <= times_listed(self.queue, index),
    {
        self.chunks_are_accounted_for(steps, index);
    }

    /// When a download that was not cancelled has come to merging, each chunk that waited to be
    /// fetched has been reported done or failed exactly once, and no other chunk has been.
    pub proof fn each_pending_chunk_is_told_once(self, steps: Seq<ChunkedStep>, index: usize)
        requires
            self.phase == ChunkedPhase::Ready,
            self.in_flight.len() == 0,
            !self.cancelled,
            self.connections > 0 || self.queue.len() == 0,
            self.allows_all(steps),
            self.run(steps).phase == ChunkedPhase::Merging || (self.run(steps).phase
                == ChunkedPhase::Ended && !self.run(steps).cancelled),
        ensures
            times_told(self.reports(steps), index) == times_listed(self.queue, index),
    {
        broadcast use vstd::multiset::group_multiset_axioms;

        self.chunks_are_accounted_for(steps, index);
        self.queue_only_shrinks(steps);
        assert(self.run(steps).queue.len() == 0);
        assert(self.run(steps).in_flight.count(index) == 0);
    }

    proof fn queue_only_shrinks(self, steps: Seq<ChunkedStep>)
        ensures
            self.run(steps).queue.len() <= self.queue.len(),
        decreases steps.len(),
    {
        if steps.len() > 0 {
            self.queue_only_shrinks(steps.drop_last());
        }
    }

    /// The chunks that workers take in several steps, in that order.
    pub open spec fn takes(self, steps: Seq<ChunkedStep>) -> Seq<ChunkInfo>
        decreases steps.len(),
    {
        if steps.len() == 0 {
            Seq::empty()
        } else {
            let before = self.takes(steps.drop_last());
            match steps.last() {
                ChunkedStep::Take { cancelled } => match self.run(steps.drop_last()).next(
                    cancelled,
                ) {
                    Some(chunk) => before.push(chunk),
                    None => before,
                },
                _ => before,
            }
        }
    }

    /// As long as a download is not cancelled, its chunks are taken from the last to the first,
    /// each of them once.
    pub proof fn chunks_are_taken_in_turn(self, steps: Seq<ChunkedStep>)
        requires
            !self.run(steps).cancelled,
        ensures
            self.takes(steps) + self.run(steps).queue.reverse() == self.queue.reverse(),
        decreases steps.len(),
    {
        if steps.len() > 0 {
            self.chunks_are_taken_in_turn(steps.drop_last());
            let before = self.run(steps.drop_last());
            let taken = self.takes(steps.drop_last());
            assert(self.takes(steps) + self.run(steps).queue.reverse() =~= taken
                + before.queue.reverse()) by {
                if steps.last() is Take && before.queue.len() > 0 {
                    let last = before.queue.last();
                    assert(before.queue.reverse() =~= seq![last]
                        + before.queue.drop_last().reverse());
                }
            }
        } else {
            assert(self.takes(steps) + self.queue.reverse() =~= self.queue.reverse());
        }
    }
}

/// Where the chunks of a list have different indices, an index is listed once where a chunk has
/// it, and else not at all.
pub proof fn different_chunks_are_listed_once(list: Seq<ChunkInfo>, index: usize)
    requires
        forall|i: int, j: int|
            0 <= i < list.len() && 0 <= j < list.len() && (#[trigger] list[i]).index == (
            #[trigger] list[j]).index ==> i == j,
    ensures
        times_listed(list, index) == (if exists|i: int|
            0 <= i < list.len() && (#[trigger] list[i]).index == index {
            1nat
        } else {
            0
        }),
    decreases list.len(),
{
    if list.len() > 0 {
        let front = list.drop_last();
        assert forall|i: int, j: int|
            0 <= i < front.len() && 0 <= j < front.len() && (#[trigger] front[i]).index == (
            #[trigger] front[j]).index implies i == j by {
            assert(front[i] == list[i] && front[j] == list[j]);
        }
        different_chunks_are_listed_once(front, index);
        let end = list.len() - 1;
        if list[end].index == index {
            assert forall|i: int| 0 <= i < front.len() implies (#[trigger] front[i]).index
                != index by {
                assert(front[i] == list[i]);
                assert(list[i].index != list[end].index);
            }
        } else {
            if exists|i: int| 0 <= i < front.len() && (#[trigger] front[i]).index == index {
                let i = choose|i: int| 0 <= i < front.len() && (#[trigger] front[i]).index == index;
                assert(list[i].index == index);
            }
            if exists|i: int| 0 <= i < list.len() && (#[trigger] list[i]).index == index {
                let i = choose|i: int| 0 <= i < list.len() && (#[trigger] list[i]).index == index;
                assert(front[i].index == index);
            }
        }
    }
}

/// A new download in chunks that was not cancelled has, when it comes to merging, reported each
/// chunk of the file done or failed exactly once, and nothing of others.
pub proof fn new_download_tells_of_each_chunk(
    downloader: HttpDownloader,
    task_id: Seq<char>,
    total: u64,
    steps: Seq<ChunkedStep>,
    index: usize,
)
    requires
        downloader.max_connections > 0,
        chunks::can_cut(total, downloader.chunk_size),
        ({
            let start = downloader.chunked(
                task_id,
                chunks::planned(total, downloader.chunk_size),
            );
            &&& start.allows_all(steps)
            &&& start.run(steps).phase == ChunkedPhase::Merging || (start.run(steps).phase
                == ChunkedPhase::Ended && !start.run(steps).cancelled)
        }),
    ensures
        times_told(
            downloader.chunked(task_id, chunks::planned(total, downloader.chunk_size)).reports(
                steps,
            ),
            index,
        ) == (if index < chunks::chunk_count(total, downloader.chunk_size) {
            1nat
        } else {
            0
        }),
{
    let plan = chunks::planned(total, downloader.chunk_size);
    let start = downloader.chunked(task_id, plan);
    planned_chunks_are_pending(total, downloader.chunk_size);
    start.each_pending_chunk_is_told_once(steps, index);
    different_chunks_are_listed_once(plan, index);
    if index < plan.len() {
        assert(plan[index as int].index == index);
    }
}

/// No report of a download in chunks shows more connections than are allowed, nor more than there
/// are chunks.
pub proof fn connections_stay_in_bounds(
    downloader: HttpDownloader,
    task_id: Seq<char>,
    list: Seq<ChunkInfo>,
    steps: Seq<ChunkedStep>,
)
    requires
        list.len() <= usize::MAX,
        downloader.chunked(task_id, list).allows_all(steps),
    ensures
        downloader.chunked(task_id, list).run(steps).in_flight.len() <= chunks::min(
            downloader.max_connections as int,
            list.len() as int,
        ),
    decreases steps.len(),
{
    let start = downloader.chunked(task_id, list);
    if steps.len() > 0 {
        connections_stay_in_bounds(downloader, task_id, list, steps.drop_last());
        workers_stay(start, steps.drop_last());
    }
}

proof fn workers_stay(start: ChunkedView, steps: Seq<ChunkedStep>)
    ensures
        start.run(steps).connections == start.connections,
    decreases steps.len(),
{
    if steps.len() > 0 {
        workers_stay(start, steps.drop_last());
    }
}

impl SingleView {
    /// The download after several steps, one after the other.
    pub open spec fn run(self, steps: Seq<SingleStep>) -> SingleView
        decreases steps.len(),
    {
        if steps.len() == 0 {
            self
        } else {
            self.run(steps.drop_last()).after(steps.last())
        }
    }

    /// Whether several steps can come, one after the other.
    pub open spec fn allows_all(self, steps: Seq<SingleStep>) -> bool
        decreases steps.len(),
    {
        steps.len() == 0 || self.allows_all(steps.drop_last()) && self.run(
            steps.drop_last(),
        ).allows(steps.last())
    }

    /// What several steps report.
    pub open spec fn reports(self, steps: Seq<SingleStep>) -> Seq<EventView>
        decreases steps.len(),
    {
        if steps.len() == 0 {
            Seq::empty()
        } else {
            with_report(
                self.reports(steps.drop_last()),
                self.run(steps.drop_last()).report(steps.last()),
            )
        }
    }

    /// Each step keeps what always holds; the task stays, and bytes never fall.
    pub proof fn steps_keep_wf(self, steps: Seq<SingleStep>)
        requires
            self.wf(),
            self.allows_all(steps),
        ensures
            self.run(steps).wf(),
            self.run(steps).task_id == self.task_id,
            self.run(steps).downloaded >= self.downloaded,
        decreases steps.len(),
    {
        if steps.len() > 0 {
            self.steps_keep_wf(steps.drop_last());
        }
    }

    /// A download in one piece reports first that it has begun, then what arrives, then that it is
    /// complete.
    pub proof fn reports_come_in_order(self, steps: Seq<SingleStep>)
        requires
            self.phase == SinglePhase::Ready,
            self.allows_all(steps),
        ensures
            in_order(self.reports(steps), self.task_id),
    {
        self.reports_fit_phase(steps);
    }

    proof fn reports_fit_phase(self, steps: Seq<SingleStep>)
        requires
            self.phase == SinglePhase::Ready,
            self.allows_all(steps),
        ensures
            self.run(steps).task_id == self.task_id,
            in_order(self.reports(steps), self.task_id),
            ({
                let reports = self.reports(steps);
                match self.run(steps).phase {
                    SinglePhase::Ready => reports.len() == 0,
                    SinglePhase::Running => reports.len() > 0 && forall|i: int|
                        0 <= i < reports.len() ==> place(#[trigger] reports[i]) <= 1,
                    SinglePhase::Due => reports.len() > 0 && forall|i: int|
                        0 <= i < reports.len() ==> place(#[trigger] reports[i]) <= 1,
                    SinglePhase::Ended => true,
                }
            }),
        decreases steps.len(),
    {
        if steps.len() > 0 {
            self.reports_fit_phase(steps.drop_last());
            let before = self.run(steps.drop_last());
            if let Some(event) = before.report(steps.last()) {
                order_is_kept(self.reports(steps.drop_last()), self.task_id, event);
            }
        }
    }
}

/// The bytes that arrive in several steps of a download in chunks together.
pub open spec fn arrived(steps: Seq<ChunkedStep>) -> int
    decreases steps.len(),
{
    if steps.len() == 0 {
        0
    } else {
        arrived(steps.drop_last()) + match steps.last() {
            ChunkedStep::Record { len } => len as int,
            _ => 0,
        }
    }
}

/// How many chunks workers are done with in several steps.
pub open spec fn finished(steps: Seq<ChunkedStep>) -> int
    decreases steps.len(),
{
    if steps.len() == 0 {
        0
    } else {
        finished(steps.drop_last()) + match steps.last() {
            ChunkedStep::Finish { .. } => 1int,
            _ => 0,
        }
    }
}

/// Whether one of several steps finds the download cancelled.
pub open spec fn finds_cancelled(steps: Seq<ChunkedStep>) -> bool {
    exists|i: int|
        0 <= i < steps.len() && match #[trigger] steps[i] {
            ChunkedStep::Take { cancelled } => cancelled,
            ChunkedStep::WorkersDone { cancelled } => cancelled,
            _ => false,
        }
}

impl ChunkedView {
    /// A download has exactly the bytes that it had and those that have arrived since, and as many
    /// chunks are being fetched as were, and were taken since, less those that workers are done
    /// with. Its task and the number of its workers stay.
    pub proof fn bytes_and_chunks_are_counted(self, steps: Seq<ChunkedStep>)
        requires
            self.allows_all(steps),
        ensures
            self.run(steps).downloaded == self.downloaded + arrived(steps),
            self.run(steps).in_flight.len() == self.in_flight.len() + self.takes(steps).len()
                - finished(steps),
            self.run(steps).connections == self.connections,
            self.run(steps).task_id == self.task_id,
        decreases steps.len(),
    {
        broadcast use vstd::multiset::group_multiset_axioms;

        if steps.len() > 0 {
            self.bytes_and_chunks_are_counted(steps.drop_last());
        }
    }

    /// Of two samples in a row the second reports, of the same task, the bytes of the first and
    /// those that arrived in between; four times these as the rate, a quarter of a second having
    /// passed, as far as that is a number; and the chunks that are being fetched: those of the
    /// first, and those that were taken in between, less those that are done. The first one reports
    /// what the download has.
    pub proof fn rate_is_that_between_samples(self, steps: Seq<ChunkedStep>)
        requires
            self.wf(),
            self.allows(ChunkedStep::Sample),
            self.after(ChunkedStep::Sample).allows_all(steps),
            Self::without_sample(steps),
            self.after(ChunkedStep::Sample).run(steps).allows(ChunkedStep::Sample),
        ensures
            ({
                let first = self.report(ChunkedStep::Sample);
                let later = self.after(ChunkedStep::Sample);
                let second = later.run(steps).report(ChunkedStep::Sample);
                let fetched = self.in_flight.len() + later.takes(steps).len() - finished(steps);
                &&& first matches Some(EventView::Progress {
                    task_id: a,
                    downloaded: before,
                    speed: _,
                    connections: c,
                    bt_extra: x,
                })
                &&& second matches Some(EventView::Progress {
                    task_id: b,
                    downloaded: now,
                    speed,
                    connections: d,
                    bt_extra: y,
                })
                &&& a == self.task_id && b == self.task_id && x is None && y is None
                &&& before == self.downloaded
                &&& now == before + arrived(steps)
                &&& 4 * arrived(steps) <= u64::MAX ==> speed == 4 * arrived(steps)
                &&& 4 * arrived(steps) > u64::MAX ==> speed == u64::MAX
                &&& c == self.in_flight.len()
                &&& d == fetched
            }),
    {
        let later = self.after(ChunkedStep::Sample);
        later.steps_keep_wf(steps);
        later.sampled_stays(steps);
        later.bytes_and_chunks_are_counted(steps);
    }

    /// The first sample reports four times the bytes that arrived since the beginning as the rate,
    /// not those that were there before.
    pub proof fn first_rate_is_that_since_the_beginning(self, steps: Seq<ChunkedStep>)
        requires
            self.wf(),
            self.sampled == self.downloaded,
            self.allows_all(steps),
            Self::without_sample(steps),
        ensures
            self.run(steps).report(ChunkedStep::Sample) matches Some(EventView::Progress {
                task_id,
                downloaded,
                speed,
                connections: _,
                bt_extra: _,
            }) && task_id == self.task_id && downloaded == self.downloaded + arrived(steps) && (4
                * arrived(steps) <= u64::MAX ==> speed == 4 * arrived(steps)) && (4 * arrived(
                steps,
            ) > u64::MAX ==> speed == u64::MAX),
    {
        self.steps_keep_wf(steps);
        self.sampled_stays(steps);
        self.bytes_and_chunks_are_counted(steps);
    }

    /// A chunk that was fetched is reported as done, one that could not be fetched as failed with
    /// the reason, and with its index either way.
    pub proof fn outcome_is_told(self, index: usize, reason: Seq<char>)
        ensures
            self.report(ChunkedStep::Finish { index, outcome: Ok(()) }) == Some(
                EventView::ChunkCompleted { task_id: self.task_id, chunk_index: index },
            ),
            self.report(ChunkedStep::Finish { index, outcome: Err(reason) }) matches Some(
                EventView::Error { task_id, message },
            ) && task_id == self.task_id && message == "Chunk "@ + text::decimal(index as nat)
                + " failed: "@ + reason,
    {
    }

    /// The first step of a download reports that the task is being downloaded; coming to merging is
    /// reported, unless the download was cancelled, and so is its end. Taking a chunk and the
    /// arrival of bytes are not.
    pub proof fn turns_are_told(self, len: u64, cancelled: bool)
        ensures
            self.report(ChunkedStep::Start) == Some(
                EventView::StatusChanged {
                    task_id: self.task_id,
                    status: TaskStatus::Downloading,
                },
            ),
            self.report(ChunkedStep::WorkersDone { cancelled: false }) == Some(
                EventView::StatusChanged { task_id: self.task_id, status: TaskStatus::Merging },
            ),
            self.report(ChunkedStep::WorkersDone { cancelled: true }) is None,
            self.report(ChunkedStep::Take { cancelled }) is None,
            self.report(ChunkedStep::Record { len }) is None,
            self.report(ChunkedStep::Merged) == Some(
                EventView::Completed { task_id: self.task_id },
            ),
    {
    }

    /// A worker takes the last chunk that waits; none where none waits or the download has been
    /// cancelled, though then the chunk is gone all the same.
    pub proof fn last_chunk_is_taken(self, rest: Seq<ChunkInfo>, chunk: ChunkInfo)
        requires
            self.queue == rest.push(chunk),
        ensures
            self.next(false) == Some(chunk),
            self.next(true) is None,
            self.after(ChunkedStep::Take { cancelled: false }).queue == rest,
            self.after(ChunkedStep::Take { cancelled: true }).queue == rest,
            (ChunkedView { queue: Seq::empty(), ..self }).next(false) is None,
    {
        assert(rest.push(chunk).drop_last() =~= rest);
    }

    /// A download counts as cancelled exactly when a step has found it so.
    pub proof fn cancelling_is_remembered(self, steps: Seq<ChunkedStep>)
        ensures
            self.run(steps).cancelled <==> self.cancelled || finds_cancelled(steps),
        decreases steps.len(),
    {
        if steps.len() > 0 {
            let front = steps.drop_last();
            self.cancelling_is_remembered(front);
            if finds_cancelled(front) {
                let i = choose|i: int|
                    0 <= i < front.len() && match #[trigger] front[i] {
                        ChunkedStep::Take { cancelled } => cancelled,
                        ChunkedStep::WorkersDone { cancelled } => cancelled,
                        _ => false,
                    };
                assert(steps[i] == front[i]);
            }
            if finds_cancelled(steps) {
                let i = choose|i: int|
                    0 <= i < steps.len() && match #[trigger] steps[i] {
                        ChunkedStep::Take { cancelled } => cancelled,
                        ChunkedStep::WorkersDone { cancelled } => cancelled,
                        _ => false,
                    };
                if i < front.len() {
                    assert(front[i] == steps[i]);
                }
            }
            assert(steps[steps.len() - 1] == steps.last());
        }
    }

    /// Steps come in their turn: nothing before the first one, chunks and bytes only while it runs,
    /// chunks only for workers that fetch none, only what was taken is finished, merging only with
    /// nothing left to fetch, and the end only after merging.
    pub proof fn steps_come_in_turn(self, step: ChunkedStep)
        requires
            self.allows(step),
            self.connections > 0,
        ensures
            self.phase == ChunkedPhase::Ready ==> step is Start,
            self.phase == ChunkedPhase::Merging ==> step is Merged,
            self.phase != ChunkedPhase::Ended,
            step is Take ==> self.in_flight.len() < self.connections,
            step matches ChunkedStep::Finish { index, .. } ==> self.in_flight.count(index) > 0,
            step matches ChunkedStep::WorkersDone { cancelled } ==> self.in_flight.len() == 0 && (
            cancelled || self.queue.len() == 0),
            self.after(step).phase == ChunkedPhase::Merging <==> step
                == (ChunkedStep::WorkersDone { cancelled: false }),
            self.after(step).phase == ChunkedPhase::Ended <==> step is Merged || step
                == (ChunkedStep::WorkersDone { cancelled: true }),
            self.after(step).phase == ChunkedPhase::Running <==> !(step is Merged)
                && !(step is WorkersDone),
    {
    }

    /// No step is held up that can come: a download that has not begun can begin; while it runs,
    /// bytes can arrive as long as they can be counted, the rate can be taken, a worker that
    /// fetches nothing can look for a chunk, a chunk that is being fetched can be done, and the
    /// workers can end when nothing is being fetched and none waits, or the download is found
    /// cancelled; what is being merged can be complete.
    pub proof fn no_step_is_held_up(
        self,
        len: u64,
        cancelled: bool,
        index: usize,
        outcome: Result<(), Seq<char>>,
    )
        ensures
            self.phase == ChunkedPhase::Ready ==> self.allows(ChunkedStep::Start),
            self.phase == ChunkedPhase::Merging ==> self.allows(ChunkedStep::Merged),
            self.phase == ChunkedPhase::Running ==> {
                &&& self.allows(ChunkedStep::Sample)
                &&& self.downloaded + len <= u64::MAX ==> self.allows(ChunkedStep::Record { len })
                &&& self.in_flight.len() < self.connections && (cancelled || !self.cancelled)
                    ==> self.allows(ChunkedStep::Take { cancelled })
                &&& self.in_flight.count(index) > 0 ==> self.allows(
                    ChunkedStep::Finish { index, outcome },
                )
                &&& self.in_flight.len() == 0 ==> self.allows(
                    ChunkedStep::WorkersDone { cancelled: true },
                )
                &&& self.in_flight.len() == 0 && !self.cancelled && (self.queue.len() == 0
                    || self.connections == 0) ==> self.allows(
                    ChunkedStep::WorkersDone { cancelled: false },
                )
            },
    {
    }
}

/// A download of given chunks begins with one worker for each of them, within the limit, with
/// those that are not completed waiting in their order, and with the bytes that they have.
pub proof fn download_begins_with_its_chunks(
    downloader: HttpDownloader,
    task_id: Seq<char>,
    list: Seq<ChunkInfo>,
)
    requires
        list.len() <= usize::MAX,
        sum_downloaded(list) <= u64::MAX,
    ensures
        ({
            let start = downloader.chunked(task_id, list);
            &&& start.task_id == task_id
            &&& downloader.max_connections <= list.len() ==> start.connections
                == downloader.max_connections
            &&& downloader.max_connections > list.len() ==> start.connections == list.len()
            &&& start.queue == pending(list)
            &&& start.downloaded == sum_downloaded(list)
            &&& start.sampled == sum_downloaded(list)
            &&& start.in_flight.len() == 0
            &&& !start.cancelled
            &&& start.phase == ChunkedPhase::Ready
        }),
{
}

/// Chunks that are known are gone on with; only without any the file is cut anew.
pub proof fn known_chunks_are_used(
    downloader: HttpDownloader,
    total: u64,
    existing: Seq<ChunkInfo>,
)
    ensures
        existing.len() > 0 ==> downloader.chunks_for(total, existing) == existing,
        existing.len() == 0 ==> downloader.chunks_for(total, existing) == chunks::planned(
            total,
            downloader.chunk_size,
        ),
{
}

/// The bytes of chunks add up, completed chunks included: those of a chunk are its own, those of
/// two lists together those of each.
pub proof fn chunk_bytes_add_up(a: Seq<ChunkInfo>, b: Seq<ChunkInfo>, c: ChunkInfo)
    ensures
        sum_downloaded(Seq::empty()) == 0,
        sum_downloaded(seq![c]) == c.downloaded,
        sum_downloaded(a + b) == sum_downloaded(a) + sum_downloaded(b),
    decreases b.len(),
{
    assert(seq![c].drop_last() =~= Seq::<ChunkInfo>::empty());
    if b.len() == 0 {
        assert(a + b =~= a);
    } else {
        chunk_bytes_add_up(a, b.drop_last(), c);
        assert((a + b).drop_last() =~= a + b.drop_last());
    }
}

/// Exactly the chunks that are not completed wait, in their order: a chunk alone waits unless it is
/// completed, and of two lists those of the first wait in front of those of the second.
pub proof fn uncompleted_chunks_wait(a: Seq<ChunkInfo>, b: Seq<ChunkInfo>, c: ChunkInfo)
    ensures
        pending(Seq::empty()).len() == 0,
        !c.completed ==> pending(seq![c]) == seq![c],
        c.completed ==> pending(seq![c]).len() == 0,
        pending(a + b) == pending(a) + pending(b),
    decreases b.len(),
{
    reveal(Seq::filter);
    assert(seq![c].drop_last() =~= Seq::<ChunkInfo>::empty());
    assert(pending(Seq::empty()).len() == 0);
    assert(pending(seq![c].drop_last()).len() == 0);
    assert(is_pending(c) == !c.completed);
    if c.completed {
        assert(pending(seq![c]) == pending(seq![c].drop_last()));
        assert(pending(seq![c]) =~= Seq::<ChunkInfo>::empty());
    } else {
        assert(pending(seq![c]) =~= seq![c]);
    }
    if b.len() == 0 {
        assert(a + b =~= a);
        assert(pending(a) + pending(b) =~= pending(a));
    } else {
        uncompleted_chunks_wait(a, b.drop_last(), c);
        assert((a + b).drop_last() =~= a + b.drop_last());
        assert(pending(a + b) =~= pending(a) + pending(b));
    }
}

/// A file is fetched in chunks exactly where the server gives out parts and the size is known, and
/// then it is that size that is cut.
pub proof fn chunks_need_ranges_and_a_size(total_size: Option<u64>, supports_range: bool)
    ensures
        mode_for(total_size, supports_range) is Chunked <==> supports_range && total_size is Some,
        mode_for(total_size, supports_range) matches DownloadMode::Chunked(total) ==> total_size
            == Some(total),
{
}

/// The bytes that arrive in several steps of a download in one piece together.
pub open spec fn arrived_in_one(steps: Seq<SingleStep>) -> int
    decreases steps.len(),
{
    if steps.len() == 0 {
        0
    } else {
        arrived_in_one(steps.drop_last()) + match steps.last() {
            SingleStep::Record { len, .. } => len as int,
            _ => 0,
        }
    }
}

impl SingleView {
    /// A download in one piece has exactly the bytes that it had and those that have arrived since.
    pub proof fn bytes_are_counted(self, steps: Seq<SingleStep>)
        requires
            self.allows_all(steps),
        ensures
            self.run(steps).downloaded == self.downloaded + arrived_in_one(steps),
        decreases steps.len(),
    {
        if steps.len() > 0 {
            self.bytes_are_counted(steps.drop_last());
        }
    }

    /// A report is due exactly when bytes arrive half a second or more after the last one was, and
    /// from then on bytes are counted anew towards the rate; bytes that arrive earlier count
    /// towards the next report.
    pub proof fn reports_are_due_in_time(self, len: u64, elapsed_ms: u64)
        requires
            self.allows(SingleStep::Record { len, elapsed_ms }),
        ensures
            ({
                let next = self.after(SingleStep::Record { len, elapsed_ms });
                &&& next.phase == SinglePhase::Due <==> elapsed_ms >= 500
                &&& elapsed_ms >= 500 ==> next.reported == next.downloaded
                &&& elapsed_ms < 500 ==> next.reported == self.reported && next.phase
                    == SinglePhase::Running
                &&& next.downloaded == self.downloaded + len
                &&& next.task_id == self.task_id
            }),
    {
    }

    /// A report tells of the bytes that have arrived, at the given rate, over one connection; the
    /// beginning and the end are reported as such; and reporting changes no count.
    pub proof fn single_download_is_told(self, speed: u64)
        ensures
            self.report(SingleStep::Progress { speed }) == Some(
                EventView::Progress {
                    task_id: self.task_id,
                    downloaded: self.downloaded,
                    speed,
                    connections: 1,
                    bt_extra: None,
                },
            ),
            self.report(SingleStep::Start) == Some(
                EventView::StatusChanged {
                    task_id: self.task_id,
                    status: TaskStatus::Downloading,
                },
            ),
            self.report(SingleStep::Finish) == Some(
                EventView::Completed { task_id: self.task_id },
            ),
            self.after(SingleStep::Progress { speed }).downloaded == self.downloaded,
            self.after(SingleStep::Progress { speed }).reported == self.reported,
            self.after(SingleStep::Progress { speed }).phase == SinglePhase::Running,
            self.after(SingleStep::Start).downloaded == self.downloaded,
            self.after(SingleStep::Start).reported == self.reported,
            self.after(SingleStep::Start).phase == SinglePhase::Running,
            self.after(SingleStep::Finish).phase == SinglePhase::Ended,
            self.report(SingleStep::Record { len: speed, elapsed_ms: speed }) is None,
    {
    }

    /// Each step has its turn: the beginning first, a report exactly when one is due, bytes and the
    /// end in between, bytes as long as they can be counted.
    pub proof fn single_steps_come_in_turn(self, len: u64, elapsed_ms: u64, speed: u64)
        ensures
            self.allows(SingleStep::Start) <==> self.phase == SinglePhase::Ready,
            self.allows(SingleStep::Progress { speed }) <==> self.phase == SinglePhase::Due,
            self.allows(SingleStep::Finish) <==> self.phase == SinglePhase::Running,
            self.allows(SingleStep::Record { len, elapsed_ms }) <==> self.phase
                == SinglePhase::Running && self.downloaded + len <= u64::MAX,
    {
    }
}

impl SingleView {
    /// Whether no report comes due in any of several steps.
    pub open spec fn without_due(steps: Seq<SingleStep>) -> bool {
        forall|i: int|
            0 <= i < steps.len() ==> (#[trigger] steps[i] matches SingleStep::Record {
                len: _,
                elapsed_ms,
            } ==> elapsed_ms < 500)
    }

    /// Between two reports exactly the bytes that arrive count towards the second one: what has not
    /// been counted when it comes due is what has arrived since the first one was due.
    pub proof fn bytes_between_reports_count(self, steps: Seq<SingleStep>)
        requires
            self.wf(),
            self.reported == self.downloaded,
            self.allows_all(steps),
            Self::without_due(steps),
        ensures
            self.run(steps).downloaded - self.run(steps).reported == arrived_in_one(steps),
            self.run(steps).reported == self.reported,
        decreases steps.len(),
    {
        if steps.len() > 0 {
            let front = steps.drop_last();
            assert forall|i: int| 0 <= i < front.len() implies (
            #[trigger] front[i] matches SingleStep::Record { len: _, elapsed_ms } ==> elapsed_ms
                < 500) by {
                assert(steps[i] == front[i]);
            }
            assert(steps[steps.len() - 1] == steps.last());
            self.bytes_between_reports_count(front);
        }
    }
}

/// The chunks of a file are kept beside it, under its name with the extension `rdl_parts`.
pub proof fn chunks_are_kept_beside_the_file(save_path: PlaceView)
    ensures
        parts_path(save_path).base == save_path.base,
        parts_path(save_path).steps == save_path.steps.push(StepView::WithExtension("rdl_parts"@)),
{
}

} // verus!
