//! HTTP downloads: what to do next, and what to report.

use crate::chunks;
use crate::paths::{Place, PlaceView};
use crate::probe;
use crate::probe::ProbeResponse;
use crate::task::{opt_extra, opt_text};
use crate::task::{BtExtraView, BtProgressExtra, ChunkInfo, DownloadTask, TaskStatus};
use crate::text;
use vstd::multiset::Multiset;
use vstd::prelude::*;
use vstd::string::*;

verus! {

/// What a running transfer reports about its task.
#[derive(Debug)]
pub enum DownloadEvent {
    MetadataReady {
        task_id: String,
        total_size: Option<u64>,
        supports_range: bool,
        filename: String,
    },
    Progress {
        task_id: String,
        downloaded: u64,
        speed: u64,
        connections: usize,
        bt_extra: Option<BtProgressExtra>,
    },
    ChunkCompleted { task_id: String, chunk_index: usize },
    StatusChanged { task_id: String, status: TaskStatus },
    Error { task_id: String, message: String },
    Completed { task_id: String },
}

/// What a `DownloadEvent` holds.
pub enum EventView {
    MetadataReady {
        task_id: Seq<char>,
        total_size: Option<u64>,
        supports_range: bool,
        filename: Seq<char>,
    },
    Progress {
        task_id: Seq<char>,
        downloaded: u64,
        speed: u64,
        connections: usize,
        bt_extra: Option<BtExtraView>,
    },
    ChunkCompleted { task_id: Seq<char>, chunk_index: usize },
    StatusChanged { task_id: Seq<char>, status: TaskStatus },
    Error { task_id: Seq<char>, message: Seq<char> },
    Completed { task_id: Seq<char> },
}

impl View for DownloadEvent {
    type V = EventView;

    open spec fn view(&self) -> EventView {
        match *self {
            DownloadEvent::MetadataReady { task_id, total_size, supports_range, filename } =>
                EventView::MetadataReady {
                    task_id: task_id@,
                    total_size,
                    supports_range,
                    filename: filename@,
                },
            DownloadEvent::Progress { task_id, downloaded, speed, connections, bt_extra } =>
                EventView::Progress {
                    task_id: task_id@,
                    downloaded,
                    speed,
                    connections,
                    bt_extra: opt_extra(bt_extra),
                },
            DownloadEvent::ChunkCompleted { task_id, chunk_index } => EventView::ChunkCompleted {
                task_id: task_id@,
                chunk_index,
            },
            DownloadEvent::StatusChanged { task_id, status } => EventView::StatusChanged {
                task_id: task_id@,
                status,
            },
            DownloadEvent::Error { task_id, message } => EventView::Error {
                task_id: task_id@,
                message: message@,
            },
            DownloadEvent::Completed { task_id } => EventView::Completed { task_id: task_id@ },
        }
    }
}

impl Clone for DownloadEvent {
    fn clone(&self) -> (r: Self)
        ensures
            r@ == self@,
    {
        match self {
            DownloadEvent::MetadataReady { task_id, total_size, supports_range, filename } =>
                DownloadEvent::MetadataReady {
                    task_id: task_id.clone(),
                    total_size: *total_size,
                    supports_range: *supports_range,
                    filename: filename.clone(),
                },
            DownloadEvent::Progress { task_id, downloaded, speed, connections, bt_extra } =>
                DownloadEvent::Progress {
                    task_id: task_id.clone(),
                    downloaded: *downloaded,
                    speed: *speed,
                    connections: *connections,
                    bt_extra: match bt_extra {
                        Some(e) => Some(e.clone()),
                        None => None,
                    },
                },
            DownloadEvent::ChunkCompleted { task_id, chunk_index } =>
                DownloadEvent::ChunkCompleted {
                    task_id: task_id.clone(),
                    chunk_index: *chunk_index,
                },
            DownloadEvent::StatusChanged { task_id, status } => DownloadEvent::StatusChanged {
                task_id: task_id.clone(),
                status: *status,
            },
            DownloadEvent::Error { task_id, message } => DownloadEvent::Error {
                task_id: task_id.clone(),
                message: message.clone(),
            },
            DownloadEvent::Completed { task_id } => DownloadEvent::Completed {
                task_id: task_id.clone(),
            },
        }
    }
}

/// How a file is fetched.
#[derive(Debug, Clone, Copy, PartialEq, Eq, Structural)]
pub enum DownloadMode {
    /// In chunks of a file whose size is known.
    Chunked(u64),
    /// In one piece.
    Single,
}

/// A download after its URL has been probed: what to report, where the file goes, how to fetch it.
pub struct DownloadPlan {
    pub metadata: DownloadEvent,
    pub save_path: Place,
    pub mode: DownloadMode,
}

/// Chunks when the server gives out parts and the size is known, else one piece.
pub open spec fn mode_for(total_size: Option<u64>, supports_range: bool) -> DownloadMode {
    match total_size {
        Some(total) => if supports_range {
            DownloadMode::Chunked(total)
        } else {
            DownloadMode::Single
        },
        None => DownloadMode::Single,
    }
}

/// The directory that keeps the chunks of a file: its path with another extension.
pub open spec fn parts_path(save_path: PlaceView) -> PlaceView {
    save_path.with_extension("rdl_parts"@)
}

/// The directory that keeps the chunks of a file.
pub fn parts_dir(save_path: &Place) -> (r: Place)
    ensures
        r@ == parts_path(save_path@),
{
    save_path.with_extension("rdl_parts")
}

/// The bytes of a list of chunks that have been transferred.
pub open spec fn sum_downloaded(list: Seq<ChunkInfo>) -> nat
    decreases list.len(),
{
    if list.len() == 0 {
        0
    } else {
        sum_downloaded(list.drop_last()) + list.last().downloaded as nat
    }
}

/// Whether a chunk is still to be fetched.
pub open spec fn is_pending(chunk: ChunkInfo) -> bool {
    !chunk.completed
}

/// The chunks that are still to be fetched, in order.
pub open spec fn pending(list: Seq<ChunkInfo>) -> Seq<ChunkInfo> {
    list.filter(|c: ChunkInfo| is_pending(c))
}

proof fn sum_grows(list: Seq<ChunkInfo>, n: int)
    requires
        0 <= n <= list.len(),
    ensures
        sum_downloaded(list.take(n)) <= sum_downloaded(list),
    decreases list.len(),
{
    if n < list.len() {
        sum_grows(list.drop_last(), n);
        assert(list.drop_last().take(n) =~= list.take(n));
    } else {
        assert(list.take(n) =~= list);
    }
}

/// Nothing of newly planned chunks has been transferred, and all of them are to be fetched.
pub proof fn planned_chunks_are_pending(total: u64, chunk_size: u64)
    ensures
        sum_downloaded(chunks::planned(total, chunk_size)) == 0,
        pending(chunks::planned(total, chunk_size)) == chunks::planned(total, chunk_size),
{
    let plan = chunks::planned(total, chunk_size);
    planned_prefix(total, chunk_size, plan.len() as int);
    assert(plan.take(plan.len() as int) =~= plan);
}

proof fn planned_prefix(total: u64, chunk_size: u64, n: int)
    requires
        0 <= n <= chunks::planned(total, chunk_size).len(),
    ensures
        sum_downloaded(chunks::planned(total, chunk_size).take(n)) == 0,
        pending(chunks::planned(total, chunk_size).take(n)) == chunks::planned(
            total,
            chunk_size,
        ).take(n),
    decreases n,
{
    reveal(Seq::filter);
    let part = chunks::planned(total, chunk_size).take(n);
    if n > 0 {
        planned_prefix(total, chunk_size, n - 1);
        assert(part.drop_last() =~= chunks::planned(total, chunk_size).take(n - 1));
        assert(part.drop_last().push(part.last()) =~= part);
    }
}

/// The bytes of a list of chunks that have been transferred, where they fit into a number.
pub fn known_bytes(list: &Vec<ChunkInfo>) -> (r: Option<u64>)
    ensures
        r == (if sum_downloaded(list@) <= u64::MAX {
            Some(sum_downloaded(list@) as u64)
        } else {
            None
        }),
{
    let n: usize = list.len();
    let mut sum: u64 = 0;
    let mut i: usize = 0;
    while i < n
        invariant
            n == list@.len(),
            i <= n,
            sum == sum_downloaded(list@.take(i as int)),
        decreases n - i,
    {
        proof {
            sum_grows(list@, i + 1);
            assert(list@.take(i + 1).drop_last() =~= list@.take(i as int));
        }
        let downloaded: u64 = list[i].downloaded;
        if downloaded > u64::MAX - sum {
            return None;
        }
        sum = sum + downloaded;
        i += 1;
    }
    assert(list@.take(n as int) =~= list@);
    Some(sum)
}

fn pending_chunks(list: &Vec<ChunkInfo>) -> (r: Vec<ChunkInfo>)
    ensures
        r@ == pending(list@),
{
    let n: usize = list.len();
    let mut out: Vec<ChunkInfo> = Vec::new();
    let mut i: usize = 0;
    proof {
        reveal(Seq::filter);
    }
    while i < n
        invariant
            n == list@.len(),
            i <= n,
            out@ == pending(list@.take(i as int)),
        decreases n - i,
    {
        proof {
            reveal(Seq::filter);
            assert(list@.take(i + 1).drop_last() =~= list@.take(i as int));
        }
        if !list[i].completed {
            out.push(list[i]);
        }
        i += 1;
    }
    assert(list@.take(n as int) =~= list@);
    out
}

/// How far a download in chunks has come.
#[derive(Debug, Clone, Copy, PartialEq, Eq, Structural)]
pub enum ChunkedPhase {
    /// It has not been reported as begun.
    Ready,
    /// Workers fetch chunks.
    Running,
    /// The chunks are being merged.
    Merging,
    /// The file is complete, or the download was cancelled.
    Ended,
}

/// A download in chunks.
pub struct ChunkedDownload {
    pub task_id: String,
    /// How many workers fetch chunks.
    pub connections: usize,
    /// The chunks that no worker has taken yet; the last one is taken next.
    pub queue: Vec<ChunkInfo>,
    /// The indices of the chunks that are being fetched.
    pub in_flight: Vec<usize>,
    /// The bytes that have arrived.
    pub downloaded: u64,
    /// The bytes that had arrived when the rate was last taken.
    pub sampled: u64,
    /// Whether a worker has found the download cancelled.
    pub cancelled: bool,
    pub phase: ChunkedPhase,
}

/// What a `ChunkedDownload` holds.
#[verifier::ext_equal]
pub struct ChunkedView {
    pub task_id: Seq<char>,
    pub connections: usize,
    pub queue: Seq<ChunkInfo>,
    pub in_flight: Multiset<usize>,
    pub downloaded: u64,
    pub sampled: u64,
    pub cancelled: bool,
    pub phase: ChunkedPhase,
}

impl View for ChunkedDownload {
    type V = ChunkedView;

    open spec fn view(&self) -> ChunkedView {
        ChunkedView {
            task_id: self.task_id@,
            connections: self.connections,
            queue: self.queue@,
            in_flight: self.in_flight@.to_multiset(),
            downloaded: self.downloaded,
            sampled: self.sampled,
            cancelled: self.cancelled,
            phase: self.phase,
        }
    }
}

/// What happens in a download in chunks.
pub enum ChunkedStep {
    /// It is reported as begun.
    Start,
    /// A worker takes a chunk.
    Take { cancelled: bool },
    /// Bytes arrive.
    Record { len: u64 },
    /// A worker is done with a chunk.
    Finish { index: usize, outcome: Result<(), Seq<char>> },
    /// The rate is taken.
    Sample,
    /// All workers have ended.
    WorkersDone { cancelled: bool },
    /// The chunks have been merged.
    Merged,
}

/// The rate in bytes a second, taken from the bytes that arrived in a quarter of a second.
pub open spec fn sampled_speed(now: u64, before: u64) -> u64 {
    let delta = if now >= before {
        now - before
    } else {
        0
    };
    if delta * 4 > u64::MAX {
        u64::MAX
    } else {
        (delta * 4) as u64
    }
}

/// The message that a chunk has failed, for a given reason.
pub open spec fn failure_text(index: usize, reason: Seq<char>) -> Seq<char> {
    "Chunk "@ + text::decimal(index as nat) + " failed: "@ + reason
}

/// What the outcome of a chunk holds.
pub open spec fn outcome_view(outcome: Result<(), String>) -> Result<(), Seq<char>> {
    match outcome {
        Ok(_) => Ok(()),
        Err(e) => Err(e@),
    }
}

impl ChunkedView {
    /// What always holds: no byte is sampled before it arrives, no more chunks are being fetched
    /// than there are workers, and only chunks that are to be fetched wait in the queue.
    pub open spec fn wf(self) -> bool {
        &&& self.sampled <= self.downloaded
        &&& self.in_flight.len() <= self.connections
        &&& forall|i: int| 0 <= i < self.queue.len() ==> is_pending(#[trigger] self.queue[i])
    }

    /// What a worker takes: the last chunk of the queue, unless the download has been cancelled.
    pub open spec fn next(self, cancelled: bool) -> Option<ChunkInfo> {
        if self.queue.len() == 0 || cancelled {
            None
        } else {
            Some(self.queue.last())
        }
    }

    /// Whether a step can come next. A worker that takes a chunk fetches none; it finishes what it
    /// took; workers end on an empty queue, or when the download has been cancelled, which it then
    /// stays. Without workers the queue is never emptied.
    pub open spec fn allows(self, step: ChunkedStep) -> bool {
        match step {
            ChunkedStep::Start => self.phase == ChunkedPhase::Ready,
            ChunkedStep::Take { cancelled } => {
                &&& self.phase == ChunkedPhase::Running
                &&& self.in_flight.len() < self.connections
                &&& self.cancelled ==> cancelled
            },
            ChunkedStep::Record { len } => self.phase == ChunkedPhase::Running && self.downloaded
                + len <= u64::MAX,
            ChunkedStep::Finish { index, .. } => self.phase == ChunkedPhase::Running
                && self.in_flight.count(index) > 0,
            ChunkedStep::Sample => self.phase == ChunkedPhase::Running,
            ChunkedStep::WorkersDone { cancelled } => {
                &&& self.phase == ChunkedPhase::Running
                &&& self.in_flight.len() == 0
                &&& self.cancelled ==> cancelled
                &&& cancelled || self.queue.len() == 0 || self.connections == 0
            },
            ChunkedStep::Merged => self.phase == ChunkedPhase::Merging,
        }
    }

    /// The download after a step.
    pub open spec fn after(self, step: ChunkedStep) -> ChunkedView {
        match step {
            ChunkedStep::Start => ChunkedView { phase: ChunkedPhase::Running, ..self },
            ChunkedStep::Take { cancelled } => ChunkedView {
                queue: if self.queue.len() == 0 {
                    self.queue
                } else {
                    self.queue.drop_last()
                },
                in_flight: match self.next(cancelled) {
                    Some(chunk) => self.in_flight.insert(chunk.index),
                    None => self.in_flight,
                },
                cancelled: self.cancelled || cancelled,
                ..self
            },
            ChunkedStep::Record { len } => ChunkedView {
                downloaded: (self.downloaded + len) as u64,
                ..self
            },
            ChunkedStep::Finish { index, .. } => ChunkedView {
                in_flight: self.in_flight.remove(index),
                ..self
            },
            ChunkedStep::Sample => ChunkedView { sampled: self.downloaded, ..self },
            ChunkedStep::WorkersDone { cancelled } => ChunkedView {
                cancelled: self.cancelled || cancelled,
                phase: if cancelled {
                    ChunkedPhase::Ended
                } else {
                    ChunkedPhase::Merging
                },
                ..self
            },
            ChunkedStep::Merged => ChunkedView { phase: ChunkedPhase::Ended, ..self },
        }
    }

    /// What a step reports.
    pub open spec fn report(self, step: ChunkedStep) -> Option<EventView> {
        match step {
            ChunkedStep::Start => Some(
                EventView::StatusChanged {
                    task_id: self.task_id,
                    status: TaskStatus::Downloading,
                },
            ),
            ChunkedStep::Take { .. } => None,
            ChunkedStep::Record { .. } => None,
            ChunkedStep::Finish { index, outcome } => Some(
                match outcome {
                    Ok(_) => EventView::ChunkCompleted { task_id: self.task_id, chunk_index: index },
                    Err(e) => EventView::Error {
                        task_id: self.task_id,
                        message: failure_text(index, e),
                    },
                },
            ),
            ChunkedStep::Sample => Some(
                EventView::Progress {
                    task_id: self.task_id,
                    downloaded: self.downloaded,
                    speed: sampled_speed(self.downloaded, self.sampled),
                    connections: self.in_flight.len() as usize,
                    bt_extra: None,
                },
            ),
            ChunkedStep::WorkersDone { cancelled } => if cancelled {
                None
            } else {
                Some(
                    EventView::StatusChanged { task_id: self.task_id, status: TaskStatus::Merging },
                )
            },
            ChunkedStep::Merged => Some(EventView::Completed { task_id: self.task_id }),
        }
    }
}

impl ChunkedDownload {
    /// The report that the download begins.
    pub fn started(&mut self) -> (r: DownloadEvent)
        requires
            old(self)@.allows(ChunkedStep::Start),
        ensures
            final(self)@ == old(self)@.after(ChunkedStep::Start),
            Some(r@) == old(self)@.report(ChunkedStep::Start),
    {
        self.phase = ChunkedPhase::Running;
        DownloadEvent::StatusChanged {
            task_id: self.task_id.clone(),
            status: TaskStatus::Downloading,
        }
    }

    /// A worker takes the last chunk of the queue. It fetches it, unless the download has been
    /// cancelled; then the chunk is dropped and the worker ends, as it does on an empty queue.
    pub fn next_chunk(&mut self, cancelled: bool) -> (r: Option<ChunkInfo>)
        requires
            old(self)@.allows(ChunkedStep::Take { cancelled }),
        ensures
            final(self)@ == old(self)@.after(ChunkedStep::Take { cancelled }),
            r == old(self)@.next(cancelled),
    {
        broadcast use vstd::seq_lib::group_to_multiset_ensures;

        self.cancelled = self.cancelled || cancelled;
        match self.queue.pop() {
            Some(chunk) => {
                if cancelled {
                    return None;
                }
                self.in_flight.push(chunk.index);
                Some(chunk)
            },
            None => None,
        }
    }

    /// Bytes arrive.
    pub fn record(&mut self, len: u64)
        requires
            old(self)@.allows(ChunkedStep::Record { len }),
        ensures
            final(self)@ == old(self)@.after(ChunkedStep::Record { len }),
    {
        self.downloaded = self.downloaded + len;
    }

    /// A worker is done with a chunk; the outcome is reported.
    pub fn finish_chunk(&mut self, index: usize, outcome: Result<(), String>) -> (r: DownloadEvent)
        requires
            old(self)@.allows(ChunkedStep::Finish { index, outcome: outcome_view(outcome) }),
        ensures
            final(self)@ == old(self)@.after(
                ChunkedStep::Finish { index, outcome: outcome_view(outcome) },
            ),
            Some(r@) == old(self)@.report(
                ChunkedStep::Finish { index, outcome: outcome_view(outcome) },
            ),
    {
        broadcast use vstd::seq_lib::group_to_multiset_ensures;

        let n: usize = self.in_flight.len();
        let mut at: usize = 0;
        assert(self.in_flight@.contains(index));
        while at < n && self.in_flight[at] != index
            invariant
                n == self.in_flight@.len(),
                at <= n,
                forall|j: int| 0 <= j < at ==> self.in_flight@[j] != index,
            decreases n - at,
        {
            at += 1;
        }
        self.in_flight.remove(at);
        match outcome {
            Ok(_) => DownloadEvent::ChunkCompleted {
                task_id: self.task_id.clone(),
                chunk_index: index,
            },
            Err(e) => {
                let mut message = "Chunk ".to_owned();
                text::push_decimal(&mut message, index as u64);
                message.append(" failed: ");
                message.append(e.as_str());
                DownloadEvent::Error { task_id: self.task_id.clone(), message }
            },
        }
    }

    /// Four times a second: the rate since the last time, and the report of it.
    pub fn sample(&mut self) -> (r: DownloadEvent)
        requires
            old(self)@.allows(ChunkedStep::Sample),
        ensures
            final(self)@ == old(self)@.after(ChunkedStep::Sample),
            Some(r@) == old(self)@.report(ChunkedStep::Sample),
    {
        broadcast use vstd::seq_lib::group_to_multiset_ensures;

        let delta: u64 = self.downloaded.saturating_sub(self.sampled);
        let speed: u64 = if delta > u64::MAX / 4 {
            u64::MAX
        } else {
            delta * 4
        };
        self.sampled = self.downloaded;
        DownloadEvent::Progress {
            task_id: self.task_id.clone(),
            downloaded: self.downloaded,
            speed,
            connections: self.in_flight.len(),
            bt_extra: None,
        }
    }

    /// When all workers have ended: the report that the chunks are being merged; nothing more is
    /// done where the download was cancelled.
    pub fn workers_done(&mut self, cancelled: bool) -> (r: Option<DownloadEvent>)
        requires
            old(self)@.allows(ChunkedStep::WorkersDone { cancelled }),
        ensures
            final(self)@ == old(self)@.after(ChunkedStep::WorkersDone { cancelled }),
            match r {
                Some(event) => Some(event@) == old(self)@.report(
                    ChunkedStep::WorkersDone { cancelled },
                ),
                None => old(self)@.report(ChunkedStep::WorkersDone { cancelled }) is None,
            },
    {
        self.cancelled = self.cancelled || cancelled;
        if cancelled {
            self.phase = ChunkedPhase::Ended;
            None
        } else {
            self.phase = ChunkedPhase::Merging;
            Some(
                DownloadEvent::StatusChanged {
                    task_id: self.task_id.clone(),
                    status: TaskStatus::Merging,
                },
            )
        }
    }

    /// The report that the file is complete.
    pub fn merged(&mut self) -> (r: DownloadEvent)
        requires
            old(self)@.allows(ChunkedStep::Merged),
        ensures
            final(self)@ == old(self)@.after(ChunkedStep::Merged),
            Some(r@) == old(self)@.report(ChunkedStep::Merged),
    {
        self.phase = ChunkedPhase::Ended;
        DownloadEvent::Completed { task_id: self.task_id.clone() }
    }
}

/// A new download in chunks asks for each byte of the file exactly once.
pub proof fn each_byte_is_asked_for_once(total: u64, chunk_size: u64, byte: int)
    requires
        chunks::can_cut(total, chunk_size),
        0 <= byte < total,
    ensures
        exists|i: int|
            0 <= i < pending(chunks::planned(total, chunk_size)).len() && asks_for(
                #[trigger] pending(chunks::planned(total, chunk_size))[i],
                byte,
            ),
        forall|i: int, j: int|
            0 <= i < pending(chunks::planned(total, chunk_size)).len() && 0 <= j < pending(
                chunks::planned(total, chunk_size),
            ).len() && asks_for(#[trigger] pending(chunks::planned(total, chunk_size))[i], byte)
                && asks_for(#[trigger] pending(chunks::planned(total, chunk_size))[j], byte) ==> i
                == j,
{
    let plan = chunks::planned(total, chunk_size);
    planned_chunks_are_pending(total, chunk_size);
    chunks::each_byte_in_one_chunk(total, chunk_size, byte);
    let k = choose|k: int|
        0 <= k < plan.len() && (#[trigger] plan[k]).start <= byte < plan[k].end;
    assert(asks_for(plan[k], byte));
}

/// Whether the request for what is missing of a chunk asks for a byte.
pub open spec fn asks_for(chunk: ChunkInfo, byte: int) -> bool {
    chunks::missing_range(chunk) matches Some((first, last)) && first <= byte <= last
}

/// The time between two reports of a download in one piece, in milliseconds.
pub const REPORT_INTERVAL_MS: u64 = 500;

/// How far a download in one piece has come.
#[derive(Debug, Clone, Copy, PartialEq, Eq, Structural)]
pub enum SinglePhase {
    /// It has not been reported as begun.
    Ready,
    /// Bytes arrive.
    Running,
    /// A report of the bytes that have arrived is due.
    Due,
    /// The file is complete.
    Ended,
}

/// A download in one piece.
pub struct SingleDownload {
    pub task_id: String,
    /// The bytes that have arrived.
    pub downloaded: u64,
    /// The bytes that had arrived when a report was last due.
    pub reported: u64,
    pub phase: SinglePhase,
}

/// What a `SingleDownload` holds.
#[verifier::ext_equal]
pub struct SingleView {
    pub task_id: Seq<char>,
    pub downloaded: u64,
    pub reported: u64,
    pub phase: SinglePhase,
}

impl View for SingleDownload {
    type V = SingleView;

    open spec fn view(&self) -> SingleView {
        SingleView {
            task_id: self.task_id@,
            downloaded: self.downloaded,
            reported: self.reported,
            phase: self.phase,
        }
    }
}

/// What happens in a download in one piece.
pub enum SingleStep {
    /// It is reported as begun.
    Start,
    /// Bytes arrive, `elapsed_ms` after a report was last due.
    Record { len: u64, elapsed_ms: u64 },
    /// The bytes that have arrived are reported, at a given rate.
    Progress { speed: u64 },
    /// All bytes have arrived.
    Finish,
}

impl SingleView {
    /// What always holds: no byte is reported before it arrives.
    pub open spec fn wf(self) -> bool {
        self.reported <= self.downloaded
    }

    /// Whether a step can come next.
    pub open spec fn allows(self, step: SingleStep) -> bool {
        match step {
            SingleStep::Start => self.phase == SinglePhase::Ready,
            SingleStep::Record { len, .. } => self.phase == SinglePhase::Running && self.downloaded
                + len <= u64::MAX,
            SingleStep::Progress { .. } => self.phase == SinglePhase::Due,
            SingleStep::Finish => self.phase == SinglePhase::Running,
        }
    }

    /// The download after a step.
    pub open spec fn after(self, step: SingleStep) -> SingleView {
        match step {
            SingleStep::Start => SingleView { phase: SinglePhase::Running, ..self },
            SingleStep::Record { len, elapsed_ms } => {
                let downloaded = (self.downloaded + len) as u64;
                if elapsed_ms >= REPORT_INTERVAL_MS {
                    SingleView { downloaded, reported: downloaded, phase: SinglePhase::Due, ..self }
                } else {
                    SingleView { downloaded, ..self }
                }
            },
            SingleStep::Progress { .. } => SingleView { phase: SinglePhase::Running, ..self },
            SingleStep::Finish => SingleView { phase: SinglePhase::Ended, ..self },
        }
    }

    /// What a step reports.
    pub open spec fn report(self, step: SingleStep) -> Option<EventView> {
        match step {
            SingleStep::Start => Some(
                EventView::StatusChanged {
                    task_id: self.task_id,
                    status: TaskStatus::Downloading,
                },
            ),
            SingleStep::Record { .. } => None,
            SingleStep::Progress { speed } => Some(
                EventView::Progress {
                    task_id: self.task_id,
                    downloaded: self.downloaded,
                    speed,
                    connections: 1,
                    bt_extra: None,
                },
            ),
            SingleStep::Finish => Some(EventView::Completed { task_id: self.task_id }),
        }
    }
}

impl SingleDownload {
    /// The report that the download begins.
    pub fn started(&mut self) -> (r: DownloadEvent)
        requires
            old(self)@.allows(SingleStep::Start),
        ensures
            final(self)@ == old(self)@.after(SingleStep::Start),
            Some(r@) == old(self)@.report(SingleStep::Start),
    {
        self.phase = SinglePhase::Running;
        DownloadEvent::StatusChanged {
            task_id: self.task_id.clone(),
            status: TaskStatus::Downloading,
        }
    }

    /// Bytes arrive, `elapsed_ms` after a report was last due. When one is due now, the bytes that
    /// arrived since then.
    pub fn record(&mut self, len: u64, elapsed_ms: u64) -> (r: Option<u64>)
        requires
            old(self)@.wf(),
            old(self)@.allows(SingleStep::Record { len, elapsed_ms }),
        ensures
            final(self)@ == old(self)@.after(SingleStep::Record { len, elapsed_ms }),
            r == (if elapsed_ms >= REPORT_INTERVAL_MS {
                Some((old(self)@.downloaded + len - old(self)@.reported) as u64)
            } else {
                None
            }),
    {
        self.downloaded = self.downloaded + len;
        if elapsed_ms >= REPORT_INTERVAL_MS {
            let delta: u64 = self.downloaded - self.reported;
            self.reported = self.downloaded;
            self.phase = SinglePhase::Due;
            Some(delta)
        } else {
            None
        }
    }

    /// The report of the bytes that have arrived, at a given rate.
    pub fn progress(&mut self, speed: u64) -> (r: DownloadEvent)
        requires
            old(self)@.allows(SingleStep::Progress { speed }),
        ensures
            final(self)@ == old(self)@.after(SingleStep::Progress { speed }),
            Some(r@) == old(self)@.report(SingleStep::Progress { speed }),
    {
        self.phase = SinglePhase::Running;
        DownloadEvent::Progress {
            task_id: self.task_id.clone(),
            downloaded: self.downloaded,
            speed,
            connections: 1,
            bt_extra: None,
        }
    }

    /// The report that the file is complete.
    pub fn finished(&mut self) -> (r: DownloadEvent)
        requires
            old(self)@.allows(SingleStep::Finish),
        ensures
            final(self)@ == old(self)@.after(SingleStep::Finish),
            Some(r@) == old(self)@.report(SingleStep::Finish),
    {
        self.phase = SinglePhase::Ended;
        DownloadEvent::Completed { task_id: self.task_id.clone() }
    }
}

/// The name under which the program presents itself to servers.
pub fn user_agent() -> (r: &'static str)
    ensures
        r@ == "RustDownload/0.1 (IDM-like)"@,
{
    "RustDownload/0.1 (IDM-like)"
}

/// The `Range` header of a probe by `GET`: the first byte only.
pub fn probe_range() -> (r: String)
    ensures
        r@ == chunks::range_text(0, 0),
{
    chunks::range_header(0, 0)
}

/// Whether the answer to a `HEAD` request tells enough: there is one, and its status is a
/// success. Otherwise the URL is probed by `GET`.
pub fn head_suffices(status: Option<u16>) -> (r: bool)
    ensures
        r <==> (status matches Some(code) && 200 <= code < 300),
{
    match status {
        Some(code) => 200 <= code && code < 300,
        None => false,
    }
}

/// The limits of HTTP downloads.
#[derive(Debug, Clone, Copy, PartialEq, Eq, Structural)]
pub struct HttpDownloader {
    pub max_connections: usize,
    pub chunk_size: u64,
}

impl HttpDownloader {
    /// Downloads over at most `max_connections` connections, in chunks of `chunk_size` bytes.
    pub fn new(max_connections: usize, chunk_size: u64) -> (r: Self)
        ensures
            r == (HttpDownloader { max_connections, chunk_size }),
    {
        HttpDownloader { max_connections, chunk_size }
    }

    /// Size, ranges and name of a download, from the answer to the probe of its URL.
    pub fn probe_url(&self, resp: &ProbeResponse, url: &str) -> (r: (Option<u64>, bool, String))
        ensures
            r.0 == probe::probed_size(*resp),
            r.1 == probe::serves_ranges(*resp),
            r.2@ == probe::chosen_name(
                opt_text(resp.content_disposition),
                probe::url_path(url@),
            ),
    {
        (
            probe::probe_size(resp),
            probe::probe_ranges(resp),
            probe::extract_filename(&resp.content_disposition, url),
        )
    }

    /// What to do with a task after the probe of its URL has told size, ranges and name.
    pub fn download(&self, task: &DownloadTask, probed: (Option<u64>, bool, String)) -> (r:
        DownloadPlan)
        ensures
            r.metadata@ == (EventView::MetadataReady {
                task_id: task@.id,
                total_size: probed.0,
                supports_range: probed.1,
                filename: probed.2@,
            }),
            r.save_path@ == task@.save_path.join(probed.2@),
            r.mode == mode_for(probed.0, probed.1),
    {
        let (total_size, supports_range, filename) = probed;
        let save_path = task.save_path.join(filename.as_str());
        let mode = match total_size {
            Some(total) => if supports_range {
                DownloadMode::Chunked(total)
            } else {
                DownloadMode::Single
            },
            None => DownloadMode::Single,
        };
        DownloadPlan {
            metadata: DownloadEvent::MetadataReady {
                task_id: task.id.clone(),
                total_size,
                supports_range,
                filename,
            },
            save_path,
            mode,
        }
    }

    /// The chunks of a download: those that are known already, else newly planned ones.
    pub open spec fn chunks_for(self, total_size: u64, existing: Seq<ChunkInfo>) -> Seq<ChunkInfo> {
        if existing.len() == 0 {
            chunks::planned(total_size, self.chunk_size)
        } else {
            existing
        }
    }

    /// A download of given chunks before it begins: one worker for each chunk, within the limit.
    pub open spec fn chunked(self, task_id: Seq<char>, list: Seq<ChunkInfo>) -> ChunkedView {
        ChunkedView {
            task_id,
            connections: chunks::min(self.max_connections as int, list.len() as int) as usize,
            queue: pending(list),
            in_flight: Multiset::empty(),
            downloaded: sum_downloaded(list) as u64,
            sampled: sum_downloaded(list) as u64,
            cancelled: false,
            phase: ChunkedPhase::Ready,
        }
    }

    /// Sets up a download in chunks.
    pub fn download_chunked(
        &self,
        task_id: &str,
        total_size: u64,
        existing: &Vec<ChunkInfo>,
    ) -> (r: ChunkedDownload)
        requires
            existing@.len() == 0 ==> chunks::can_cut(total_size, self.chunk_size),
            sum_downloaded(existing@) <= u64::MAX,
        ensures
            r@.wf(),
            r@ == self.chunked(task_id@, self.chunks_for(total_size, existing@)),
    {
        let list = if existing.len() == 0 {
            proof {
                planned_chunks_are_pending(total_size, self.chunk_size);
            }
            chunks::create_chunks(total_size, self.chunk_size)
        } else {
            crate::task::clone_chunks(existing)
        };
        let connections: usize = if self.max_connections <= list.len() {
            self.max_connections
        } else {
            list.len()
        };
        let downloaded: u64 = match known_bytes(&list) {
            Some(sum) => sum,
            None => 0,
        };
        let queue = pending_chunks(&list);
        proof {
            let pred = |c: ChunkInfo| is_pending(c);
            assert forall|i: int| 0 <= i < queue@.len() implies is_pending(#[trigger] queue@[i]) by {
                list@.lemma_filter_pred(pred, i);
            }
        }
        let in_flight: Vec<usize> = Vec::new();
        proof {
            broadcast use vstd::seq_lib::group_to_multiset_ensures;

            assert(in_flight@.to_multiset() =~= Multiset::empty());
        }
        ChunkedDownload {
            task_id: task_id.to_owned(),
            connections,
            queue,
            in_flight,
            downloaded,
            sampled: downloaded,
            cancelled: false,
            phase: ChunkedPhase::Ready,
        }
    }

    /// Sets up a download in one piece.
    pub fn download_single(&self, task_id: &str) -> (r: SingleDownload)
        ensures
            r@ == (SingleView {
                task_id: task_id@,
                downloaded: 0,
                reported: 0,
                phase: SinglePhase::Ready,
            }),
    {
        SingleDownload {
            task_id: task_id.to_owned(),
            downloaded: 0,
            reported: 0,
            phase: SinglePhase::Ready,
        }
    }
}

} // verus!
