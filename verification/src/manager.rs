//! The list of tasks, and what is done with them.

use crate::bt;
use crate::bt::BtEngine;
use crate::config::{AppConfig, ConfigView};
use crate::engine;
use crate::engine::{DownloadEvent, EventView, HttpDownloader};
use crate::paths::{Place, PlaceView, Platform};
use crate::registry;
use crate::registry::Registry;
use crate::task;
use crate::task::{ChunkInfo, DownloadTask, TaskStatus, TaskType, TaskView, Timestamp};
use crate::text;
use vstd::prelude::*;
use vstd::string::*;

verus! {

/// What a list of tasks holds.
pub open spec fn views(list: Seq<DownloadTask>) -> Seq<TaskView> {
    list.map_values(|t: DownloadTask| t@)
}

/// The first position, from `from` on, of a task with a given id.
pub open spec fn index_from(list: Seq<TaskView>, id: Seq<char>, from: int) -> Option<int>
    decreases list.len() - from,
{
    if from >= list.len() {
        None
    } else if list[from].id == id {
        Some(from)
    } else {
        index_from(list, id, from + 1)
    }
}

/// The position of the task with a given id; the first one, should there be several.
pub open spec fn task_index(list: Seq<TaskView>, id: Seq<char>) -> Option<int> {
    index_from(list, id, 0)
}

/// `index_from` finds the first task with the id, wherever there is one.
pub proof fn index_from_is_first(list: Seq<TaskView>, id: Seq<char>, from: int)
    requires
        0 <= from,
    ensures
        match index_from(list, id, from) {
            Some(i) => from <= i < list.len() && list[i].id == id && forall|j: int|
                from <= j < i ==> (#[trigger] list[j]).id != id,
            None => forall|j: int| from <= j < list.len() ==> (#[trigger] list[j]).id != id,
        },
    decreases list.len() - from,
{
    if from < list.len() && list[from].id != id {
        index_from_is_first(list, id, from + 1);
    }
}

/// The position of the task with a given id; the first one, should there be several.
pub fn find_task(tasks: &Vec<DownloadTask>, id: &str) -> (r: Option<usize>)
    ensures
        match (r, task_index(views(tasks@), id@)) {
            (Some(i), Some(k)) => i == k && i < tasks@.len() && tasks@[i as int]@.id == id@,
            (None, None) => true,
            _ => false,
        },
{
    let n: usize = tasks.len();
    let mut i: usize = 0;
    while i < n
        invariant
            n == tasks@.len(),
            i <= n,
            task_index(views(tasks@), id@) == index_from(views(tasks@), id@, i as int),
        decreases n - i,
    {
        if text::text_eq(tasks[i].id.as_str(), id) {
            return Some(i);
        }
        i += 1;
    }
    None
}

/// The task that an event is about.
pub open spec fn event_task(event: EventView) -> Seq<char> {
    match event {
        EventView::MetadataReady { task_id, .. } => task_id,
        EventView::Progress { task_id, .. } => task_id,
        EventView::ChunkCompleted { task_id, .. } => task_id,
        EventView::StatusChanged { task_id, .. } => task_id,
        EventView::Error { task_id, .. } => task_id,
        EventView::Completed { task_id } => task_id,
    }
}

/// Whether a task in this state takes reports of its progress.
pub open spec fn takes_progress(status: TaskStatus) -> bool {
    status == TaskStatus::Downloading || status == TaskStatus::Queued || status
        == TaskStatus::Merging
}

/// A task after an event about it.
pub open spec fn task_after(task: TaskView, event: EventView) -> TaskView {
    match event {
        EventView::MetadataReady { task_id, total_size, supports_range, filename } => TaskView {
            total_size,
            supports_range,
            filename,
            ..task
        },
        EventView::Progress { task_id, downloaded, speed, connections, bt_extra } => {
            let moved = if takes_progress(task.status) {
                TaskView { downloaded, speed, connections, ..task }
            } else {
                task
            };
            match bt_extra {
                Some(extra) => TaskView { bt_extra: Some(extra), ..moved },
                None => moved,
            }
        },
        EventView::ChunkCompleted { task_id, chunk_index } => if chunk_index < task.chunks.len() {
            TaskView {
                chunks: task.chunks.update(
                    chunk_index as int,
                    ChunkInfo { completed: true, ..task.chunks[chunk_index as int] },
                ),
                ..task
            }
        } else {
            task
        },
        EventView::StatusChanged { task_id, status } => TaskView { status, ..task },
        EventView::Error { task_id, message } => TaskView {
            status: TaskStatus::Failed,
            error_message: Some(message),
            ..task
        },
        EventView::Completed { task_id } => TaskView {
            status: TaskStatus::Completed,
            speed: 0,
            ..task
        },
    }
}

/// A list of tasks after an event: the task that it is about has changed, where there is one.
pub open spec fn list_after(list: Seq<TaskView>, event: EventView) -> Seq<TaskView> {
    match task_index(list, event_task(event)) {
        Some(i) => list.update(i, task_after(list[i], event)),
        None => list,
    }
}

/// A list of tasks after several events, one after the other.
pub open spec fn list_after_all(list: Seq<TaskView>, events: Seq<EventView>) -> Seq<TaskView>
    decreases events.len(),
{
    if events.len() == 0 {
        list
    } else {
        list_after(list_after_all(list, events.drop_last()), events.last())
    }
}

fn apply_to_task(task: &mut DownloadTask, event: DownloadEvent)
    ensures
        final(task)@ == task_after(old(task)@, event@),
{
    match event {
        DownloadEvent::MetadataReady { task_id, total_size, supports_range, filename } => {
            task.total_size = total_size;
            task.supports_range = supports_range;
            task.filename = filename;
        },
        DownloadEvent::Progress { task_id, downloaded, speed, connections, bt_extra } => {
            let status = task.status;
            if status == TaskStatus::Downloading || status == TaskStatus::Queued || status
                == TaskStatus::Merging {
                task.downloaded = downloaded;
                task.speed = speed;
                task.connections = connections;
            }
            if let Some(extra) = bt_extra {
                task.bt_extra = Some(extra);
            }
        },
        DownloadEvent::ChunkCompleted { task_id, chunk_index } => {
            if chunk_index < task.chunks.len() {
                let mut chunk = task.chunks[chunk_index];
                chunk.completed = true;
                task.chunks.set(chunk_index, chunk);
            }
        },
        DownloadEvent::StatusChanged { task_id, status } => {
            task.status = status;
        },
        DownloadEvent::Error { task_id, message } => {
            task.status = TaskStatus::Failed;
            task.error_message = Some(message);
        },
        DownloadEvent::Completed { task_id } => {
            task.status = TaskStatus::Completed;
            task.speed = 0;
        },
    }
}

fn event_task_id(event: &DownloadEvent) -> (r: &str)
    ensures
        r@ == event_task(event@),
{
    match event {
        DownloadEvent::MetadataReady { task_id, .. } => task_id.as_str(),
        DownloadEvent::Progress { task_id, .. } => task_id.as_str(),
        DownloadEvent::ChunkCompleted { task_id, .. } => task_id.as_str(),
        DownloadEvent::StatusChanged { task_id, .. } => task_id.as_str(),
        DownloadEvent::Error { task_id, .. } => task_id.as_str(),
        DownloadEvent::Completed { task_id } => task_id.as_str(),
    }
}

/// The tasks, the settings they are started with, and the transfers that can be cancelled.
pub struct DownloadManager {
    pub tasks: Vec<DownloadTask>,
    pub config: AppConfig,
    pub http_downloader: HttpDownloader,
    /// Whether there is a BitTorrent engine.
    pub bt_available: bool,
    /// The number of the token that cancels each task's HTTP transfer.
    pub cancel_tokens: Registry,
}

/// What a `DownloadManager` holds.
#[verifier::ext_equal]
pub struct ManagerView {
    pub tasks: Seq<TaskView>,
    pub config: ConfigView,
    pub http_downloader: HttpDownloader,
    pub bt_available: bool,
    pub cancel_tokens: Map<Seq<char>, u64>,
}

impl View for DownloadManager {
    type V = ManagerView;

    open spec fn view(&self) -> ManagerView {
        ManagerView {
            tasks: views(self.tasks@),
            config: self.config@,
            http_downloader: self.http_downloader,
            bt_available: self.bt_available,
            cancel_tokens: self.cancel_tokens@,
        }
    }
}

impl DownloadManager {
    /// Takes in a report: the task that it is about changes, where there is one.
    pub fn handle_event(&mut self, event: DownloadEvent)
        ensures
            final(self)@ == (ManagerView {
                tasks: list_after(old(self)@.tasks, event@),
                ..old(self)@
            }),
    {
        let ghost before = views(self.tasks@);
        let found = find_task(&self.tasks, event_task_id(&event));
        match found {
            Some(i) => {
                apply_to_task(&mut self.tasks[i], event);
                assert(views(self.tasks@) =~= list_after(before, event@));
            },
            None => {},
        }
    }
}

/// Why something could not be done with a task.
#[derive(Debug)]
pub enum ManagerError {
    /// There is no task with this id.
    NotFound(String),
    /// A torrent needs the BitTorrent engine, and there is none.
    NoEngine,
    /// The BitTorrent engine failed, for this reason.
    Engine(String),
}

/// What a `ManagerError` holds.
pub enum ErrorView {
    NotFound(Seq<char>),
    NoEngine,
    Engine(Seq<char>),
}

impl View for ManagerError {
    type V = ErrorView;

    open spec fn view(&self) -> ErrorView {
        match *self {
            ManagerError::NotFound(id) => ErrorView::NotFound(id@),
            ManagerError::NoEngine => ErrorView::NoEngine,
            ManagerError::Engine(reason) => ErrorView::Engine(reason@),
        }
    }
}

impl ErrorView {
    /// The error on screen.
    pub open spec fn message(self) -> Seq<char> {
        match self {
            ErrorView::NotFound(id) => "Task not found: "@ + id,
            ErrorView::NoEngine => "BT engine not available"@,
            ErrorView::Engine(reason) => reason,
        }
    }
}

impl ManagerError {
    /// The error on screen.
    pub fn message(&self) -> (r: String)
        ensures
            r@ == self@.message(),
    {
        match self {
            ManagerError::NotFound(id) => {
                let mut out = "Task not found: ".to_owned();
                out.append(id.as_str());
                out
            },
            ManagerError::NoEngine => "BT engine not available".to_owned(),
            ManagerError::Engine(reason) => reason.clone(),
        }
    }
}

/// How a task that is started is transferred.
pub enum StartAction {
    /// It is being transferred already.
    Nothing,
    /// Fetch it over HTTP.
    Http(DownloadTask),
    /// Hand its link to the BitTorrent engine.
    BitTorrent(String),
}

/// What a `StartAction` holds.
pub enum StartView {
    Nothing,
    Http(TaskView),
    BitTorrent(Seq<char>),
}

impl View for StartAction {
    type V = StartView;

    open spec fn view(&self) -> StartView {
        match *self {
            StartAction::Nothing => StartView::Nothing,
            StartAction::Http(task) => StartView::Http(task@),
            StartAction::BitTorrent(url) => StartView::BitTorrent(url@),
        }
    }
}

/// What a result holds that is a `StartAction` or a `ManagerError`.
pub open spec fn start_view(r: Result<StartAction, ManagerError>) -> Result<StartView, ErrorView> {
    match r {
        Ok(action) => Ok(action@),
        Err(e) => Err(e@),
    }
}

/// What ends the transfer of a task.
#[derive(Debug, Clone, Copy, PartialEq, Eq, Structural)]
pub enum TransferAction {
    /// Nothing runs.
    Nothing,
    /// Cancel the HTTP transfer with this token.
    Cancel(u64),
    /// The BitTorrent engine has to act.
    Engine,
}

/// What is deleted with a task: the file, and the directory of its chunks.
pub struct RemovedFiles {
    pub file: Place,
    pub parts: Place,
}

impl ManagerView {
    /// The manager with a task set to a state.
    pub open spec fn with_status(self, i: int, status: TaskStatus) -> ManagerView {
        ManagerView {
            tasks: self.tasks.update(i, TaskView { status, ..self.tasks[i] }),
            ..self
        }
    }

    /// Starting a task: what is to be done, and the manager afterwards. A task that runs is left
    /// alone; a torrent needs the engine; an HTTP transfer can be cancelled with `token`.
    pub open spec fn started(self, id: Seq<char>, token: u64) -> (
        Result<StartView, ErrorView>,
        ManagerView,
    ) {
        match task_index(self.tasks, id) {
            None => (Err(ErrorView::NotFound(id)), self),
            Some(i) => if self.tasks[i].status == TaskStatus::Downloading {
                (Ok(StartView::Nothing), self)
            } else {
                match self.tasks[i].task_type {
                    TaskType::Http => (
                        Ok(StartView::Http(self.tasks[i])),
                        ManagerView {
                            cancel_tokens: self.cancel_tokens.insert(id, token),
                            ..self.with_status(i, TaskStatus::Downloading)
                        },
                    ),
                    TaskType::BitTorrent => if self.bt_available {
                        (
                            Ok(StartView::BitTorrent(self.tasks[i].url)),
                            self.with_status(i, TaskStatus::Downloading),
                        )
                    } else {
                        (Err(ErrorView::NoEngine), self)
                    },
                }
            },
        }
    }

    /// Ending the transfer of a task: what is to be done, where there is the task, and the
    /// manager afterwards. The token of an HTTP transfer is handed out once.
    pub open spec fn released(self, id: Seq<char>) -> (Option<TransferAction>, ManagerView) {
        match task_index(self.tasks, id) {
            None => (None, self),
            Some(i) => match self.tasks[i].task_type {
                TaskType::Http => (
                    Some(
                        match registry::lookup(self.cancel_tokens, id) {
                            Some(token) => TransferAction::Cancel(token),
                            None => TransferAction::Nothing,
                        },
                    ),
                    ManagerView { cancel_tokens: self.cancel_tokens.remove(id), ..self },
                ),
                TaskType::BitTorrent => (
                    Some(
                        if self.bt_available {
                            TransferAction::Engine
                        } else {
                            TransferAction::Nothing
                        },
                    ),
                    self,
                ),
            },
        }
    }

    /// The manager after a task has come to rest in a state: nothing moves any more.
    pub open spec fn halted(self, id: Seq<char>, status: TaskStatus) -> ManagerView {
        match task_index(self.tasks, id) {
            None => self,
            Some(i) => ManagerView {
                tasks: self.tasks.update(i, TaskView { status, speed: 0, ..self.tasks[i] }),
                ..self
            },
        }
    }

    /// The manager without a task.
    pub open spec fn without(self, id: Seq<char>) -> ManagerView {
        match task_index(self.tasks, id) {
            None => self,
            Some(i) => ManagerView { tasks: self.tasks.remove(i), ..self },
        }
    }
}

/// A task as it is taken up again after the program has ended: what was being transferred is
/// paused.
pub open spec fn restored(task: TaskView) -> TaskView {
    if task.status == TaskStatus::Downloading {
        TaskView { status: TaskStatus::Paused, speed: 0, ..task }
    } else {
        task
    }
}

/// The task that a link is added as: a torrent, or a file named by what follows the last slash.
pub open spec fn task_for(
    id: Seq<char>,
    created_at: Timestamp,
    url: Seq<char>,
    is_file: bool,
    platform: Platform,
    dir: PlaceView,
) -> TaskView {
    if bt::is_bt(url, is_file, platform) {
        TaskView::fresh(id, created_at, url, "BT Download"@, dir, TaskType::BitTorrent)
    } else {
        TaskView::fresh(id, created_at, url, text::after_last(url, '/'), dir, TaskType::Http)
    }
}

/// How many reports are taken in at a time.
pub const EVENTS_PER_TICK: usize = 101;

impl DownloadManager {
    /// The stored tasks as they are taken up again.
    pub fn load_tasks(stored: Vec<DownloadTask>) -> (r: Vec<DownloadTask>)
        ensures
            views(r@) == views(stored@).map_values(|t: TaskView| restored(t)),
            r@.len() == stored@.len(),
            forall|i: int|
                0 <= i < stored@.len() ==> {
                    let now = (#[trigger] r@[i])@;
                    let was = stored@[i]@;
                    &&& was.status == TaskStatus::Downloading ==> now == (TaskView {
                        status: TaskStatus::Paused,
                        speed: 0,
                        ..was
                    })
                    &&& was.status != TaskStatus::Downloading ==> now == was
                },
    {
        let mut tasks = stored;
        let ghost before = views(tasks@);
        let n: usize = tasks.len();
        let mut i: usize = 0;
        while i < n
            invariant
                n == tasks@.len(),
                n == before.len(),
                i <= n,
                forall|j: int|
                    #![trigger tasks@[j]]
                    0 <= j < n ==> tasks@[j]@ == if j < i {
                        restored(before[j])
                    } else {
                        before[j]
                    },
            decreases n - i,
        {
            if tasks[i].status == TaskStatus::Downloading {
                tasks[i].status = TaskStatus::Paused;
                tasks[i].speed = 0;
            }
            i += 1;
        }
        assert(views(tasks@) =~= before.map_values(|t: TaskView| restored(t)));
        tasks
    }

    /// A manager that takes up the stored tasks.
    pub fn new(config: AppConfig, bt_available: bool, stored: Vec<DownloadTask>) -> (r: Self)
        ensures
            r@ == (ManagerView {
                tasks: views(stored@).map_values(|t: TaskView| restored(t)),
                config: config@,
                http_downloader: HttpDownloader {
                    max_connections: config.max_connections_per_task,
                    chunk_size: config.chunk_size,
                },
                bt_available,
                cancel_tokens: Map::empty(),
            }),
    {
        let http_downloader = HttpDownloader::new(
            config.max_connections_per_task,
            config.chunk_size,
        );
        DownloadManager {
            tasks: DownloadManager::load_tasks(stored),
            config,
            http_downloader,
            bt_available,
            cancel_tokens: Registry::new(),
        }
    }

    /// Adds a task for a link at the end of the list, and gives its id. `is_file` tells whether
    /// the link is the path of a file that is there.
    pub fn add_task(&mut self, url: String, is_file: bool, platform: Platform) -> (r: String)
        ensures
            task::is_uuid_v4(r@),
            final(self)@.tasks.last().created_at.nanos < 1_000_000_000,
            final(self)@ == (ManagerView {
                tasks: old(self)@.tasks.push(final(self)@.tasks.last()),
                ..old(self)@
            }),
            final(self)@.tasks.last() == task_for(
                r@,
                final(self)@.tasks.last().created_at,
                url@,
                is_file,
                platform,
                old(self)@.config.download_dir,
            ),
    {
        let ghost before = views(self.tasks@);
        let save_path = self.config.download_dir.clone();
        let task = if bt::is_bt_url(url.as_str(), is_file, platform) {
            DownloadTask::new_bt(url, save_path)
        } else {
            let filename = text::text_after_last(url.as_str(), '/');
            DownloadTask::new_http(url, filename, save_path)
        };
        let id = task.id.clone();
        self.tasks.push(task);
        assert(views(self.tasks@) =~= before.push(task@));
        id
    }

    /// Starts a task. An HTTP transfer can be cancelled with `token` from now on.
    pub fn start_task(&mut self, task_id: &str, token: u64) -> (r: Result<
        StartAction,
        ManagerError,
    >)
        ensures
            start_view(r) == old(self)@.started(task_id@, token).0,
            final(self)@ == old(self)@.started(task_id@, token).1,
    {
        let ghost before = self@;
        let i: usize = match find_task(&self.tasks, task_id) {
            Some(i) => i,
            None => {
                return Err(ManagerError::NotFound(task_id.to_owned()));
            },
        };
        if self.tasks[i].status == TaskStatus::Downloading {
            return Ok(StartAction::Nothing);
        }
        let action = match self.tasks[i].task_type {
            TaskType::Http => {
                self.cancel_tokens.insert(task_id, token);
                StartAction::Http(self.tasks[i].clone())
            },
            TaskType::BitTorrent => {
                if !self.bt_available {
                    return Err(ManagerError::NoEngine);
                }
                StartAction::BitTorrent(self.tasks[i].url.clone())
            },
        };
        self.tasks[i].status = TaskStatus::Downloading;
        assert(views(self.tasks@) =~= before.with_status(
            i as int,
            TaskStatus::Downloading,
        ).tasks);
        Ok(action)
    }

    /// Ends the transfer of a task, where there is the task: what is to be done for it.
    fn release(&mut self, task_id: &str) -> (r: Option<TransferAction>)
        ensures
            r == old(self)@.released(task_id@).0,
            final(self)@ == old(self)@.released(task_id@).1,
    {
        match find_task(&self.tasks, task_id) {
            Some(i) => match self.tasks[i].task_type {
                TaskType::Http => match self.cancel_tokens.remove(task_id) {
                    Some(token) => Some(TransferAction::Cancel(token)),
                    None => Some(TransferAction::Nothing),
                },
                TaskType::BitTorrent => if self.bt_available {
                    Some(TransferAction::Engine)
                } else {
                    Some(TransferAction::Nothing)
                },
            },
            None => None,
        }
    }

    /// The first step of pausing or stopping a task: what ends its transfer.
    pub fn begin_halt(&mut self, task_id: &str) -> (r: Result<TransferAction, ManagerError>)
        ensures
            final(self)@ == old(self)@.released(task_id@).1,
            match (r, old(self)@.released(task_id@).0) {
                (Ok(action), Some(expected)) => action == expected,
                (Err(e), None) => e@ == ErrorView::NotFound(task_id@),
                _ => false,
            },
    {
        match self.release(task_id) {
            Some(action) => Ok(action),
            None => Err(ManagerError::NotFound(task_id.to_owned())),
        }
    }

    /// Puts a task to rest in a state.
    fn halt(&mut self, task_id: &str, status: TaskStatus)
        ensures
            final(self)@ == old(self)@.halted(task_id@, status),
    {
        let ghost before = self@;
        match find_task(&self.tasks, task_id) {
            Some(i) => {
                self.tasks[i].status = status;
                self.tasks[i].speed = 0;
                assert(views(self.tasks@) =~= before.halted(task_id@, status).tasks);
            },
            None => {},
        }
    }

    /// The second step of pausing a task, after its transfer has ended or the engine has failed
    /// to end it.
    pub fn pause_task(&mut self, task_id: &str, ended: Result<(), String>) -> (r: Result<
        (),
        ManagerError,
    >)
        ensures
            match ended {
                Ok(_) => r is Ok && final(self)@ == old(self)@.halted(task_id@, TaskStatus::Paused),
                Err(reason) => {
                    &&& r matches Err(e) && e@ == ErrorView::Engine(reason@)
                    &&& final(self)@ == old(self)@
                },
            },
    {
        match ended {
            Ok(_) => {
                self.halt(task_id, TaskStatus::Paused);
                Ok(())
            },
            Err(reason) => Err(ManagerError::Engine(reason)),
        }
    }

    /// The second step of stopping a task, after its transfer has ended or the engine has failed
    /// to end it. The task stays and can be started again.
    pub fn stop_task(&mut self, task_id: &str, ended: Result<(), String>) -> (r: Result<
        (),
        ManagerError,
    >)
        ensures
            match ended {
                Ok(_) => r is Ok && final(self)@ == old(self)@.halted(
                    task_id@,
                    TaskStatus::Stopped,
                ),
                Err(reason) => {
                    &&& r matches Err(e) && e@ == ErrorView::Engine(reason@)
                    &&& final(self)@ == old(self)@
                },
            },
    {
        match ended {
            Ok(_) => {
                self.halt(task_id, TaskStatus::Stopped);
                Ok(())
            },
            Err(reason) => Err(ManagerError::Engine(reason)),
        }
    }

    /// The first step of removing a task: what ends its transfer. `None` where there is no such
    /// task; then nothing is left to do.
    pub fn begin_remove(&mut self, task_id: &str) -> (r: Option<TransferAction>)
        ensures
            r == old(self)@.released(task_id@).0,
            final(self)@ == old(self)@.released(task_id@).1,
    {
        self.release(task_id)
    }

    /// The second step of removing a task, after its transfer has ended or the engine has failed
    /// to end it: what is to be deleted with it, where that is asked for.
    pub fn remove_task(
        &mut self,
        task_id: &str,
        delete_file: bool,
        ended: Result<(), String>,
    ) -> (r: Result<Option<RemovedFiles>, ManagerError>)
        ensures
            match ended {
                Ok(_) => {
                    &&& final(self)@ == old(self)@.without(task_id@)
                    &&& r is Ok
                    &&& match task_index(old(self)@.tasks, task_id@) {
                        Some(i) => if delete_file {
                            let file = old(self)@.tasks[i].save_path.join(
                                old(self)@.tasks[i].filename,
                            );
                            r->Ok_0 matches Some(files) && files.file@ == file && files.parts@
                                == engine::parts_path(file)
                        } else {
                            r->Ok_0 is None
                        },
                        None => r->Ok_0 is None,
                    }
                },
                Err(reason) => {
                    &&& r matches Err(e) && e@ == ErrorView::Engine(reason@)
                    &&& final(self)@ == old(self)@
                },
            },
    {
        let ghost before = self@;
        if let Err(reason) = ended {
            return Err(ManagerError::Engine(reason));
        }
        match find_task(&self.tasks, task_id) {
            Some(i) => {
                let task = self.tasks.remove(i);
                assert(views(self.tasks@) =~= before.without(task_id@).tasks);
                if delete_file {
                    let file = task.save_path.join(task.filename.as_str());
                    let parts = engine::parts_dir(&file);
                    Ok(Some(RemovedFiles { file, parts }))
                } else {
                    Ok(None)
                }
            },
            None => Ok(None),
        }
    }

    /// The line that shows the state of the DHT, where there is an engine with one.
    pub fn dht_status_line(&self, stats: Option<(usize, usize)>) -> (r: Option<String>)
        ensures
            match (r, stats) {
                (Some(line), Some((size, outstanding))) => self.bt_available && line@
                    == bt::dht_line(size, outstanding),
                (None, Some(_)) => !self.bt_available,
                (None, None) => true,
                _ => false,
            },
    {
        if self.bt_available {
            BtEngine::dht_status_line(stats)
        } else {
            None
        }
    }

    /// Whether another report is taken in at this time, after `handled` of them.
    pub fn takes_more(handled: usize) -> (r: bool)
        ensures
            r == (handled < EVENTS_PER_TICK),
            r == (handled <= 100),
    {
        handled < EVENTS_PER_TICK
    }
}

/// An error shows what it is about: the id of a task that is not there, the reason that the engine
/// gives; and that there is no engine is no reason that either of them could give.
pub proof fn errors_show_their_subject(words: Seq<char>)
    ensures
        ErrorView::NotFound(words).message() == "Task not found: "@ + words,
        words.is_suffix_of(ErrorView::NotFound(words).message()),
        ErrorView::Engine(words).message() == words,
        ErrorView::NoEngine.message() == "BT engine not available"@,
        ErrorView::NoEngine.message() != ErrorView::NotFound(words).message(),
{
    reveal_strlit("Task not found: ");
    reveal_strlit("BT engine not available");
    assert(ErrorView::NotFound(words).message()[0] == 'T');
    assert(ErrorView::NoEngine.message()[0] == 'B');
}

} // verus!
