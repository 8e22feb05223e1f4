//! Download tasks.

use crate::paths::{Place, PlaceView};
use vstd::prelude::*;
use vstd::string::*;

verus! {

/// The state of a task.
#[derive(Debug, Clone, Copy, PartialEq, Eq, Structural)]
pub enum TaskStatus {
    Queued,
    Downloading,
    Paused,
    /// Stopped by the user; can be started again.
    Stopped,
    Completed,
    Failed,
    Merging,
}

impl TaskStatus {
    /// The name of a state on screen.
    pub open spec fn label_text(self) -> Seq<char> {
        match self {
            TaskStatus::Queued => "排队中"@,
            TaskStatus::Downloading => "下载中"@,
            TaskStatus::Paused => "已暂停"@,
            TaskStatus::Stopped => "已停止"@,
            TaskStatus::Completed => "已完成"@,
            TaskStatus::Failed => "失败"@,
            TaskStatus::Merging => "合并中"@,
        }
    }

    /// The name of a state on screen.
    pub fn label(self) -> (r: &'static str)
        ensures
            r@ == self.label_text(),
    {
        match self {
            TaskStatus::Queued => "排队中",
            TaskStatus::Downloading => "下载中",
            TaskStatus::Paused => "已暂停",
            TaskStatus::Stopped => "已停止",
            TaskStatus::Completed => "已完成",
            TaskStatus::Failed => "失败",
            TaskStatus::Merging => "合并中",
        }
    }
}

/// How a task is transferred.
#[derive(Debug, Clone, Copy, PartialEq, Eq, Structural)]
pub enum TaskType {
    Http,
    BitTorrent,
}

impl TaskType {
    /// The name of a transfer type on screen.
    pub open spec fn label_text(self) -> Seq<char> {
        match self {
            TaskType::Http => "HTTP"@,
            TaskType::BitTorrent => "BT"@,
        }
    }

    /// The name of a transfer type on screen.
    pub fn label(self) -> (r: &'static str)
        ensures
            r@ == self.label_text(),
    {
        match self {
            TaskType::Http => "HTTP",
            TaskType::BitTorrent => "BT",
        }
    }
}

/// A piece of a file: the bytes from `start` up to, not including, `end`.
#[derive(Debug, Clone, Copy, PartialEq, Eq, Structural)]
pub struct ChunkInfo {
    pub index: usize,
    pub start: u64,
    pub end: u64,
    pub downloaded: u64,
    pub completed: bool,
}

/// A point in time: seconds since the Unix epoch, and nanoseconds within the second.
#[derive(Debug, Clone, Copy, PartialEq, Eq, Structural)]
pub struct Timestamp {
    pub secs: i64,
    pub nanos: u32,
}

/// What an optional string holds.
pub open spec fn opt_text(s: Option<String>) -> Option<Seq<char>> {
    match s {
        Some(t) => Some(t@),
        None => None,
    }
}

/// Copies an optional string.
pub fn clone_opt(s: &Option<String>) -> (r: Option<String>)
    ensures
        opt_text(r) == opt_text(*s),
{
    match s {
        Some(t) => Some(t.clone()),
        None => None,
    }
}

/// Running details of a BitTorrent task. They are shown, not stored.
#[derive(Debug)]
pub struct BtProgressExtra {
    pub uploaded: u64,
    pub peer_queued: usize,
    pub peer_connecting: usize,
    pub peer_live: usize,
    pub peer_seen: usize,
    pub peer_dead: usize,
    pub pieces_checked: u64,
    pub state_label: String,
    pub eta_label: Option<String>,
    /// The estimated upload rate in MiB/s, as the bits of a double-precision number.
    pub upload_speed_bits: u64,
}

/// What a `BtProgressExtra` holds.
#[verifier::ext_equal]
pub struct BtExtraView {
    pub uploaded: u64,
    pub peer_queued: usize,
    pub peer_connecting: usize,
    pub peer_live: usize,
    pub peer_seen: usize,
    pub peer_dead: usize,
    pub pieces_checked: u64,
    pub state_label: Seq<char>,
    pub eta_label: Option<Seq<char>>,
    pub upload_speed_bits: u64,
}

impl View for BtProgressExtra {
    type V = BtExtraView;

    open spec fn view(&self) -> BtExtraView {
        BtExtraView {
            uploaded: self.uploaded,
            peer_queued: self.peer_queued,
            peer_connecting: self.peer_connecting,
            peer_live: self.peer_live,
            peer_seen: self.peer_seen,
            peer_dead: self.peer_dead,
            pieces_checked: self.pieces_checked,
            state_label: self.state_label@,
            eta_label: opt_text(self.eta_label),
            upload_speed_bits: self.upload_speed_bits,
        }
    }
}

impl Clone for BtProgressExtra {
    fn clone(&self) -> (r: Self)
        ensures
            r@ == self@,
    {
        BtProgressExtra {
            uploaded: self.uploaded,
            peer_queued: self.peer_queued,
            peer_connecting: self.peer_connecting,
            peer_live: self.peer_live,
            peer_seen: self.peer_seen,
            peer_dead: self.peer_dead,
            pieces_checked: self.pieces_checked,
            state_label: self.state_label.clone(),
            eta_label: clone_opt(&self.eta_label),
            upload_speed_bits: self.upload_speed_bits,
        }
    }
}

impl Default for BtProgressExtra {
    fn default() -> (r: Self)
        ensures
            r@ == BtExtraView::blank(),
    {
        BtProgressExtra {
            uploaded: 0,
            peer_queued: 0,
            peer_connecting: 0,
            peer_live: 0,
            peer_seen: 0,
            peer_dead: 0,
            pieces_checked: 0,
            state_label: String::new(),
            eta_label: None,
            upload_speed_bits: 0,
        }
    }
}

impl BtExtraView {
    /// Details with nothing in them: zeros, an empty label, no remaining time.
    pub open spec fn blank() -> BtExtraView {
        BtExtraView {
            uploaded: 0,
            peer_queued: 0,
            peer_connecting: 0,
            peer_live: 0,
            peer_seen: 0,
            peer_dead: 0,
            pieces_checked: 0,
            state_label: Seq::empty(),
            eta_label: None,
            upload_speed_bits: 0,
        }
    }
}

/// What optional details hold.
pub open spec fn opt_extra(e: Option<BtProgressExtra>) -> Option<BtExtraView> {
    match e {
        Some(x) => Some(x@),
        None => None,
    }
}

/// A task.
#[derive(Debug)]
pub struct DownloadTask {
    pub id: String,
    pub url: String,
    pub filename: String,
    pub save_path: Place,
    pub total_size: Option<u64>,
    pub downloaded: u64,
    pub status: TaskStatus,
    pub task_type: TaskType,
    pub connections: usize,
    pub chunks: Vec<ChunkInfo>,
    pub supports_range: bool,
    pub speed: u64,
    pub created_at: Timestamp,
    pub error_message: Option<String>,
    /// Shown while the task runs, never stored.
    pub bt_extra: Option<BtProgressExtra>,
}

/// What a `DownloadTask` holds.
#[verifier::ext_equal]
pub struct TaskView {
    pub id: Seq<char>,
    pub url: Seq<char>,
    pub filename: Seq<char>,
    pub save_path: PlaceView,
    pub total_size: Option<u64>,
    pub downloaded: u64,
    pub status: TaskStatus,
    pub task_type: TaskType,
    pub connections: usize,
    pub chunks: Seq<ChunkInfo>,
    pub supports_range: bool,
    pub speed: u64,
    pub created_at: Timestamp,
    pub error_message: Option<Seq<char>>,
    pub bt_extra: Option<BtExtraView>,
}

impl View for DownloadTask {
    type V = TaskView;

    open spec fn view(&self) -> TaskView {
        TaskView {
            id: self.id@,
            url: self.url@,
            filename: self.filename@,
            save_path: self.save_path@,
            total_size: self.total_size,
            downloaded: self.downloaded,
            status: self.status,
            task_type: self.task_type,
            connections: self.connections,
            chunks: self.chunks@,
            supports_range: self.supports_range,
            speed: self.speed,
            created_at: self.created_at,
            error_message: opt_text(self.error_message),
            bt_extra: opt_extra(self.bt_extra),
        }
    }
}

/// Copies a list of chunks.
pub fn clone_chunks(chunks: &Vec<ChunkInfo>) -> (r: Vec<ChunkInfo>)
    ensures
        r@ == chunks@,
{
    let n: usize = chunks.len();
    let mut out: Vec<ChunkInfo> = Vec::new();
    let mut i: usize = 0;
    while i < n
        invariant
            n == chunks@.len(),
            i <= n,
            out@ == chunks@.take(i as int),
        decreases n - i,
    {
        out.push(chunks[i]);
        i += 1;
    }
    assert(chunks@.take(n as int) =~= chunks@);
    out
}

impl Clone for DownloadTask {
    fn clone(&self) -> (r: Self)
        ensures
            r@ == self@,
    {
        DownloadTask {
            id: self.id.clone(),
            url: self.url.clone(),
            filename: self.filename.clone(),
            save_path: self.save_path.clone(),
            total_size: self.total_size,
            downloaded: self.downloaded,
            status: self.status,
            task_type: self.task_type,
            connections: self.connections,
            chunks: clone_chunks(&self.chunks),
            supports_range: self.supports_range,
            speed: self.speed,
            created_at: self.created_at,
            error_message: clone_opt(&self.error_message),
            bt_extra: match &self.bt_extra {
                Some(e) => Some(e.clone()),
                None => None,
            },
        }
    }
}

impl TaskView {
    /// A task that has just been added: queued, nothing known and nothing transferred.
    pub open spec fn fresh(
        id: Seq<char>,
        created_at: Timestamp,
        url: Seq<char>,
        filename: Seq<char>,
        save_path: PlaceView,
        task_type: TaskType,
    ) -> TaskView {
        TaskView {
            id,
            url,
            filename,
            save_path,
            total_size: None,
            downloaded: 0,
            status: TaskStatus::Queued,
            task_type,
            connections: 0,
            chunks: Seq::empty(),
            supports_range: false,
            speed: 0,
            created_at,
            error_message: None,
            bt_extra: None,
        }
    }
}

/// Whether a character is a lower-case hexadecimal digit.
pub open spec fn is_lower_hex(c: char) -> bool {
    '0' <= c <= '9' || 'a' <= c <= 'f'
}

/// The shape of a random (version 4) UUID in hyphenated lower-case notation.
pub open spec fn is_uuid_v4(s: Seq<char>) -> bool {
    &&& s.len() == 36
    &&& forall|i: int|
        #![trigger s[i]]
        0 <= i < 36 ==> if i == 8 || i == 13 || i == 18 || i == 23 {
            s[i] == '-'
        } else {
            is_lower_hex(s[i])
        }
    &&& s[14] == '4'
    &&& s[19] == '8' || s[19] == '9' || s[19] == 'a' || s[19] == 'b'
}

/// A random UUID, by `uuid::Uuid::new_v4` and its `Display`. Claimed is the shape alone: 36
/// characters in hyphenated lower-case notation, with the digits that mark version and variant.
/// Which UUID comes is left to chance.
#[verifier::external_body]
fn random_id() -> (r: String)
    ensures
        is_uuid_v4(r@),
{
    uuid::Uuid::new_v4().to_string()
}

/// The current time, by `chrono::Utc::now`. Claimed is only that the part within the second is
/// below a second.
#[verifier::external_body]
fn current_time() -> (r: Timestamp)
    ensures
        r.nanos < 1_000_000_000,
{
    let now = chrono::Utc::now();
    Timestamp { secs: now.timestamp(), nanos: now.timestamp_subsec_nanos() }
}

impl DownloadTask {
    /// A queued task under a given id and time.
    pub fn fresh(
        id: String,
        created_at: Timestamp,
        url: String,
        filename: String,
        save_path: Place,
        task_type: TaskType,
    ) -> (r: Self)
        ensures
            r@ == TaskView::fresh(id@, created_at, url@, filename@, save_path@, task_type),
    {
        DownloadTask {
            id,
            url,
            filename,
            save_path,
            total_size: None,
            downloaded: 0,
            status: TaskStatus::Queued,
            task_type,
            connections: 0,
            chunks: Vec::new(),
            supports_range: false,
            speed: 0,
            created_at,
            error_message: None,
            bt_extra: None,
        }
    }

    /// A queued HTTP task with a random id, added now.
    pub fn new_http(url: String, filename: String, save_path: Place) -> (r: Self)
        ensures
            is_uuid_v4(r@.id),
            r@.created_at.nanos < 1_000_000_000,
            r@ == TaskView::fresh(
                r@.id,
                r@.created_at,
                url@,
                filename@,
                save_path@,
                TaskType::Http,
            ),
    {
        DownloadTask::fresh(random_id(), current_time(), url, filename, save_path, TaskType::Http)
    }

    /// A queued BitTorrent task with a random id, added now. Its name is not known yet.
    pub fn new_bt(url: String, save_path: Place) -> (r: Self)
        ensures
            is_uuid_v4(r@.id),
            r@.created_at.nanos < 1_000_000_000,
            r@ == TaskView::fresh(
                r@.id,
                r@.created_at,
                url@,
                "BT Download"@,
                save_path@,
                TaskType::BitTorrent,
            ),
    {
        let filename = "BT Download".to_owned();
        DownloadTask::fresh(
            random_id(),
            current_time(),
            url,
            filename,
            save_path,
            TaskType::BitTorrent,
        )
    }

    /// How much of the whole is there, as a fraction: bytes transferred over bytes in all.
    /// `None` stands for nothing: the size is unknown or zero.
    pub fn progress(&self) -> (r: Option<(u64, u64)>)
        ensures
            r == self@.progress(),
    {
        match self.total_size {
            Some(total) => if total > 0 {
                Some((self.downloaded, total))
            } else {
                None
            },
            None => None,
        }
    }
}

impl TaskView {
    /// How much of the whole is there: bytes transferred over bytes in all.
    pub open spec fn progress(self) -> Option<(u64, u64)> {
        match self.total_size {
            Some(total) => if total > 0 {
                Some((self.downloaded, total))
            } else {
                None
            },
            None => None,
        }
    }
}

/// Each state has its own name, and so has each way of transfer.
pub proof fn names_differ(a: TaskStatus, b: TaskStatus, s: TaskType, t: TaskType)
    ensures
        a != b ==> a.label_text() != b.label_text(),
        a.label_text() == "排队中"@ <==> a == TaskStatus::Queued,
        a.label_text() == "下载中"@ <==> a == TaskStatus::Downloading,
        a.label_text() == "已暂停"@ <==> a == TaskStatus::Paused,
        a.label_text() == "已停止"@ <==> a == TaskStatus::Stopped,
        a.label_text() == "已完成"@ <==> a == TaskStatus::Completed,
        a.label_text() == "失败"@ <==> a == TaskStatus::Failed,
        a.label_text() == "合并中"@ <==> a == TaskStatus::Merging,
        s != t ==> s.label_text() != t.label_text(),
        s.label_text() == "HTTP"@ <==> s == TaskType::Http,
        s.label_text() == "BT"@ <==> s == TaskType::BitTorrent,
{
    reveal_strlit("排队中");
    reveal_strlit("下载中");
    reveal_strlit("已暂停");
    reveal_strlit("已停止");
    reveal_strlit("已完成");
    reveal_strlit("失败");
    reveal_strlit("合并中");
    reveal_strlit("HTTP");
    reveal_strlit("BT");
    assert("排队中"@[0] == '排' && "下载中"@[0] == '下' && "合并中"@[0] == '合');
    assert("失败"@[0] == '失');
    assert("已暂停"@[0] == '已' && "已停止"@[0] == '已' && "已完成"@[0] == '已');
    assert("已暂停"@[1] == '暂' && "已停止"@[1] == '停' && "已完成"@[1] == '完');
    assert("HTTP"@.len() != "BT"@.len());
}

/// Progress is known exactly where a size is known that is not zero: the bytes that are there, over
/// that size.
pub proof fn progress_is_over_the_size(task: TaskView, total: u64)
    ensures
        task.total_size is None ==> task.progress() is None,
        task.total_size == Some(0u64) ==> task.progress() is None,
        task.total_size == Some(total) && total > 0 ==> task.progress() == Some(
            (task.downloaded, total),
        ),
{
}

/// A new task has what it is made of, is queued, and has nothing else.
pub proof fn new_task_is_queued(
    id: Seq<char>,
    created_at: Timestamp,
    url: Seq<char>,
    filename: Seq<char>,
    save_path: PlaceView,
    task_type: TaskType,
)
    ensures
        ({
            let task = TaskView::fresh(id, created_at, url, filename, save_path, task_type);
            &&& task.id == id && task.created_at == created_at && task.url == url
            &&& task.filename == filename && task.save_path == save_path
            &&& task.task_type == task_type
            &&& task.status == TaskStatus::Queued
            &&& task.total_size is None && task.downloaded == 0 && task.speed == 0
            &&& task.connections == 0 && task.chunks.len() == 0 && !task.supports_range
            &&& task.error_message is None && task.bt_extra is None
        }),
{
}

/// Details with nothing in them have no figure, no name and no time.
pub proof fn blank_details_are_zero()
    ensures
        ({
            let extra = BtExtraView::blank();
            &&& extra.uploaded == 0 && extra.pieces_checked == 0 && extra.upload_speed_bits == 0
            &&& extra.peer_queued == 0 && extra.peer_connecting == 0 && extra.peer_live == 0
            &&& extra.peer_seen == 0 && extra.peer_dead == 0
            &&& extra.state_label.len() == 0 && extra.eta_label is None
        }),
{
}

} // verus!
