//! BitTorrent downloads: what to do next, and what to report.

use crate::config::AppConfig;
use crate::engine::{DownloadEvent, EventView};
use crate::paths;
use crate::paths::Platform;
use crate::registry;
use crate::registry::Registry;
use crate::task::{BtExtraView, BtProgressExtra, TaskStatus};
use crate::task::{clone_opt, opt_text};
use crate::text;
use vstd::prelude::*;
use vstd::string::*;

verus! {

/// Whether a link is one for BitTorrent by its text alone.
pub open spec fn bt_by_text(url: Seq<char>) -> bool {
    ||| "magnet:"@.is_prefix_of(url)
    ||| text::occurs(url, "btih:"@)
    ||| ".torrent"@.is_suffix_of(url)
}

/// Whether a path has the extension of torrent files, in any case.
pub open spec fn has_torrent_extension(path: Seq<char>, platform: Platform) -> bool {
    match paths::extension(path, platform) {
        Some(ext) => text::same_ignoring_case(ext, "torrent"@),
        None => false,
    }
}

/// Whether a link is one for BitTorrent: by its text alone, or as the path of a torrent file.
pub open spec fn is_bt(url: Seq<char>, is_file: bool, platform: Platform) -> bool {
    bt_by_text(url) || (has_torrent_extension(url, platform) && is_file)
}

fn is_bt_text(url: &str) -> (r: bool)
    ensures
        r == bt_by_text(url@),
{
    text::starts_with(url, "magnet:") || text::contains(url, "btih:") || text::ends_with(
        url,
        ".torrent",
    )
}

fn names_torrent_file(path: &str, platform: Platform) -> (r: bool)
    ensures
        r == has_torrent_extension(path@, platform),
{
    match paths::path_extension(path, platform) {
        Some(ext) => text::eq_ignore_ascii_case(ext.as_str(), "torrent"),
        None => false,
    }
}

/// Whether a link is one for BitTorrent. `is_file` tells whether it is the path of a file that
/// is there.
pub fn is_bt_url(url: &str, is_file: bool, platform: Platform) -> (r: bool)
    ensures
        r == is_bt(url@, is_file, platform),
{
    is_bt_text(url) || (names_torrent_file(url, platform) && is_file)
}

/// Whether `is_bt_url` depends on what is on disk.
pub fn needs_file_check(url: &str, platform: Platform) -> (r: bool)
    ensures
        r == (is_bt(url@, true, platform) != is_bt(url@, false, platform)),
{
    !is_bt_text(url) && names_torrent_file(url, platform)
}

/// Where the description of a torrent comes from.
#[derive(Debug, Clone, Copy, PartialEq, Eq, Structural)]
pub enum TorrentSource {
    /// The link is handed to the BitTorrent session.
    Link,
    /// The link is the path of a file, whose contents are handed to the session.
    File,
}

/// Whether a link is handed on as it is: a magnet link, or a torrent file on a web server.
pub open spec fn is_remote_torrent(url: Seq<char>) -> bool {
    ||| "magnet:"@.is_prefix_of(url)
    ||| ".torrent"@.is_suffix_of(url) && ("http://"@.is_prefix_of(url) || "https://"@.is_prefix_of(
        url,
    ))
}

/// Where the description of a torrent comes from: a file that is there is read, unless the link
/// is handed on as it is.
pub open spec fn source_of(url: Seq<char>, is_file: bool) -> TorrentSource {
    if is_file && !is_remote_torrent(url) {
        TorrentSource::File
    } else {
        TorrentSource::Link
    }
}

/// Where the description of a torrent comes from. `is_file` tells whether the link is the path
/// of a file that is there.
pub fn build_add_torrent(url: &str, is_file: bool) -> (r: TorrentSource)
    ensures
        r == source_of(url@, is_file),
{
    if text::starts_with(url, "magnet:") {
        TorrentSource::Link
    } else if text::ends_with(url, ".torrent") && (text::starts_with(url, "http://")
        || text::starts_with(url, "https://")) {
        TorrentSource::Link
    } else if is_file {
        TorrentSource::File
    } else {
        TorrentSource::Link
    }
}

/// A link that is handed on as it is counts as a torrent, whatever is on disk.
pub proof fn remote_torrent_is_torrent(url: Seq<char>, is_file: bool, platform: Platform)
    requires
        is_remote_torrent(url),
    ensures
        is_bt(url, is_file, platform),
        source_of(url, is_file) == TorrentSource::Link,
{
}

/// A link that counts as a torrent only for the file that it leads to is read from that file.
pub proof fn torrent_by_file_is_read(url: Seq<char>, is_file: bool, platform: Platform)
    requires
        is_bt(url, is_file, platform),
        !bt_by_text(url),
    ensures
        source_of(url, is_file) == TorrentSource::File,
{
}

/// The state of a torrent in its session.
#[derive(Debug, Clone, Copy, PartialEq, Eq, Structural)]
pub enum TorrentState {
    Initializing,
    Live,
    Paused,
    Error,
}

impl TorrentState {
    /// The name of a state on screen.
    pub open spec fn label_text(self) -> Seq<char> {
        match self {
            TorrentState::Initializing => "初始化 / 解析元数据"@,
            TorrentState::Live => "传输中"@,
            TorrentState::Paused => "已暂停"@,
            TorrentState::Error => "错误"@,
        }
    }

    /// The name of a state on screen.
    pub fn label(self) -> (r: &'static str)
        ensures
            r@ == self.label_text(),
    {
        match self {
            TorrentState::Initializing => "初始化 / 解析元数据",
            TorrentState::Live => "传输中",
            TorrentState::Paused => "已暂停",
            TorrentState::Error => "错误",
        }
    }
}

/// What a session tells of a torrent that is being transferred.
pub struct LiveSnapshot {
    pub pieces_checked: u64,
    pub peer_queued: usize,
    pub peer_connecting: usize,
    pub peer_live: usize,
    pub peer_seen: usize,
    pub peer_dead: usize,
    /// Bytes a second.
    pub download_speed: u64,
    /// The upload rate in MiB/s, as the bits of a double-precision number.
    pub upload_speed_bits: u64,
    pub time_remaining: Option<String>,
}

/// What a session tells of a torrent.
pub struct TorrentSnapshot {
    pub state: TorrentState,
    pub total_bytes: u64,
    pub progress_bytes: u64,
    pub uploaded_bytes: u64,
    pub finished: bool,
    pub live: Option<LiveSnapshot>,
}

/// The running details that a snapshot tells: without a live part, no peers, pieces or rates.
pub open spec fn extra_of(stats: TorrentSnapshot) -> BtExtraView {
    let base = BtExtraView {
        uploaded: stats.uploaded_bytes,
        state_label: stats.state.label_text(),
        ..BtExtraView::blank()
    };
    match stats.live {
        Some(live) => BtExtraView {
            pieces_checked: live.pieces_checked,
            peer_queued: live.peer_queued,
            peer_connecting: live.peer_connecting,
            peer_live: live.peer_live,
            peer_seen: live.peer_seen,
            peer_dead: live.peer_dead,
            upload_speed_bits: live.upload_speed_bits,
            eta_label: opt_text(live.time_remaining),
            ..base
        },
        None => base,
    }
}

/// The running details that a snapshot tells.
pub fn bt_extra_from_stats(stats: &TorrentSnapshot) -> (r: BtProgressExtra)
    ensures
        r@ == extra_of(*stats),
{
    let mut extra = BtProgressExtra::default();
    extra.uploaded = stats.uploaded_bytes;
    extra.state_label = stats.state.label().to_owned();
    if let Some(live) = &stats.live {
        extra.pieces_checked = live.pieces_checked;
        extra.peer_queued = live.peer_queued;
        extra.peer_connecting = live.peer_connecting;
        extra.peer_live = live.peer_live;
        extra.peer_seen = live.peer_seen;
        extra.peer_dead = live.peer_dead;
        extra.upload_speed_bits = live.upload_speed_bits;
        extra.eta_label = clone_opt(&live.time_remaining);
    }
    extra
}

/// How to open a session.
#[derive(Debug, Clone, Copy, PartialEq, Eq, Structural)]
pub struct SessionPlan {
    pub disable_dht: bool,
    pub disable_dht_persistence: bool,
    /// Whether the session keeps its routing table between runs.
    pub persistent_dht: bool,
    /// The first port to listen on.
    pub port_from: u16,
    /// The first port behind those to listen on.
    pub port_to: u16,
}

/// How many ports a session may listen on.
pub const PORT_SPAN: u16 = 100;

/// A session that listens on the ports from `listen_port` on, with DHT or without.
pub open spec fn session_for(listen_port: u16, dht_enabled: bool) -> SessionPlan {
    SessionPlan {
        disable_dht: !dht_enabled,
        disable_dht_persistence: !dht_enabled,
        persistent_dht: dht_enabled,
        port_from: listen_port,
        port_to: (listen_port + PORT_SPAN) as u16,
    }
}

/// How to open the session of an engine.
pub fn session_plan(listen_port: u16, dht_enabled: bool) -> (r: SessionPlan)
    requires
        listen_port + PORT_SPAN <= u16::MAX,
    ensures
        r == session_for(listen_port, dht_enabled),
{
    SessionPlan {
        disable_dht: !dht_enabled,
        disable_dht_persistence: !dht_enabled,
        persistent_dht: dht_enabled,
        port_from: listen_port,
        port_to: listen_port + PORT_SPAN,
    }
}

/// What to do when a session could not be opened.
pub enum SessionStep {
    /// Try again in another way.
    Retry(SessionPlan),
    /// There is no session, for this reason.
    GiveUp(String),
}

/// What to do when a session could not be opened: with DHT, try once more without it; without,
/// or when that fails too, give up.
pub fn session_failed(plan: &SessionPlan, retried: bool, error: String) -> (r: SessionStep)
    ensures
        match r {
            SessionStep::Retry(next) => !retried && plan.persistent_dht && next == (SessionPlan {
                disable_dht: true,
                disable_dht_persistence: true,
                persistent_dht: false,
                port_from: plan.port_from,
                port_to: plan.port_to,
            }),
            SessionStep::GiveUp(reason) => (retried || !plan.persistent_dht) && reason@ == (
            if retried {
                "Failed to create BT session even without DHT"@
            } else {
                error@
            }),
        },
{
    if retried {
        SessionStep::GiveUp("Failed to create BT session even without DHT".to_owned())
    } else if plan.persistent_dht {
        SessionStep::Retry(
            SessionPlan {
                disable_dht: true,
                disable_dht_persistence: true,
                persistent_dht: false,
                port_from: plan.port_from,
                port_to: plan.port_to,
            },
        )
    } else {
        SessionStep::GiveUp(error)
    }
}

/// Whether the stored routing table is dropped before an engine starts: whenever the settings ask
/// for a fresh one.
pub fn refreshes_dht(config: &AppConfig) -> (r: bool)
    ensures
        r == config@.dht_refresh_on_startup,
{
    config.dht_refresh_on_startup
}

/// The line that shows the size of the routing table and the requests without an answer.
pub open spec fn dht_line(routing_table_size: usize, outstanding_requests: usize) -> Seq<char> {
    "DHT 路由 "@ + text::decimal(routing_table_size as nat) + " 节点 · 待响应 "@
        + text::decimal(outstanding_requests as nat)
}

/// How to start a torrent.
#[derive(Debug, Clone, Copy, PartialEq, Eq, Structural)]
pub enum BtStart {
    /// The session has it under this number: let it go on.
    Resume(u64),
    /// Add it to the session.
    Add,
}

/// What came of adding a torrent to the session.
#[derive(Debug, Clone, Copy, PartialEq, Eq, Structural)]
pub enum AddOutcome {
    /// The session failed.
    Failed,
    /// The session took the request, but there is no torrent to follow.
    NoHandle,
    /// The session has the torrent under this number.
    Added(u64),
}

/// What is left to do in a session for a task that is removed.
#[derive(Debug, Clone, Copy, PartialEq, Eq, Structural)]
pub struct BtRemoval {
    /// The monitor to end.
    pub monitor: Option<u64>,
    /// The torrent to delete.
    pub handle: Option<u64>,
}

/// The torrents of a session, by task.
pub struct BtEngine {
    /// The session's number of each task's torrent.
    pub handles: Registry,
    /// The number of the monitor that follows each task's torrent.
    pub monitors: Registry,
}

/// How to start a task's torrent: let it go on where the session has it, else add it.
pub open spec fn start_for(handles: Map<Seq<char>, u64>, task_id: Seq<char>) -> BtStart {
    match registry::lookup(handles, task_id) {
        Some(handle) => BtStart::Resume(handle),
        None => BtStart::Add,
    }
}

/// A torrent is added once: after that it is let go on, until it is removed.
pub proof fn added_torrent_goes_on(handles: Map<Seq<char>, u64>, task_id: Seq<char>, handle: u64)
    ensures
        start_for(handles.insert(task_id, handle), task_id) == BtStart::Resume(handle),
        start_for(handles.remove(task_id), task_id) == BtStart::Add,
{
}

/// The report that a task is being transferred.
pub open spec fn downloading(task_id: Seq<char>) -> EventView {
    EventView::StatusChanged { task_id, status: TaskStatus::Downloading }
}

impl BtEngine {
    /// An engine without torrents.
    pub fn new() -> (r: Self)
        ensures
            r.handles@ == Map::<Seq<char>, u64>::empty(),
            r.monitors@ == Map::<Seq<char>, u64>::empty(),
    {
        BtEngine { handles: Registry::new(), monitors: Registry::new() }
    }

    /// The line that shows the state of the DHT, where the session has one.
    pub fn dht_status_line(stats: Option<(usize, usize)>) -> (r: Option<String>)
        ensures
            match (r, stats) {
                (Some(line), Some((size, outstanding))) => line@ == dht_line(size, outstanding),
                (None, None) => true,
                _ => false,
            },
    {
        match stats {
            Some((size, outstanding)) => {
                let mut line = "DHT 路由 ".to_owned();
                text::push_decimal(&mut line, size as u64);
                line.append(" 节点 · 待响应 ");
                text::push_decimal(&mut line, outstanding as u64);
                Some(line)
            },
            None => None,
        }
    }

    /// How to start a task's torrent: let it go on where the session has it, else add it.
    pub fn start_or_resume(&self, task_id: &str) -> (r: BtStart)
        ensures
            r == start_for(self.handles@, task_id@),
    {
        match self.handles.get(task_id) {
            Some(handle) => BtStart::Resume(handle),
            None => BtStart::Add,
        }
    }

    /// The report after a torrent has been let go on.
    pub fn resumed(&self, task_id: &str) -> (r: DownloadEvent)
        ensures
            r@ == downloading(task_id@),
    {
        DownloadEvent::StatusChanged {
            task_id: task_id.to_owned(),
            status: TaskStatus::Downloading,
        }
    }

    /// Takes note of what came of adding a torrent. Where it was added, it is followed by
    /// `monitor` from now on, and reported; otherwise the reason why not.
    pub fn added(&mut self, task_id: &str, outcome: AddOutcome, monitor: u64) -> (r: Result<
        DownloadEvent,
        String,
    >)
        ensures
            match outcome {
                AddOutcome::Added(handle) => {
                    &&& r matches Ok(event) && event@ == downloading(task_id@)
                    &&& final(self).handles@ == old(self).handles@.insert(task_id@, handle)
                    &&& final(self).monitors@ == old(self).monitors@.insert(task_id@, monitor)
                },
                AddOutcome::NoHandle => {
                    &&& r matches Err(reason) && reason@ == "种子重复或无法添加"@
                    &&& *final(self) == *old(self)
                },
                AddOutcome::Failed => {
                    &&& r matches Err(reason) && reason@ == "Failed to add torrent"@
                    &&& *final(self) == *old(self)
                },
            },
    {
        match outcome {
            AddOutcome::Added(handle) => {
                self.handles.insert(task_id, handle);
                self.monitors.insert(task_id, monitor);
                Ok(
                    DownloadEvent::StatusChanged {
                        task_id: task_id.to_owned(),
                        status: TaskStatus::Downloading,
                    },
                )
            },
            AddOutcome::NoHandle => Err("种子重复或无法添加".to_owned()),
            AddOutcome::Failed => Err("Failed to add torrent".to_owned()),
        }
    }

    /// The torrent to pause for a task, where the session has one.
    pub fn pause(&self, task_id: &str) -> (r: Option<u64>)
        ensures
            r == registry::lookup(self.handles@, task_id@),
    {
        self.handles.get(task_id)
    }

    /// Forgets a task's torrent and its monitor.
    pub fn remove(&mut self, task_id: &str) -> (r: BtRemoval)
        ensures
            r.monitor == registry::lookup(old(self).monitors@, task_id@),
            r.handle == registry::lookup(old(self).handles@, task_id@),
            final(self).monitors@ == old(self).monitors@.remove(task_id@),
            final(self).handles@ == old(self).handles@.remove(task_id@),
    {
        let monitor = self.monitors.remove(task_id);
        let handle = self.handles.remove(task_id);
        BtRemoval { monitor, handle }
    }
}

/// The report of a torrent's size and name, once its size is known.
pub open spec fn metadata_report(
    task_id: Seq<char>,
    stats: TorrentSnapshot,
    name: Option<Seq<char>>,
) -> Seq<EventView> {
    if stats.total_bytes > 0 {
        seq![
            EventView::MetadataReady {
                task_id,
                total_size: Some(stats.total_bytes),
                supports_range: false,
                filename: match name {
                    Some(n) => n,
                    None => "BT 下载"@,
                },
            },
        ]
    } else {
        Seq::empty()
    }
}

/// The report of what a torrent has transferred.
pub open spec fn progress_report(task_id: Seq<char>, stats: TorrentSnapshot) -> EventView {
    EventView::Progress {
        task_id,
        downloaded: stats.progress_bytes,
        speed: match stats.live {
            Some(live) => live.download_speed,
            None => 0,
        },
        connections: match stats.live {
            Some(live) => live.peer_live,
            None => 0,
        },
        bt_extra: Some(extra_of(stats)),
    }
}

/// The reports that a snapshot calls for: size and name once known, what has been transferred,
/// and the end.
pub open spec fn monitor_reports(
    task_id: Seq<char>,
    stats: TorrentSnapshot,
    name: Option<Seq<char>>,
) -> Seq<EventView> {
    let before = metadata_report(task_id, stats, name).push(progress_report(task_id, stats));
    if stats.finished {
        before.push(EventView::Completed { task_id })
    } else {
        before
    }
}

/// What a list of events holds.
pub open spec fn event_views(list: Seq<DownloadEvent>) -> Seq<EventView> {
    list.map_values(|e: DownloadEvent| e@)
}

/// What a monitor reports on a snapshot, and whether it ends with that: when the torrent is
/// complete.
pub fn monitor_tick(task_id: &str, stats: &TorrentSnapshot, name: Option<String>) -> (r: (
    Vec<DownloadEvent>,
    bool,
))
    ensures
        event_views(r.0@) == monitor_reports(task_id@, *stats, opt_text(name)),
        r.1 == stats.finished,
{
    let mut events: Vec<DownloadEvent> = Vec::new();
    let ghost meta = metadata_report(task_id@, *stats, opt_text(name));
    if stats.total_bytes > 0 {
        let filename = match name {
            Some(n) => n,
            None => "BT 下载".to_owned(),
        };
        events.push(
            DownloadEvent::MetadataReady {
                task_id: task_id.to_owned(),
                total_size: Some(stats.total_bytes),
                supports_range: false,
                filename,
            },
        );
    }
    assert(event_views(events@) =~= meta);
    let speed: u64 = match &stats.live {
        Some(live) => live.download_speed,
        None => 0,
    };
    let peers: usize = match &stats.live {
        Some(live) => live.peer_live,
        None => 0,
    };
    events.push(
        DownloadEvent::Progress {
            task_id: task_id.to_owned(),
            downloaded: stats.progress_bytes,
            speed,
            connections: peers,
            bt_extra: Some(bt_extra_from_stats(stats)),
        },
    );
    assert(event_views(events@) =~= meta.push(progress_report(task_id@, *stats)));
    if stats.finished {
        events.push(DownloadEvent::Completed { task_id: task_id.to_owned() });
    }
    assert(event_views(events@) =~= monitor_reports(task_id@, *stats, opt_text(name)));
    (events, stats.finished)
}

/// Every magnet link, every link with a torrent's hash mark in it and every link that ends like a
/// torrent file counts as a torrent, whatever is on disk.
pub proof fn torrent_links_are_known(
    front: Seq<char>,
    rest: Seq<char>,
    is_file: bool,
    platform: Platform,
)
    ensures
        is_bt("magnet:"@ + rest, is_file, platform),
        is_bt(front + "btih:"@ + rest, is_file, platform),
        is_bt(front + ".torrent"@, is_file, platform),
{
    assert(("magnet:"@ + rest).subrange(0, "magnet:"@.len() as int) =~= "magnet:"@);
    let marked = front + "btih:"@ + rest;
    assert(marked.subrange(front.len() as int, front.len() as int + "btih:"@.len()) =~= "btih:"@);
    assert(text::occurs_at(marked, "btih:"@, front.len() as int));
    let named = front + ".torrent"@;
    assert(named.subrange(front.len() as int, named.len() as int) =~= ".torrent"@);
}

/// Any other link counts as a torrent only for a file that is there and has the extension of
/// torrent files, in whatever case.
pub proof fn other_links_need_a_file(url: Seq<char>, platform: Platform)
    requires
        !"magnet:"@.is_prefix_of(url),
        forall|i: int|
            0 <= i && i + "btih:"@.len() <= url.len() ==> #[trigger] url.subrange(
                i,
                i + "btih:"@.len(),
            ) != "btih:"@,
        !".torrent"@.is_suffix_of(url),
    ensures
        !is_bt(url, false, platform),
        is_bt(url, true, platform) <==> (paths::extension(url, platform) matches Some(ext)
            && text::same_ignoring_case(ext, "torrent"@)),
{
}

/// A torrent is read from a file exactly where there is one and the link is neither a magnet link
/// nor that of a torrent file on a web server.
pub proof fn files_are_read(url: Seq<char>)
    ensures
        source_of(url, false) == TorrentSource::Link,
        source_of(url, true) == TorrentSource::File <==> !"magnet:"@.is_prefix_of(url) && !(
        ".torrent"@.is_suffix_of(url) && ("http://"@.is_prefix_of(url)
            || "https://"@.is_prefix_of(url))),
{
}

/// The details of a torrent are those of its snapshot: its state's name and what was uploaded; and
/// of the live part, where there is one, its pieces, its peers of each kind, its upload rate and
/// its remaining time, each in its own place.
pub proof fn details_show_the_snapshot(stats: TorrentSnapshot)
    ensures
        extra_of(stats).uploaded == stats.uploaded_bytes,
        extra_of(stats).state_label == stats.state.label_text(),
        stats.live matches Some(live) ==> {
            let e = extra_of(stats);
            &&& e.pieces_checked == live.pieces_checked
            &&& e.peer_queued == live.peer_queued
            &&& e.peer_connecting == live.peer_connecting
            &&& e.peer_live == live.peer_live
            &&& e.peer_seen == live.peer_seen
            &&& e.peer_dead == live.peer_dead
            &&& e.upload_speed_bits == live.upload_speed_bits
            &&& e.eta_label is Some <==> live.time_remaining is Some
            &&& live.time_remaining is Some ==> e.eta_label->0 == live.time_remaining->0@
        },
        stats.live is None ==> {
            let e = extra_of(stats);
            &&& e.pieces_checked == 0 && e.peer_queued == 0 && e.peer_connecting == 0
            &&& e.peer_live == 0 && e.peer_seen == 0 && e.peer_dead == 0
            &&& e.upload_speed_bits == 0 && e.eta_label is None
        },
{
}

/// Each state of a torrent has a name of its own.
pub proof fn state_names_differ(a: TorrentState, b: TorrentState)
    ensures
        a != b ==> a.label_text() != b.label_text(),
        a.label_text() == "初始化 / 解析元数据"@ <==> a == TorrentState::Initializing,
        a.label_text() == "传输中"@ <==> a == TorrentState::Live,
        a.label_text() == "已暂停"@ <==> a == TorrentState::Paused,
        a.label_text() == "错误"@ <==> a == TorrentState::Error,
{
    reveal_strlit("初始化 / 解析元数据");
    reveal_strlit("传输中");
    reveal_strlit("已暂停");
    reveal_strlit("错误");
    assert("传输中"@[0] != "已暂停"@[0]);
    assert("错误"@.len() == 2);
}

/// A session listens on a hundred ports from the given one on, and has a routing table, which it
/// keeps, exactly where DHT is asked for.
pub proof fn session_is_as_asked(listen_port: u16, dht_enabled: bool)
    requires
        listen_port + 100 <= u16::MAX,
    ensures
        session_for(listen_port, dht_enabled).port_from == listen_port,
        session_for(listen_port, dht_enabled).port_to - session_for(
            listen_port,
            dht_enabled,
        ).port_from == 100,
        session_for(listen_port, dht_enabled).disable_dht != dht_enabled,
        session_for(listen_port, dht_enabled).disable_dht_persistence != dht_enabled,
        session_for(listen_port, dht_enabled).persistent_dht == dht_enabled,
{
}

/// How many of several reports are of progress.
pub open spec fn progress_count(reports: Seq<EventView>) -> nat
    decreases reports.len(),
{
    if reports.len() == 0 {
        0
    } else {
        progress_count(reports.drop_last()) + if reports.last() is Progress {
            1nat
        } else {
            0
        }
    }
}

/// A tick reports the bytes, rate, peers and details of the snapshot exactly once, whether the
/// torrent is finished or not, and size and name right before, as long as there is a size.
pub proof fn tick_tells_the_snapshot(
    task_id: Seq<char>,
    stats: TorrentSnapshot,
    name: Option<Seq<char>>,
)
    ensures
        ({
            let reports = monitor_reports(task_id, stats, name);
            let at = if stats.total_bytes > 0 {
                1int
            } else {
                0
            };
            &&& reports.len() == at + 1 + if stats.finished {
                1int
            } else {
                0
            }
            &&& progress_count(reports) == 1
            &&& reports[at] matches EventView::Progress {
                task_id: about,
                downloaded,
                speed,
                connections,
                bt_extra,
            }
            &&& about == task_id
            &&& downloaded == stats.progress_bytes
            &&& stats.live is Some ==> speed == stats.live->0.download_speed && connections
                == stats.live->0.peer_live
            &&& stats.live is None ==> speed == 0 && connections == 0
            &&& bt_extra == Some(extra_of(stats))
            &&& stats.total_bytes > 0 ==> {
                &&& reports[0] matches EventView::MetadataReady {
                    task_id: of,
                    total_size,
                    supports_range,
                    filename,
                }
                &&& of == task_id
                &&& total_size == Some(stats.total_bytes)
                &&& !supports_range
                &&& name is Some ==> filename == name->0
                &&& name is None ==> filename == "BT 下载"@
            }
        }),
{
    let reports = monitor_reports(task_id, stats, name);
    let start = if stats.total_bytes > 0 {
        1int
    } else {
        0
    };
    let zero = Seq::<EventView>::empty();
    assert(reports.take(0) =~= zero);
    assert(reports.take(start + 1).drop_last() =~= reports.take(start));
    if start == 1 {
        assert(reports.take(1).drop_last() =~= zero);
    }
    assert(progress_count(zero) == 0);
    assert(progress_count(reports.take(start)) == 0);
    assert(progress_count(reports.take(start + 1)) == 1);
    if stats.finished {
        assert(reports.drop_last() =~= reports.take(start + 1));
    } else {
        assert(reports =~= reports.take(start + 1));
    }
}

/// That a torrent is finished only adds a report: those of the same snapshot before the end come
/// first, and behind them that the task is complete.
pub proof fn end_adds_one_report(
    task_id: Seq<char>,
    stats: TorrentSnapshot,
    running: TorrentSnapshot,
    name: Option<Seq<char>>,
)
    requires
        stats.finished,
        running == (TorrentSnapshot { finished: false, ..stats }),
    ensures
        ({
            let all = monitor_reports(task_id, stats, name);
            let before = monitor_reports(task_id, running, name);
            &&& all.len() == before.len() + 1
            &&& forall|i: int| 0 <= i < before.len() ==> #[trigger] all[i] == before[i]
            &&& all.last() == EventView::Completed { task_id }
            &&& forall|i: int| 0 <= i < before.len() ==> !(#[trigger] before[i] is Completed)
        }),
{
}

/// The line of the DHT shows the size of the routing table first and the requests without an answer
/// behind it, both in decimal.
pub proof fn dht_line_shows_both_figures(size: usize, outstanding: usize)
    ensures
        exists|a: Seq<char>, b: Seq<char>|
            {
                &&& dht_line(size, outstanding) == #[trigger] ("DHT 路由 "@ + a + " 节点 · 待响应 "@
                    + b)
                &&& text::all_digits(a) && text::digits_value(a) == size
                &&& text::all_digits(b) && text::digits_value(b) == outstanding
            },
{
    let a = text::decimal(size as nat);
    let b = text::decimal(outstanding as nat);
    text::decimal_is_digits(size as nat);
    text::decimal_is_digits(outstanding as nat);
    assert(dht_line(size, outstanding) == "DHT 路由 "@ + a + " 节点 · 待响应 "@ + b);
}

/// A torrent goes on exactly where the session has it, under the number that it has there, whatever
/// other torrents there are.
pub proof fn torrent_goes_on_under_its_number(handles: Map<Seq<char>, u64>, task_id: Seq<char>)
    ensures
        handles.dom().contains(task_id) ==> start_for(handles, task_id) == BtStart::Resume(
            handles[task_id],
        ),
        !handles.dom().contains(task_id) ==> start_for(handles, task_id) == BtStart::Add,
        downloading(task_id) == (EventView::StatusChanged {
            task_id,
            status: TaskStatus::Downloading,
        }),
{
}

/// A file that is there counts as a torrent for its extension, whatever the case of its letters,
/// its name and its directory.
pub proof fn torrent_files_are_known(
    dir: Seq<char>,
    stem: Seq<char>,
    ext: Seq<char>,
    platform: Platform,
)
    requires
        platform != Platform::Windows,
        stem.len() > 0,
        !stem.contains('/'),
        ext.len() == "torrent"@.len(),
        forall|i: int|
            0 <= i < ext.len() ==> text::ascii_lower(#[trigger] ext[i]) == "torrent"@[i],
    ensures
        is_bt(dir.push('/') + stem.push('.') + ext, true, platform),
{
    reveal_strlit("torrent");
    assert forall|i: int| 0 <= i < ext.len() implies #[trigger] ext[i] != '/' && ext[i] != '.' by {
        assert(text::ascii_lower(ext[i]) == "torrent"@[i]);
    }
    assert forall|i: int| 0 <= i < ext.len() implies text::ascii_lower(ext[i])
        == text::ascii_lower("torrent"@[i]) by {
        assert(text::ascii_lower(ext[i]) == "torrent"@[i]);
    }
    paths::extension_follows_the_last_dot(dir, stem, ext, platform);
}

} // verus!
