//! What the window shows: the texts, the buttons and the colours of its parts.

use crate::lifecycle::is_first;
use crate::manager;
use crate::manager::{ManagerView, StartView};
use crate::paths::PlaceView;
use crate::task::{opt_text, BtExtraView, BtProgressExtra, DownloadTask};
use crate::task::{TaskStatus, TaskType, TaskView};
use crate::text;
use crate::ui::{App, AppState, CommandView, Message, MessageView};
use vstd::prelude::*;
use vstd::string::*;

verus! {

/// The part that a colour plays.
#[derive(Debug, Clone, Copy, PartialEq, Eq, Structural)]
pub enum Tint {
    Primary,
    Secondary,
    Muted,
    Accent,
    Green,
    Orange,
    Red,
    Purple,
    Speed,
}

/// What the window consists of.
#[derive(Debug, Clone, Copy, PartialEq, Eq, Structural)]
pub enum Layout {
    /// A notice that the manager is being set up.
    Starting,
    /// Toolbar, list, details and status bar.
    Page,
    /// The same, with the dialog for a new task in front.
    PageWithDialog,
}

/// Whether a task counts as running.
pub open spec fn is_running(task: TaskView) -> bool {
    task.status == TaskStatus::Downloading
}

/// How many tasks of a list are running.
pub open spec fn running_count(list: Seq<TaskView>) -> nat
    decreases list.len(),
{
    if list.len() == 0 {
        0
    } else {
        running_count(list.drop_last()) + if is_running(list.last()) {
            1nat
        } else {
            0
        }
    }
}

/// The rates of the running tasks of a list together.
pub open spec fn running_speed(list: Seq<TaskView>) -> nat
    decreases list.len(),
{
    if list.len() == 0 {
        0
    } else {
        running_speed(list.drop_last()) + if is_running(list.last()) {
            list.last().speed as nat
        } else {
            0
        }
    }
}

/// How many tasks of a list are complete.
pub open spec fn completed_count(list: Seq<TaskView>) -> nat
    decreases list.len(),
{
    if list.len() == 0 {
        0
    } else {
        completed_count(list.drop_last()) + if list.last().status == TaskStatus::Completed {
            1nat
        } else {
            0
        }
    }
}

/// The figures of the toolbar.
pub struct Toolbar {
    pub active: String,
    pub speed: String,
}

/// The texts of the status bar.
pub struct StatusBar {
    pub message: String,
    pub dht: Option<String>,
    pub counts: String,
}

/// What can be done with a task.
#[derive(Debug, Clone, Copy, PartialEq, Eq, Structural)]
pub enum TaskAction {
    Pause,
    Stop,
    Start,
    /// Remove the task, keep its files.
    Remove,
    /// Remove the task and its files.
    DeleteFiles,
}

impl TaskAction {
    /// The caption of the button.
    pub open spec fn label_text(self) -> Seq<char> {
        match self {
            TaskAction::Pause => "暂停"@,
            TaskAction::Stop => "停止"@,
            TaskAction::Start => "开始"@,
            TaskAction::Remove => "移除"@,
            TaskAction::DeleteFiles => "删文件"@,
        }
    }

    /// The caption of the button.
    pub fn label(self) -> (r: &'static str)
        ensures
            r@ == self.label_text(),
    {
        match self {
            TaskAction::Pause => "暂停",
            TaskAction::Stop => "停止",
            TaskAction::Start => "开始",
            TaskAction::Remove => "移除",
            TaskAction::DeleteFiles => "删文件",
        }
    }

    /// What the button of a task sends.
    pub open spec fn sends(self, id: Seq<char>) -> MessageView {
        match self {
            TaskAction::Pause => MessageView::PauseTask(id),
            TaskAction::Stop => MessageView::StopTask(id),
            TaskAction::Start => MessageView::StartTask(id),
            TaskAction::Remove => MessageView::DeleteTask(id, false),
            TaskAction::DeleteFiles => MessageView::DeleteTask(id, true),
        }
    }

    /// What the button of a task sends.
    pub fn message(self, id: &str) -> (r: Message)
        ensures
            r@ == self.sends(id@),
    {
        match self {
            TaskAction::Pause => Message::PauseTask(id.to_owned()),
            TaskAction::Stop => Message::StopTask(id.to_owned()),
            TaskAction::Start => Message::StartTask(id.to_owned()),
            TaskAction::Remove => Message::DeleteTask(id.to_owned(), false),
            TaskAction::DeleteFiles => Message::DeleteTask(id.to_owned(), true),
        }
    }
}

/// The buttons that a task in this state has before those that remove it.
pub open spec fn transfer_actions(status: TaskStatus) -> Seq<TaskAction> {
    match status {
        TaskStatus::Downloading => seq![TaskAction::Pause, TaskAction::Stop],
        TaskStatus::Merging => seq![TaskAction::Stop],
        TaskStatus::Queued => seq![TaskAction::Start],
        TaskStatus::Paused => seq![TaskAction::Start],
        TaskStatus::Stopped => seq![TaskAction::Start],
        TaskStatus::Failed => seq![TaskAction::Start],
        TaskStatus::Completed => Seq::empty(),
    }
}

/// The buttons that a task in this state has.
pub open spec fn actions_of(status: TaskStatus) -> Seq<TaskAction> {
    transfer_actions(status) + seq![TaskAction::Remove, TaskAction::DeleteFiles]
}

/// The buttons that a task has.
pub fn build_actions(task: &DownloadTask) -> (r: Vec<TaskAction>)
    ensures
        r@ == actions_of(task@.status),
{
    let mut actions: Vec<TaskAction> = Vec::new();
    match task.status {
        TaskStatus::Downloading => {
            actions.push(TaskAction::Pause);
            actions.push(TaskAction::Stop);
        },
        TaskStatus::Merging => {
            actions.push(TaskAction::Stop);
        },
        TaskStatus::Queued | TaskStatus::Paused | TaskStatus::Stopped | TaskStatus::Failed => {
            actions.push(TaskAction::Start);
        },
        TaskStatus::Completed => {},
    }
    actions.push(TaskAction::Remove);
    actions.push(TaskAction::DeleteFiles);
    assert(actions@ =~= actions_of(task@.status));
    actions
}

/// Whether bytes of a task move: rate and remaining time are shown.
pub open spec fn is_moving(status: TaskStatus) -> bool {
    status == TaskStatus::Downloading || status == TaskStatus::Merging
}

/// The colour of a state's name.
pub open spec fn status_tint(status: TaskStatus) -> Tint {
    match status {
        TaskStatus::Queued => Tint::Muted,
        TaskStatus::Downloading => Tint::Accent,
        TaskStatus::Paused => Tint::Orange,
        TaskStatus::Stopped => Tint::Muted,
        TaskStatus::Completed => Tint::Green,
        TaskStatus::Failed => Tint::Red,
        TaskStatus::Merging => Tint::Purple,
    }
}

/// The colour of the progress bar: that of the state's name, but muted for a failed task.
pub open spec fn bar_tint(status: TaskStatus) -> Tint {
    if status == TaskStatus::Failed {
        Tint::Muted
    } else {
        status_tint(status)
    }
}

fn tint_of(status: TaskStatus) -> (r: Tint)
    ensures
        r == status_tint(status),
{
    match status {
        TaskStatus::Queued => Tint::Muted,
        TaskStatus::Downloading => Tint::Accent,
        TaskStatus::Paused => Tint::Orange,
        TaskStatus::Stopped => Tint::Muted,
        TaskStatus::Completed => Tint::Green,
        TaskStatus::Failed => Tint::Red,
        TaskStatus::Merging => Tint::Purple,
    }
}

/// A row of the task list.
pub struct TaskRow {
    pub id: String,
    pub selected: bool,
    pub filename: String,
    pub size: String,
    /// Bytes transferred over bytes in all; nothing where that is not known.
    pub progress: Option<(u64, u64)>,
    pub speed: String,
    pub speed_tint: Tint,
    pub eta: String,
    pub status: TaskStatus,
    pub status_tint: Tint,
    pub bar_tint: Tint,
    pub actions: Vec<TaskAction>,
}

/// What a `TaskRow` holds.
#[verifier::ext_equal]
pub struct RowView {
    pub id: Seq<char>,
    pub selected: bool,
    pub filename: Seq<char>,
    pub size: Seq<char>,
    pub progress: Option<(u64, u64)>,
    pub speed: Seq<char>,
    pub speed_tint: Tint,
    pub eta: Seq<char>,
    pub status: TaskStatus,
    pub status_tint: Tint,
    pub bar_tint: Tint,
    pub actions: Seq<TaskAction>,
}

impl View for TaskRow {
    type V = RowView;

    open spec fn view(&self) -> RowView {
        RowView {
            id: self.id@,
            selected: self.selected,
            filename: self.filename@,
            size: self.size@,
            progress: self.progress,
            speed: self.speed@,
            speed_tint: self.speed_tint,
            eta: self.eta@,
            status: self.status,
            status_tint: self.status_tint,
            bar_tint: self.bar_tint,
            actions: self.actions@,
        }
    }
}

/// The size of a task, or another text where it is not known.
pub open spec fn size_or(total_size: Option<u64>, unknown: Seq<char>) -> Seq<char> {
    match total_size {
        Some(total) => crate::format::size_text(total),
        None => unknown,
    }
}

/// The bytes that are still missing of a size.
pub open spec fn remaining_of(total: u64, downloaded: u64) -> u64 {
    if total >= downloaded {
        (total - downloaded) as u64
    } else {
        0
    }
}

/// The row that shows a task, with a given selection.
pub open spec fn row_of(task: TaskView, selected_id: Option<Seq<char>>) -> RowView {
    let moving = is_moving(task.status);
    RowView {
        id: task.id,
        selected: selected_id == Some(task.id),
        filename: text::ellipsized(task.filename, 35),
        size: size_or(task.total_size, "—"@),
        progress: task.progress(),
        speed: if moving {
            crate::format::speed_text(task.speed)
        } else {
            "—"@
        },
        speed_tint: if moving {
            Tint::Speed
        } else {
            Tint::Secondary
        },
        eta: match task.total_size {
            Some(total) => if moving {
                crate::format::eta_text(remaining_of(total, task.downloaded), task.speed)
            } else {
                "—"@
            },
            None => "—"@,
        },
        status: task.status,
        status_tint: status_tint(task.status),
        bar_tint: bar_tint(task.status),
        actions: actions_of(task.status),
    }
}

/// What a list of rows holds.
pub open spec fn row_views(rows: Seq<TaskRow>) -> Seq<RowView> {
    rows.map_values(|r: TaskRow| r@)
}

fn size_text_or(total_size: Option<u64>, unknown: &str) -> (r: String)
    ensures
        r@ == size_or(total_size, unknown@),
{
    match total_size {
        Some(total) => crate::format::format_size(total),
        None => unknown.to_owned(),
    }
}

/// A piece of the details: a caption and a text.
pub struct Cell {
    pub label: &'static str,
    pub text: String,
    pub tint: Tint,
}

/// What a `Cell` holds.
pub struct CellView {
    pub label: Seq<char>,
    pub text: Seq<char>,
    pub tint: Tint,
}

impl View for Cell {
    type V = CellView;

    open spec fn view(&self) -> CellView {
        CellView { label: self.label@, text: self.text@, tint: self.tint }
    }
}

/// What a line of the details holds.
pub open spec fn cell_views(cells: Seq<Cell>) -> Seq<CellView> {
    cells.map_values(|c: Cell| c@)
}

/// What the lines of the details hold.
pub open spec fn line_views(lines: Seq<Vec<Cell>>) -> Seq<Seq<CellView>> {
    lines.map_values(|l: Vec<Cell>| cell_views(l@))
}

/// A piece of the details.
pub open spec fn cell(label: Seq<char>, text: Seq<char>, tint: Tint) -> CellView {
    CellView { label, text, tint }
}

/// A path on screen: its text, or how the machine writes it where it is no plain text.
pub open spec fn shown_path(place: PlaceView, written: Seq<char>) -> Seq<char> {
    match place.plain() {
        Some(text) => text,
        None => written,
    }
}

/// The lines that every task has: what it is, where it goes, how far it is, where it comes from.
pub open spec fn common_lines(task: TaskView, percent: Seq<char>, path: Seq<char>) -> Seq<
    Seq<CellView>,
> {
    seq![
        seq![
            cell("文件:"@, task.filename, Tint::Primary),
            cell("类型:"@, task.task_type.label_text(), Tint::Primary),
            cell("连接:"@, text::decimal(task.connections as nat), Tint::Primary),
        ],
        seq![cell("路径:"@, shown_path(task.save_path, path), Tint::Secondary)],
        seq![
            cell(
                "进度:"@,
                crate::format::size_text(task.downloaded) + " / "@ + size_or(task.total_size, "未知"@)
                    + " ("@ + percent + "%)"@,
                Tint::Primary,
            ),
            cell("速度:"@, crate::format::speed_text(task.speed), Tint::Speed),
        ],
        seq![cell("地址:"@, text::ellipsized(task.url, 70), Tint::Muted)],
    ]
}

/// The line of a torrent's peers.
pub open spec fn peers_text(extra: BtExtraView) -> Seq<char> {
    "排队 "@ + text::decimal(extra.peer_queued as nat) + " · 握手中 "@
        + text::decimal(extra.peer_connecting as nat) + " · 活跃 "@
        + text::decimal(extra.peer_live as nat) + " · 累计 "@
        + text::decimal(extra.peer_seen as nat) + " · 失效 "@
        + text::decimal(extra.peer_dead as nat)
}

/// The lines of a torrent that is being followed.
pub open spec fn extra_lines(extra: BtExtraView, upload: Seq<char>) -> Seq<Seq<CellView>> {
    let base = seq![
        seq![
            cell(
                "BT:"@,
                extra.state_label + " · 已上传 "@ + crate::format::size_text(extra.uploaded) + " · 上传 "@
                    + upload + " MiB/s"@,
                Tint::Primary,
            ),
        ],
        seq![cell("Peers:"@, peers_text(extra), Tint::Secondary)],
        seq![
            cell(
                "分块:"@,
                "已校验 "@ + text::decimal(extra.pieces_checked as nat) + " 片"@,
                Tint::Secondary,
            ),
        ],
    ];
    match extra.eta_label {
        Some(eta) => base.push(seq![cell("剩余:"@, eta, Tint::Orange)]),
        None => base,
    }
}

/// The lines that only a torrent has.
pub open spec fn bt_lines(task: TaskView, upload: Seq<char>) -> Seq<Seq<CellView>> {
    if task.task_type == TaskType::BitTorrent {
        match task.bt_extra {
            Some(extra) => extra_lines(extra, upload),
            None => seq![seq![cell("BT:"@, "等待统计…"@, Tint::Muted)]],
        }
    } else {
        Seq::empty()
    }
}

/// The line of a task that has failed.
pub open spec fn error_lines(task: TaskView) -> Seq<Seq<CellView>> {
    match task.error_message {
        Some(message) => seq![seq![cell("错误:"@, message, Tint::Red)]],
        None => Seq::empty(),
    }
}

/// The details of a task. `percent` is its progress in percent, `upload` the upload rate of a
/// torrent in MiB/s, `path` its directory, each written out.
pub open spec fn detail_lines(
    task: TaskView,
    percent: Seq<char>,
    upload: Seq<char>,
    path: Seq<char>,
) -> Seq<Seq<CellView>> {
    common_lines(task, percent, path) + bt_lines(task, upload) + error_lines(task)
}

fn make_cell(label: &'static str, text: String, tint: Tint) -> (r: Cell)
    ensures
        r@ == cell(label@, text@, tint),
{
    Cell { label, text, tint }
}

/// A line with one piece.
fn push_line(lines: &mut Vec<Vec<Cell>>, label: &'static str, text: String, tint: Tint)
    ensures
        line_views(final(lines)@) == line_views(old(lines)@).push(
            seq![cell(label@, text@, tint)],
        ),
{
    let mut line: Vec<Cell> = Vec::new();
    line.push(make_cell(label, text, tint));
    assert(cell_views(line@) =~= seq![cell(label@, text@, tint)]);
    lines.push(line);
    assert(line_views(lines@) =~= line_views(old(lines)@).push(seq![cell(label@, text@, tint)]));
}

fn push_common_lines(lines: &mut Vec<Vec<Cell>>, task: &DownloadTask, percent: &str, path: &str)
    ensures
        line_views(final(lines)@) == line_views(old(lines)@) + common_lines(task@, percent@, path@),
{
    let ghost before = line_views(lines@);
    let mut first: Vec<Cell> = Vec::new();
    first.push(make_cell("文件:", task.filename.clone(), Tint::Primary));
    first.push(make_cell("类型:", task.task_type.label().to_owned(), Tint::Primary));
    first.push(make_cell("连接:", text::to_decimal(task.connections as u64), Tint::Primary));
    assert(cell_views(first@) =~= common_lines(task@, percent@, path@)[0]);
    lines.push(first);
    assert(line_views(lines@) =~= before.push(common_lines(task@, percent@, path@)[0]));
    let place = match task.save_path.plain() {
        Some(text) => text.to_owned(),
        None => path.to_owned(),
    };
    push_line(lines, "路径:", place, Tint::Secondary);
    let mut progress = crate::format::format_size(task.downloaded);
    progress.append(" / ");
    let total = size_text_or(task.total_size, "未知");
    progress.append(total.as_str());
    progress.append(" (");
    progress.append(percent);
    progress.append("%)");
    let ghost so_far = line_views(lines@);
    let mut third: Vec<Cell> = Vec::new();
    third.push(make_cell("进度:", progress, Tint::Primary));
    third.push(make_cell("速度:", crate::format::format_speed(task.speed), Tint::Speed));
    assert(cell_views(third@) =~= common_lines(task@, percent@, path@)[2]);
    lines.push(third);
    assert(line_views(lines@) =~= so_far.push(common_lines(task@, percent@, path@)[2]));
    push_line(lines, "地址:", text::ellipsize(task.url.as_str(), 70), Tint::Muted);
    assert(line_views(lines@) =~= before + common_lines(task@, percent@, path@));
}

fn peers_line(extra: &BtProgressExtra) -> (r: String)
    ensures
        r@ == peers_text(extra@),
{
    let mut out = "排队 ".to_owned();
    text::push_decimal(&mut out, extra.peer_queued as u64);
    out.append(" · 握手中 ");
    text::push_decimal(&mut out, extra.peer_connecting as u64);
    out.append(" · 活跃 ");
    text::push_decimal(&mut out, extra.peer_live as u64);
    out.append(" · 累计 ");
    text::push_decimal(&mut out, extra.peer_seen as u64);
    out.append(" · 失效 ");
    text::push_decimal(&mut out, extra.peer_dead as u64);
    out
}

fn push_extra_lines(lines: &mut Vec<Vec<Cell>>, extra: &BtProgressExtra, upload: &str)
    ensures
        line_views(final(lines)@) == line_views(old(lines)@) + extra_lines(extra@, upload@),
{
    let ghost before = line_views(lines@);
    let mut state = extra.state_label.clone();
    state.append(" · 已上传 ");
    let uploaded = crate::format::format_size(extra.uploaded);
    state.append(uploaded.as_str());
    state.append(" · 上传 ");
    state.append(upload);
    state.append(" MiB/s");
    push_line(lines, "BT:", state, Tint::Primary);
    push_line(lines, "Peers:", peers_line(extra), Tint::Secondary);
    let mut pieces = "已校验 ".to_owned();
    text::push_decimal(&mut pieces, extra.pieces_checked);
    pieces.append(" 片");
    push_line(lines, "分块:", pieces, Tint::Secondary);
    if let Some(eta) = &extra.eta_label {
        push_line(lines, "剩余:", eta.clone(), Tint::Orange);
    }
    assert(line_views(lines@) =~= before + extra_lines(extra@, upload@));
}

/// The details of a task.
pub fn detail_panel(task: &DownloadTask, percent: &str, upload: &str, path: &str) -> (r: Vec<
    Vec<Cell>,
>)
    ensures
        line_views(r@) == detail_lines(task@, percent@, upload@, path@),
{
    let mut lines: Vec<Vec<Cell>> = Vec::new();
    push_common_lines(&mut lines, task, percent, path);
    assert(line_views(lines@) =~= common_lines(task@, percent@, path@));
    if task.task_type == TaskType::BitTorrent {
        match &task.bt_extra {
            Some(extra) => {
                push_extra_lines(&mut lines, extra, upload);
            },
            None => {
                push_line(&mut lines, "BT:", "等待统计…".to_owned(), Tint::Muted);
            },
        }
    }
    assert(line_views(lines@) =~= common_lines(task@, percent@, path@) + bt_lines(task@, upload@));
    if let Some(message) = &task.error_message {
        push_line(&mut lines, "错误:", message.clone(), Tint::Red);
    }
    assert(line_views(lines@) =~= detail_lines(task@, percent@, upload@, path@));
    lines
}

proof fn speed_grows(list: Seq<TaskView>, n: int)
    requires
        0 <= n <= list.len(),
    ensures
        running_speed(list.take(n)) <= running_speed(list),
    decreases list.len(),
{
    if n < list.len() {
        speed_grows(list.drop_last(), n);
        assert(list.drop_last().take(n) =~= list.take(n));
    } else {
        assert(list.take(n) =~= list);
    }
}

impl App {
    /// What the window consists of.
    pub fn view(&self) -> (r: Layout)
        ensures
            r == (if !self.ready {
                Layout::Starting
            } else if self.show_add_dialog {
                Layout::PageWithDialog
            } else {
                Layout::Page
            }),
    {
        if !self.ready {
            Layout::Starting
        } else if self.show_add_dialog {
            Layout::PageWithDialog
        } else {
            Layout::Page
        }
    }

    /// The rates of the running tasks together, where they fit into a number.
    pub fn total_speed(&self) -> (r: Option<u64>)
        ensures
            r == (if running_speed(self.state().tasks) <= u64::MAX {
                Some(running_speed(self.state().tasks) as u64)
            } else {
                None
            }),
    {
        let ghost list = self.state().tasks;
        let n: usize = self.tasks.len();
        let mut sum: u64 = 0;
        let mut i: usize = 0;
        assert(list.take(0) =~= Seq::<TaskView>::empty());
        while i < n
            invariant
                n == self.tasks@.len(),
                list == manager::views(self.tasks@),
                i <= n,
                sum == running_speed(list.take(i as int)),
            decreases n - i,
        {
            proof {
                assert(list.take(i + 1).drop_last() =~= list.take(i as int));
                speed_grows(list, i + 1);
            }
            if self.tasks[i].status == TaskStatus::Downloading {
                let speed: u64 = self.tasks[i].speed;
                if speed > u64::MAX - sum {
                    return None;
                }
                sum = sum + speed;
            }
            i += 1;
        }
        assert(list.take(n as int) =~= list);
        Some(sum)
    }

    fn count(&self, status: TaskStatus) -> (r: usize)
        ensures
            status == TaskStatus::Downloading ==> r == running_count(self.state().tasks),
            status == TaskStatus::Completed ==> r == completed_count(self.state().tasks),
    {
        let ghost list = self.state().tasks;
        let n: usize = self.tasks.len();
        let mut found: usize = 0;
        let mut i: usize = 0;
        assert(list.take(0) =~= Seq::<TaskView>::empty());
        while i < n
            invariant
                n == self.tasks@.len(),
                list == manager::views(self.tasks@),
                found <= i <= n,
                status == TaskStatus::Downloading ==> found == running_count(list.take(i as int)),
                status == TaskStatus::Completed ==> found == completed_count(list.take(i as int)),
            decreases n - i,
        {
            assert(list.take(i + 1).drop_last() =~= list.take(i as int));
            if self.tasks[i].status == status {
                found += 1;
            }
            i += 1;
        }
        assert(list.take(n as int) =~= list);
        found
    }

    /// The figures of the toolbar: how many tasks run, and how fast together.
    pub fn view_toolbar(&self) -> (r: Toolbar)
        requires
            running_speed(self.state().tasks) <= u64::MAX,
        ensures
            r.active@ == "进行中: "@ + text::decimal(running_count(self.state().tasks)),
            r.speed@ == "合计 "@ + crate::format::speed_text(running_speed(self.state().tasks) as u64),
    {
        let mut active = "进行中: ".to_owned();
        text::push_decimal(&mut active, self.count(TaskStatus::Downloading) as u64);
        let sum: u64 = match self.total_speed() {
            Some(sum) => sum,
            None => 0,
        };
        let mut speed = "合计 ".to_owned();
        let rate = crate::format::format_speed(sum);
        speed.append(rate.as_str());
        Toolbar { active, speed }
    }

    /// The texts of the status bar.
    pub fn view_status_bar(&self) -> (r: StatusBar)
        ensures
            r.message@ == self.state().status_message,
            opt_text(r.dht) == self.state().dht_status,
            r.counts@ == "任务: "@ + text::decimal(completed_count(self.state().tasks)) + " / "@
                + text::decimal(self.state().tasks.len()) + " 已完成"@,
    {
        let mut counts = "任务: ".to_owned();
        text::push_decimal(&mut counts, self.count(TaskStatus::Completed) as u64);
        counts.append(" / ");
        text::push_decimal(&mut counts, self.tasks.len() as u64);
        counts.append(" 已完成");
        StatusBar {
            message: self.status_message.clone(),
            dht: crate::task::clone_opt(&self.dht_status),
            counts,
        }
    }

    /// The row that shows a task.
    pub fn view_task_row(&self, task: &DownloadTask) -> (r: TaskRow)
        ensures
            r@ == row_of(task@, self.state().selected_task_id),
    {
        let selected = match &self.selected_task_id {
            Some(id) => text::text_eq(id.as_str(), task.id.as_str()),
            None => false,
        };
        let status = task.status;
        let moving = status == TaskStatus::Downloading || status == TaskStatus::Merging;
        let speed = if moving {
            crate::format::format_speed(task.speed)
        } else {
            "—".to_owned()
        };
        let eta = match task.total_size {
            Some(total) => if moving {
                crate::format::format_eta(total.saturating_sub(task.downloaded), task.speed)
            } else {
                "—".to_owned()
            },
            None => "—".to_owned(),
        };
        TaskRow {
            id: task.id.clone(),
            selected,
            filename: text::ellipsize(task.filename.as_str(), 35),
            size: size_text_or(task.total_size, "—"),
            progress: task.progress(),
            speed,
            speed_tint: if moving {
                Tint::Speed
            } else {
                Tint::Secondary
            },
            eta,
            status,
            status_tint: tint_of(status),
            bar_tint: if status == TaskStatus::Failed {
                Tint::Muted
            } else {
                tint_of(status)
            },
            actions: build_actions(task),
        }
    }

    /// The rows of the task list, one for each task.
    pub fn view_task_list(&self) -> (r: Vec<TaskRow>)
        ensures
            row_views(r@) == self.state().tasks.map_values(
                |t: TaskView| row_of(t, self.state().selected_task_id),
            ),
    {
        let ghost selected = self.state().selected_task_id;
        let n: usize = self.tasks.len();
        let mut rows: Vec<TaskRow> = Vec::new();
        let mut i: usize = 0;
        while i < n
            invariant
                n == self.tasks@.len(),
                i <= n,
                selected == self.state().selected_task_id,
                rows@.len() == i,
                forall|j: int|
                    0 <= j < i ==> (#[trigger] rows@[j])@ == row_of(self.tasks@[j]@, selected),
            decreases n - i,
        {
            rows.push(self.view_task_row(&self.tasks[i]));
            i += 1;
        }
        assert(row_views(rows@) =~= self.state().tasks.map_values(
            |t: TaskView| row_of(t, selected),
        ));
        rows
    }

    /// The position of the selected task, where there is one.
    pub fn selected_index(&self) -> (r: Option<usize>)
        ensures
            match (r, self.state().selected_index()) {
                (Some(i), Some(k)) => i == k && i < self.tasks@.len(),
                (None, None) => true,
                _ => false,
            },
    {
        match &self.selected_task_id {
            Some(id) => manager::find_task(&self.tasks, id.as_str()),
            None => None,
        }
    }

    /// The details of the selected task; `None` where no task is selected.
    pub fn view_detail_panel(&self, percent: &str, upload: &str, path: &str) -> (r: Option<
        Vec<Vec<Cell>>,
    >)
        ensures
            match (r, self.state().selected_index()) {
                (Some(lines), Some(k)) => line_views(lines@) == detail_lines(
                    self.state().tasks[k],
                    percent@,
                    upload@,
                    path@,
                ),
                (None, None) => true,
                _ => false,
            },
    {
        match self.selected_index() {
            Some(i) => Some(detail_panel(&self.tasks[i], percent, upload, path)),
            None => None,
        }
    }
}

impl AppState {
    /// The position of the selected task, where there is one.
    pub open spec fn selected_index(self) -> Option<int> {
        match self.selected_task_id {
            Some(id) => manager::task_index(self.tasks, id),
            None => None,
        }
    }
}

/// Only a task at rest that is not complete can be started, only a running one paused, only one
/// whose bytes move stopped; every task can be removed, with its files or without.
pub proof fn buttons_fit_the_state(status: TaskStatus)
    ensures
        actions_of(status).contains(TaskAction::Start) <==> !is_moving(status) && status
            != TaskStatus::Completed,
        actions_of(status).contains(TaskAction::Pause) <==> status == TaskStatus::Downloading,
        actions_of(status).contains(TaskAction::Stop) <==> is_moving(status),
        actions_of(status).contains(TaskAction::Remove),
        actions_of(status).contains(TaskAction::DeleteFiles),
{
    let first = transfer_actions(status);
    let all = actions_of(status);
    assert(all[first.len() as int] == TaskAction::Remove);
    assert(all[first.len() as int + 1] == TaskAction::DeleteFiles);
    if first.len() > 0 {
        assert(all[0] == first[0]);
    }
    if first.len() > 1 {
        assert(all[1] == first[1]);
    }
}

/// The button of a task acts on that task.
pub proof fn button_acts_on_its_task(state: AppState, action: TaskAction, id: Seq<char>)
    requires
        state.ready,
    ensures
        state.step(action.sends(id)).1 == match action {
            TaskAction::Pause => CommandView::Pause(id),
            TaskAction::Stop => CommandView::Stop(id),
            TaskAction::Start => CommandView::Start(id),
            TaskAction::Remove => CommandView::Remove(id, false),
            TaskAction::DeleteFiles => CommandView::Remove(id, true),
        },
{
}

/// A task whose buttons offer to start it can be started: it is found, what is to be done for it is
/// something, and it is being downloaded afterwards. A torrent needs the engine for that.
pub proof fn start_button_starts(manager: ManagerView, i: int, token: u64)
    requires
        is_first(manager.tasks, manager.tasks[i].id, i),
        actions_of(manager.tasks[i].status).contains(TaskAction::Start),
    ensures
        ({
            let task = manager.tasks[i];
            let (outcome, next) = manager.started(task.id, token);
            &&& task.task_type == TaskType::Http ==> outcome is Ok && outcome->Ok_0
                == StartView::Http(task)
            &&& task.task_type == TaskType::BitTorrent && manager.bt_available ==> outcome is Ok
                && outcome->Ok_0 == StartView::BitTorrent(task.url)
            &&& task.task_type == TaskType::Http || manager.bt_available
                ==> next.tasks[i].status == TaskStatus::Downloading && next.tasks[i].id == task.id
        }),
{
    let task = manager.tasks[i];
    buttons_fit_the_state(task.status);
    match task.task_type {
        TaskType::Http => {
            manager.http_task_is_set_going(i, token);
        },
        TaskType::BitTorrent => {
            manager.torrent_is_set_going(i, token);
        },
    }
}

/// The states from which a task is started, paused and stopped are told apart by the buttons in
/// their order: what changes the transfer comes first, removing the task and removing it with its
/// files come last.
pub proof fn removing_comes_last(status: TaskStatus)
    ensures
        ({
            let all = actions_of(status);
            &&& all.len() >= 2
            &&& all[all.len() - 2] == TaskAction::Remove
            &&& all[all.len() - 1] == TaskAction::DeleteFiles
            &&& status == TaskStatus::Downloading ==> all.len() == 4 && all[0] == TaskAction::Pause
                && all[1] == TaskAction::Stop
            &&& status == TaskStatus::Merging ==> all.len() == 3 && all[0] == TaskAction::Stop
            &&& status == TaskStatus::Completed ==> all.len() == 2
            &&& status == TaskStatus::Queued || status == TaskStatus::Paused || status
                == TaskStatus::Stopped || status == TaskStatus::Failed ==> all.len() == 3 && all[0]
                == TaskAction::Start
        }),
{
}

/// Each button has its own caption, and different ones have different captions.
pub proof fn captions_differ(a: TaskAction, b: TaskAction)
    ensures
        a != b ==> a.label_text() != b.label_text(),
        a.label_text() == "暂停"@ <==> a == TaskAction::Pause,
        a.label_text() == "停止"@ <==> a == TaskAction::Stop,
        a.label_text() == "开始"@ <==> a == TaskAction::Start,
        a.label_text() == "移除"@ <==> a == TaskAction::Remove,
        a.label_text() == "删文件"@ <==> a == TaskAction::DeleteFiles,
{
    reveal_strlit("暂停");
    reveal_strlit("停止");
    reveal_strlit("开始");
    reveal_strlit("移除");
    reveal_strlit("删文件");
    assert("暂停"@[0] == '暂' && "停止"@[0] == '停' && "开始"@[0] == '开');
    assert("移除"@[0] == '移' && "删文件"@[0] == '删');
}

/// The colours tell the states apart: green is for what is complete, red for what has failed,
/// orange for what is paused, purple for what is being merged, the accent for what is being
/// downloaded, and nothing sticks out for what waits or was stopped. Only the bar of a failed task
/// is not in its colour, but muted.
pub proof fn colours_tell_the_state(status: TaskStatus)
    ensures
        status_tint(status) == Tint::Green <==> status == TaskStatus::Completed,
        status_tint(status) == Tint::Red <==> status == TaskStatus::Failed,
        status_tint(status) == Tint::Orange <==> status == TaskStatus::Paused,
        status_tint(status) == Tint::Purple <==> status == TaskStatus::Merging,
        status_tint(status) == Tint::Accent <==> status == TaskStatus::Downloading,
        status_tint(status) == Tint::Muted <==> status == TaskStatus::Queued || status
            == TaskStatus::Stopped,
        bar_tint(status) == Tint::Muted <==> status == TaskStatus::Queued || status
            == TaskStatus::Stopped || status == TaskStatus::Failed,
        bar_tint(status) != Tint::Muted ==> bar_tint(status) == status_tint(status),
{
}

/// The figures of two lists together are those of the one and the other; a task alone counts as
/// running, with its rate, exactly while it is being downloaded, and as complete exactly when it
/// is.
pub proof fn figures_add_up(a: Seq<TaskView>, b: Seq<TaskView>, task: TaskView)
    ensures
        running_count(a + b) == running_count(a) + running_count(b),
        running_speed(a + b) == running_speed(a) + running_speed(b),
        completed_count(a + b) == completed_count(a) + completed_count(b),
        running_count(seq![task]) == (if task.status == TaskStatus::Downloading {
            1nat
        } else {
            0
        }),
        running_speed(seq![task]) == (if task.status == TaskStatus::Downloading {
            task.speed as nat
        } else {
            0
        }),
        completed_count(seq![task]) == (if task.status == TaskStatus::Completed {
            1nat
        } else {
            0
        }),
        running_count(a) + completed_count(a) <= a.len(),
    decreases a.len() + b.len(),
{
    assert(seq![task].drop_last() =~= Seq::<TaskView>::empty());
    assert(running_count(Seq::empty()) == 0);
    assert(running_speed(Seq::empty()) == 0);
    assert(completed_count(Seq::empty()) == 0);
    if a.len() > 0 {
        figures_add_up(a.drop_last(), Seq::empty(), task);
    }
    if b.len() == 0 {
        assert(a + b =~= a);
    } else {
        figures_add_up(a, b.drop_last(), task);
        assert((a + b).drop_last() =~= a + b.drop_last());
    }
}

/// A row shows its task: the name and the size, the rate while bytes move, and then, where the size
/// is known, the time that the missing bytes take at that rate; a dash stands for what is not
/// known.
pub proof fn row_shows_its_task(task: TaskView, selected_id: Option<Seq<char>>, total: u64)
    ensures
        ({
            let row = row_of(task, selected_id);
            let moving = task.status == TaskStatus::Downloading || task.status
                == TaskStatus::Merging;
            &&& row.id == task.id && row.status == task.status
            &&& row.selected <==> selected_id is Some && selected_id->0 == task.id
            &&& task.filename.len() <= 35 ==> row.filename == task.filename
            &&& row.filename.len() <= 35
            &&& task.total_size == Some(total) ==> row.size == crate::format::size_text(total)
            &&& task.total_size is None ==> row.size == "—"@ && row.eta == "—"@
            &&& moving ==> row.speed == crate::format::speed_text(task.speed) && row.speed_tint
                == Tint::Speed
            &&& !moving ==> row.speed == "—"@ && row.eta == "—"@ && row.speed_tint
                == Tint::Secondary
            &&& moving && task.total_size == Some(total) && task.downloaded <= total ==> row.eta
                == crate::format::eta_text((total - task.downloaded) as u64, task.speed)
            &&& moving && task.total_size == Some(total) && task.downloaded > total ==> row.eta
                == crate::format::eta_text(0, task.speed)
            &&& task.total_size == Some(total) && total > 0 ==> row.progress == Some(
                (task.downloaded, total),
            )
            &&& task.total_size is None || task.total_size == Some(0u64) ==> row.progress is None
            &&& row.status_tint == status_tint(task.status)
            &&& row.bar_tint == bar_tint(task.status)
            &&& row.actions == actions_of(task.status)
        }),
{
}

/// The details of a task are four lines, more for a torrent and one more for an error: the name,
/// the way of transfer and the connections; the directory; how much is there of how much, and the
/// rate; the link. The error comes last, where there is one.
pub proof fn details_show_the_task(
    task: TaskView,
    percent: Seq<char>,
    upload: Seq<char>,
    path: Seq<char>,
)
    ensures
        ({
            let lines = detail_lines(task, percent, upload, path);
            let error = if task.error_message is Some {
                1int
            } else {
                0
            };
            let torrent = if task.task_type != TaskType::BitTorrent {
                0int
            } else if task.bt_extra is None {
                1
            } else if task.bt_extra->0.eta_label is None {
                3
            } else {
                4
            };
            &&& lines.len() == 4 + torrent + error
            &&& lines[0].len() == 3 && lines[1].len() == 1 && lines[2].len() == 2 && lines[3].len()
                == 1
            &&& lines[0][0].text == task.filename
            &&& lines[0][1].text == task.task_type.label_text()
            &&& text::all_digits(lines[0][2].text) && text::digits_value(lines[0][2].text)
                == task.connections
            &&& lines[1][0].text == (if task.save_path.plain() is Some {
                task.save_path.plain()->0
            } else {
                path
            })
            &&& task.total_size is Some ==> lines[2][0].text == crate::format::size_text(
                task.downloaded,
            ) + " / "@ + crate::format::size_text(task.total_size->0) + " ("@ + percent + "%)"@
            &&& task.total_size is None ==> lines[2][0].text == crate::format::size_text(
                task.downloaded,
            ) + " / "@ + "未知"@ + " ("@ + percent + "%)"@
            &&& lines[2][1].text == crate::format::speed_text(task.speed)
            &&& task.url.len() <= 70 ==> lines[3][0].text == task.url
            &&& lines[3][0].text.len() <= 70
            &&& task.error_message is Some ==> lines.last().len() == 1 && lines.last()[0].text
                == task.error_message->0 && lines.last()[0].tint == Tint::Red
        }),
{
    text::decimal_is_digits(task.connections as nat);
}

/// A torrent's own lines stand behind the common ones: its state and what was uploaded, its peers,
/// its pieces, and the remaining time where it is known. One that is not followed yet says so.
pub proof fn details_show_the_torrent(
    task: TaskView,
    percent: Seq<char>,
    upload: Seq<char>,
    path: Seq<char>,
)
    requires
        task.task_type == TaskType::BitTorrent,
    ensures
        ({
            let lines = detail_lines(task, percent, upload, path);
            &&& task.bt_extra is None ==> lines[4][0].text == "等待统计…"@
            &&& task.bt_extra matches Some(extra) ==> {
                &&& lines[4][0].text == extra.state_label + " · 已上传 "@ + crate::format::size_text(
                    extra.uploaded,
                ) + " · 上传 "@ + upload + " MiB/s"@
                &&& lines[5][0].text == peers_text(extra)
                &&& lines[6][0].text == "已校验 "@ + text::decimal(extra.pieces_checked as nat)
                    + " 片"@
                &&& extra.eta_label is Some ==> lines[7][0].text == extra.eta_label->0
            }
        }),
{
}

/// The line of the peers shows those in the queue, those that are being connected to, those that
/// are live, those that have been seen and those that are lost, in this order and in decimal.
pub proof fn peers_are_shown_in_order(extra: BtExtraView)
    ensures
        exists|a: Seq<char>, b: Seq<char>, c: Seq<char>, d: Seq<char>, e: Seq<char>|
            {
                &&& peers_text(extra) == #[trigger] ("排队 "@ + a + " · 握手中 "@ + b + " · 活跃 "@ + c
                    + " · 累计 "@ + d + " · 失效 "@ + e)
                &&& text::all_digits(a) && text::digits_value(a) == extra.peer_queued
                &&& text::all_digits(b) && text::digits_value(b) == extra.peer_connecting
                &&& text::all_digits(c) && text::digits_value(c) == extra.peer_live
                &&& text::all_digits(d) && text::digits_value(d) == extra.peer_seen
                &&& text::all_digits(e) && text::digits_value(e) == extra.peer_dead
            },
{
    text::decimal_is_digits(extra.peer_queued as nat);
    text::decimal_is_digits(extra.peer_connecting as nat);
    text::decimal_is_digits(extra.peer_live as nat);
    text::decimal_is_digits(extra.peer_seen as nat);
    text::decimal_is_digits(extra.peer_dead as nat);
    let a = text::decimal(extra.peer_queued as nat);
    let b = text::decimal(extra.peer_connecting as nat);
    let c = text::decimal(extra.peer_live as nat);
    let d = text::decimal(extra.peer_seen as nat);
    let e = text::decimal(extra.peer_dead as nat);
    assert(peers_text(extra) == "排队 "@ + a + " · 握手中 "@ + b + " · 活跃 "@ + c + " · 累计 "@ + d
        + " · 失效 "@ + e);
}

impl AppState {
    /// The task whose details are shown is the first one with the selected id; none is shown where
    /// nothing is selected or no task has that id.
    pub proof fn selected_task_is_shown(self, i: int)
        ensures
            self.selected_task_id is None ==> self.selected_index() is None,
            self.selected_task_id is Some && is_first(self.tasks, self.selected_task_id->0, i)
                ==> self.selected_index() == Some(i),
            self.selected_task_id is Some && (forall|k: int|
                0 <= k < self.tasks.len() ==> (#[trigger] self.tasks[k]).id
                    != self.selected_task_id->0) ==> self.selected_index() is None,
    {
        if let Some(id) = self.selected_task_id {
            manager::index_from_is_first(self.tasks, id, 0);
        }
    }
}

} // verus!
