//! The window: what the user sees and does, and what follows from it.

use crate::config;
use crate::manager;
use crate::paths::{opt_path, opt_place, MachinePath, Place, PlaceView};
use crate::task::{clone_opt, opt_text};
use crate::task::{DownloadTask, TaskView};
use crate::text;
use crate::text::CharClass;
use vstd::prelude::*;
use vstd::string::*;

verus! {

/// What happens in the window.
#[derive(Debug)]
pub enum Message {
    AppReady(Result<(), String>),
    TickTrigger,
    SyncTasks(Vec<DownloadTask>, Option<String>),
    AddPressed,
    PickTorrentFile,
    TorrentPicked(Option<String>),
    UrlInputChanged(String),
    ConfirmAdd,
    CancelAdd,
    StartTask(String),
    PauseTask(String),
    StopTask(String),
    DeleteTask(String, bool),
    SelectTask(Option<String>),
    OpenFolder,
    TaskActionDone(Result<(), String>),
}

/// What a `Message` holds.
pub enum MessageView {
    AppReady(Result<(), Seq<char>>),
    TickTrigger,
    SyncTasks(Seq<TaskView>, Option<Seq<char>>),
    AddPressed,
    PickTorrentFile,
    TorrentPicked(Option<Seq<char>>),
    UrlInputChanged(Seq<char>),
    ConfirmAdd,
    CancelAdd,
    StartTask(Seq<char>),
    PauseTask(Seq<char>),
    StopTask(Seq<char>),
    DeleteTask(Seq<char>, bool),
    SelectTask(Option<Seq<char>>),
    OpenFolder,
    TaskActionDone(Result<(), Seq<char>>),
}

/// What the outcome of an action holds.
pub open spec fn outcome_text(r: Result<(), String>) -> Result<(), Seq<char>> {
    match r {
        Ok(_) => Ok(()),
        Err(e) => Err(e@),
    }
}

impl View for Message {
    type V = MessageView;

    open spec fn view(&self) -> MessageView {
        match *self {
            Message::AppReady(r) => MessageView::AppReady(outcome_text(r)),
            Message::TickTrigger => MessageView::TickTrigger,
            Message::SyncTasks(tasks, dht) => MessageView::SyncTasks(
                manager::views(tasks@),
                opt_text(dht),
            ),
            Message::AddPressed => MessageView::AddPressed,
            Message::PickTorrentFile => MessageView::PickTorrentFile,
            Message::TorrentPicked(path) => MessageView::TorrentPicked(opt_text(path)),
            Message::UrlInputChanged(v) => MessageView::UrlInputChanged(v@),
            Message::ConfirmAdd => MessageView::ConfirmAdd,
            Message::CancelAdd => MessageView::CancelAdd,
            Message::StartTask(id) => MessageView::StartTask(id@),
            Message::PauseTask(id) => MessageView::PauseTask(id@),
            Message::StopTask(id) => MessageView::StopTask(id@),
            Message::DeleteTask(id, files) => MessageView::DeleteTask(id@, files),
            Message::SelectTask(id) => MessageView::SelectTask(opt_text(id)),
            Message::OpenFolder => MessageView::OpenFolder,
            Message::TaskActionDone(r) => MessageView::TaskActionDone(outcome_text(r)),
        }
    }
}

fn clone_outcome(r: &Result<(), String>) -> (c: Result<(), String>)
    ensures
        outcome_text(c) == outcome_text(*r),
{
    match r {
        Ok(_) => Ok(()),
        Err(e) => Err(e.clone()),
    }
}

fn clone_tasks(tasks: &Vec<DownloadTask>) -> (r: Vec<DownloadTask>)
    ensures
        manager::views(r@) == manager::views(tasks@),
{
    let n: usize = tasks.len();
    let mut out: Vec<DownloadTask> = Vec::new();
    let mut i: usize = 0;
    while i < n
        invariant
            n == tasks@.len(),
            i <= n,
            manager::views(out@) == manager::views(tasks@).take(i as int),
        decreases n - i,
    {
        let ghost before = out@;
        out.push(tasks[i].clone());
        i += 1;
        assert(manager::views(out@) =~= manager::views(before).push(tasks@[i - 1]@));
        assert(manager::views(out@) =~= manager::views(tasks@).take(i as int));
    }
    assert(manager::views(tasks@).take(n as int) =~= manager::views(tasks@));
    out
}

impl Clone for Message {
    fn clone(&self) -> (r: Self)
        ensures
            r@ == self@,
    {
        match self {
            Message::AppReady(r) => Message::AppReady(clone_outcome(r)),
            Message::TickTrigger => Message::TickTrigger,
            Message::SyncTasks(tasks, dht) => Message::SyncTasks(
                clone_tasks(tasks),
                clone_opt(dht),
            ),
            Message::AddPressed => Message::AddPressed,
            Message::PickTorrentFile => Message::PickTorrentFile,
            Message::TorrentPicked(path) => Message::TorrentPicked(clone_opt(path)),
            Message::UrlInputChanged(v) => Message::UrlInputChanged(v.clone()),
            Message::ConfirmAdd => Message::ConfirmAdd,
            Message::CancelAdd => Message::CancelAdd,
            Message::StartTask(id) => Message::StartTask(id.clone()),
            Message::PauseTask(id) => Message::PauseTask(id.clone()),
            Message::StopTask(id) => Message::StopTask(id.clone()),
            Message::DeleteTask(id, files) => Message::DeleteTask(id.clone(), *files),
            Message::SelectTask(id) => Message::SelectTask(clone_opt(id)),
            Message::OpenFolder => Message::OpenFolder,
            Message::TaskActionDone(r) => Message::TaskActionDone(clone_outcome(r)),
        }
    }
}

/// What is to be done outside the window.
#[derive(Debug)]
pub enum Command {
    Nothing,
    /// Take over the manager that has been set up.
    AttachManager,
    /// Take in the reports, then send the tasks to the window.
    Sync,
    /// Let the user pick a torrent file.
    PickTorrent,
    /// Add a task for a link, and start it.
    AddAndStart(String),
    Start(String),
    Pause(String),
    Stop(String),
    /// Remove a task, with its files or without.
    Remove(String, bool),
    /// Show a directory; the user's download directory where none is given.
    OpenFolder(Option<Place>),
}

/// What a `Command` holds.
pub enum CommandView {
    Nothing,
    AttachManager,
    Sync,
    PickTorrent,
    AddAndStart(Seq<char>),
    Start(Seq<char>),
    Pause(Seq<char>),
    Stop(Seq<char>),
    Remove(Seq<char>, bool),
    OpenFolder(Option<PlaceView>),
}

impl View for Command {
    type V = CommandView;

    open spec fn view(&self) -> CommandView {
        match *self {
            Command::Nothing => CommandView::Nothing,
            Command::AttachManager => CommandView::AttachManager,
            Command::Sync => CommandView::Sync,
            Command::PickTorrent => CommandView::PickTorrent,
            Command::AddAndStart(url) => CommandView::AddAndStart(url@),
            Command::Start(id) => CommandView::Start(id@),
            Command::Pause(id) => CommandView::Pause(id@),
            Command::Stop(id) => CommandView::Stop(id@),
            Command::Remove(id, files) => CommandView::Remove(id@, files),
            Command::OpenFolder(dir) => CommandView::OpenFolder(opt_place(dir)),
        }
    }
}

/// The state of the window.
pub struct App {
    /// Whether the manager has been taken over.
    pub ready: bool,
    pub tasks: Vec<DownloadTask>,
    pub show_add_dialog: bool,
    pub url_input: String,
    pub selected_task_id: Option<String>,
    pub status_message: String,
    pub dht_status: Option<String>,
}

/// What an `App` holds.
#[verifier::ext_equal]
pub struct AppState {
    pub ready: bool,
    pub tasks: Seq<TaskView>,
    pub show_add_dialog: bool,
    pub url_input: Seq<char>,
    pub selected_task_id: Option<Seq<char>>,
    pub status_message: Seq<char>,
    pub dht_status: Option<Seq<char>>,
}

impl AppState {
    /// The window with another message in its status bar.
    pub open spec fn saying(self, message: Seq<char>) -> AppState {
        AppState { status_message: message, ..self }
    }

    /// What a message does to the window, and what is to be done outside it.
    pub open spec fn step(self, message: MessageView) -> (AppState, CommandView) {
        match message {
            MessageView::AppReady(r) => match r {
                Ok(_) => (
                    AppState { ready: true, ..self.saying("就绪"@) },
                    CommandView::AttachManager,
                ),
                Err(e) => (self.saying("初始化失败: "@ + e), CommandView::Nothing),
            },
            MessageView::TickTrigger => (
                self,
                if self.ready {
                    CommandView::Sync
                } else {
                    CommandView::Nothing
                },
            ),
            MessageView::SyncTasks(tasks, dht_status) => (
                AppState { tasks, dht_status, ..self },
                CommandView::Nothing,
            ),
            MessageView::AddPressed => (
                AppState { show_add_dialog: true, url_input: Seq::empty(), ..self },
                CommandView::Nothing,
            ),
            MessageView::PickTorrentFile => (self, CommandView::PickTorrent),
            MessageView::TorrentPicked(path) => match path {
                None => (self, CommandView::Nothing),
                Some(p) => if self.ready {
                    (self.saying("正在添加种子: "@ + p), CommandView::AddAndStart(p))
                } else {
                    (self.saying("尚未就绪"@), CommandView::Nothing)
                },
            },
            MessageView::UrlInputChanged(v) => (
                AppState { url_input: v, ..self },
                CommandView::Nothing,
            ),
            MessageView::ConfirmAdd => {
                let url = text::trimmed(self.url_input, CharClass::White);
                let closed = AppState { show_add_dialog: false, url_input: Seq::empty(), ..self };
                if url.len() == 0 {
                    (closed, CommandView::Nothing)
                } else if self.ready {
                    (closed.saying("正在添加: "@ + url), CommandView::AddAndStart(url))
                } else {
                    (closed.saying("尚未就绪，请稍候"@), CommandView::Nothing)
                }
            },
            MessageView::CancelAdd => (
                AppState { show_add_dialog: false, url_input: Seq::empty(), ..self },
                CommandView::Nothing,
            ),
            MessageView::StartTask(id) => (
                self,
                if self.ready {
                    CommandView::Start(id)
                } else {
                    CommandView::Nothing
                },
            ),
            MessageView::PauseTask(id) => if self.ready {
                (self.saying("正在暂停…"@), CommandView::Pause(id))
            } else {
                (self, CommandView::Nothing)
            },
            MessageView::StopTask(id) => if self.ready {
                (self.saying("正在停止…"@), CommandView::Stop(id))
            } else {
                (self, CommandView::Nothing)
            },
            MessageView::DeleteTask(id, files) => if self.ready {
                let selected = if self.selected_task_id == Some(id) {
                    None
                } else {
                    self.selected_task_id
                };
                let said = if files {
                    "正在删除任务与文件…"@
                } else {
                    "正在移除任务…"@
                };
                (
                    AppState { selected_task_id: selected, ..self.saying(said) },
                    CommandView::Remove(id, files),
                )
            } else {
                (self, CommandView::Nothing)
            },
            MessageView::SelectTask(id) => (
                AppState { selected_task_id: id, ..self },
                CommandView::Nothing,
            ),
            MessageView::OpenFolder => (
                self,
                CommandView::OpenFolder(
                    if self.tasks.len() > 0 {
                        Some(self.tasks[0].save_path)
                    } else {
                        None
                    },
                ),
            ),
            MessageView::TaskActionDone(r) => match r {
                Ok(_) => (self.saying("操作成功"@), CommandView::Nothing),
                Err(e) => (self.saying("错误: "@ + e), CommandView::Nothing),
            },
        }
    }
}

/// Whether an optional string holds a given text.
fn holds(s: &Option<String>, t: &str) -> (r: bool)
    ensures
        r == (opt_text(*s) == Some(t@)),
{
    match s {
        Some(v) => text::text_eq(v.as_str(), t),
        None => false,
    }
}

fn prefixed(prefix: &str, s: &str) -> (r: String)
    ensures
        r@ == prefix@ + s@,
{
    let mut out = prefix.to_owned();
    out.append(s);
    out
}

impl App {
    /// What the window holds.
    pub open spec fn state(&self) -> AppState {
        AppState {
            ready: self.ready,
            tasks: manager::views(self.tasks@),
            show_add_dialog: self.show_add_dialog,
            url_input: self.url_input@,
            selected_task_id: opt_text(self.selected_task_id),
            status_message: self.status_message@,
            dht_status: opt_text(self.dht_status),
        }
    }

    /// The window while the manager is being set up.
    pub fn bootstrapping() -> (r: Self)
        ensures
            r.state() == (AppState {
                ready: false,
                tasks: Seq::empty(),
                show_add_dialog: false,
                url_input: Seq::empty(),
                selected_task_id: None,
                status_message: "正在初始化…"@,
                dht_status: None,
            }),
    {
        let r = App {
            ready: false,
            tasks: Vec::new(),
            show_add_dialog: false,
            url_input: String::new(),
            selected_task_id: None,
            status_message: "正在初始化…".to_owned(),
            dht_status: None,
        };
        assert(r.state().tasks =~= Seq::<TaskView>::empty());
        r
    }

    /// The title of the window.
    pub fn title(&self) -> (r: String)
        ensures
            r@ == "Rust Download Manager"@,
    {
        "Rust Download Manager".to_owned()
    }

    /// How often the window asks for news, in milliseconds; not before the manager is there.
    pub fn subscription(&self) -> (r: Option<u64>)
        ensures
            r == (if self.ready {
                Some(120u64)
            } else {
                None
            }),
    {
        if self.ready {
            Some(120)
        } else {
            None
        }
    }

    /// Takes in a message, and tells what is to be done outside the window.
    pub fn update(&mut self, message: Message) -> (r: Command)
        ensures
            final(self).state() == old(self).state().step(message@).0,
            r@ == old(self).state().step(message@).1,
    {
        match message {
            Message::AppReady(result) => match result {
                Ok(_) => {
                    self.ready = true;
                    self.status_message = "就绪".to_owned();
                    Command::AttachManager
                },
                Err(e) => {
                    self.status_message = prefixed("初始化失败: ", e.as_str());
                    Command::Nothing
                },
            },
            Message::TickTrigger => {
                if self.ready {
                    Command::Sync
                } else {
                    Command::Nothing
                }
            },
            Message::SyncTasks(tasks, dht) => {
                self.tasks = tasks;
                self.dht_status = dht;
                Command::Nothing
            },
            Message::AddPressed => {
                self.show_add_dialog = true;
                self.url_input = String::new();
                Command::Nothing
            },
            Message::PickTorrentFile => Command::PickTorrent,
            Message::TorrentPicked(path) => match path {
                None => Command::Nothing,
                Some(p) => {
                    if !self.ready {
                        self.status_message = "尚未就绪".to_owned();
                        return Command::Nothing;
                    }
                    self.status_message = prefixed("正在添加种子: ", p.as_str());
                    Command::AddAndStart(p)
                },
            },
            Message::UrlInputChanged(v) => {
                self.url_input = v;
                Command::Nothing
            },
            Message::ConfirmAdd => {
                let url = text::trim(self.url_input.as_str(), CharClass::White);
                self.show_add_dialog = false;
                self.url_input = String::new();
                if url.as_str().is_empty() {
                    return Command::Nothing;
                }
                if !self.ready {
                    self.status_message = "尚未就绪，请稍候".to_owned();
                    return Command::Nothing;
                }
                self.status_message = prefixed("正在添加: ", url.as_str());
                Command::AddAndStart(url)
            },
            Message::CancelAdd => {
                self.show_add_dialog = false;
                self.url_input = String::new();
                Command::Nothing
            },
            Message::StartTask(id) => {
                if self.ready {
                    Command::Start(id)
                } else {
                    Command::Nothing
                }
            },
            Message::PauseTask(id) => {
                if !self.ready {
                    return Command::Nothing;
                }
                self.status_message = "正在暂停…".to_owned();
                Command::Pause(id)
            },
            Message::StopTask(id) => {
                if !self.ready {
                    return Command::Nothing;
                }
                self.status_message = "正在停止…".to_owned();
                Command::Stop(id)
            },
            Message::DeleteTask(id, files) => {
                if !self.ready {
                    return Command::Nothing;
                }
                if holds(&self.selected_task_id, id.as_str()) {
                    self.selected_task_id = None;
                }
                self.status_message = if files {
                    "正在删除任务与文件…".to_owned()
                } else {
                    "正在移除任务…".to_owned()
                };
                Command::Remove(id, files)
            },
            Message::SelectTask(id) => {
                self.selected_task_id = id;
                Command::Nothing
            },
            Message::OpenFolder => {
                if self.tasks.len() > 0 {
                    Command::OpenFolder(Some(self.tasks[0].save_path.clone()))
                } else {
                    Command::OpenFolder(None)
                }
            },
            Message::TaskActionDone(result) => match result {
                Ok(_) => {
                    self.status_message = "操作成功".to_owned();
                    Command::Nothing
                },
                Err(e) => {
                    self.status_message = prefixed("错误: ", e.as_str());
                    Command::Nothing
                },
            },
        }
    }
}

/// The directory to show: the given one, else the user's download directory, else the current
/// one.
pub fn folder_or_default(dir: Option<Place>, download_dir: Option<MachinePath>) -> (r: Place)
    ensures
        r@ == match (opt_place(dir), opt_path(download_dir)) {
            (Some(d), _) => d,
            (None, Some(d)) => PlaceView::at(d),
            (None, None) => PlaceView::of_text(Seq::empty()),
        },
{
    match dir {
        Some(d) => d,
        None => match download_dir {
            Some(d) => Place::at(d),
            None => Place::of_text(String::new()),
        },
    }
}

/// The directory to show: the given one, or one of the user's where none is given; which one that
/// is depends on the machine.
pub fn folder_to_open(dir: Option<Place>) -> (r: Place)
    ensures
        opt_place(dir) matches Some(d) ==> r@ == d,
        dir is None ==> r@.steps.len() == 0,
{
    match dir {
        Some(d) => d,
        None => folder_or_default(None, config::user_download_dir()),
    }
}

/// Whether a message is the news that the manager has been set up.
pub open spec fn is_ready_news(message: MessageView) -> bool {
    message matches MessageView::AppReady(r) && r is Ok
}

impl AppState {
    /// Before the manager is there no task is touched: the user can pick a file and look at a
    /// folder, and that is all.
    pub proof fn nothing_is_done_before_ready(self, message: MessageView)
        requires
            !self.ready,
            !is_ready_news(message),
        ensures
            !self.step(message).0.ready,
            self.step(message).1 is Nothing || self.step(message).1 is PickTorrent || self.step(
                message,
            ).1 is OpenFolder,
    {
    }

    /// Once the manager is there it stays.
    pub proof fn ready_stays(self, message: MessageView)
        requires
            self.ready,
        ensures
            self.step(message).0.ready,
    {
    }

    /// The tasks that are shown change only when the manager sends them.
    pub proof fn only_sync_changes_tasks(self, message: MessageView)
        requires
            !(message is SyncTasks),
        ensures
            self.step(message).0.tasks == self.tasks,
    {
    }

    /// A task that is being removed is not selected any more, and no other loses its selection.
    pub proof fn removed_task_is_not_selected(self, id: Seq<char>, files: bool)
        requires
            self.ready,
        ensures
            self.step(MessageView::DeleteTask(id, files)).0.selected_task_id != Some(id),
            self.selected_task_id != Some(id) ==> self.step(
                MessageView::DeleteTask(id, files),
            ).0.selected_task_id == self.selected_task_id,
    {
    }

    /// Opening the dialog and closing it again leaves the window as it was, but for what was
    /// typed.
    pub proof fn cancelled_dialog_leaves_nothing(self, typed: Seq<char>)
        requires
            !self.show_add_dialog,
        ensures
            self.step(MessageView::AddPressed).0.step(
                MessageView::UrlInputChanged(typed),
            ).0.step(MessageView::CancelAdd).0 == (AppState { url_input: Seq::empty(), ..self }),
    {
    }

    /// What is added from the dialog is what was typed, without the white space around it.
    pub proof fn confirmed_link_is_added(self, typed: Seq<char>)
        requires
            self.ready,
            text::trimmed(typed, CharClass::White).len() > 0,
        ensures
            self.step(MessageView::UrlInputChanged(typed)).0.step(MessageView::ConfirmAdd).1
                == CommandView::AddAndStart(text::trimmed(typed, CharClass::White)),
    {
    }
}

impl AppState {
    /// Each part of the window changes on its own messages alone: whether the manager is there when
    /// it has come, tasks and DHT line when the manager sends them, the dialog when it is opened or
    /// closed, the input then and when something is typed, the selection when a task is selected
    /// or removed, the status bar when something is done or has been done.
    pub proof fn parts_change_on_their_messages(self, message: MessageView)
        ensures
            ({
                let next = self.step(message).0;
                let opens_or_closes = message is AddPressed || message is ConfirmAdd
                    || message is CancelAdd;
                &&& next.ready != self.ready ==> is_ready_news(message)
                &&& next.tasks != self.tasks ==> message is SyncTasks
                &&& next.dht_status != self.dht_status ==> message is SyncTasks
                &&& next.show_add_dialog != self.show_add_dialog ==> opens_or_closes
                &&& next.url_input != self.url_input ==> opens_or_closes
                    || message is UrlInputChanged
                &&& next.selected_task_id != self.selected_task_id ==> message is SelectTask
                    || message is DeleteTask
                &&& next.status_message != self.status_message ==> message is AppReady
                    || message is TorrentPicked || message is ConfirmAdd || message is PauseTask
                    || message is StopTask || message is DeleteTask || message is TaskActionDone
            }),
    {
    }

    /// What comes with a message is what the window shows afterwards.
    pub proof fn messages_are_taken_over(
        self,
        tasks: Seq<TaskView>,
        dht_status: Option<Seq<char>>,
        typed: Seq<char>,
        id: Option<Seq<char>>,
    )
        ensures
            self.step(MessageView::AppReady(Ok(()))).0.ready,
            self.step(MessageView::SyncTasks(tasks, dht_status)).0.tasks == tasks,
            self.step(MessageView::SyncTasks(tasks, dht_status)).0.dht_status == dht_status,
            self.step(MessageView::UrlInputChanged(typed)).0.url_input == typed,
            self.step(MessageView::SelectTask(id)).0.selected_task_id == id,
            self.step(MessageView::AddPressed).0.show_add_dialog,
            self.step(MessageView::AddPressed).0.url_input.len() == 0,
            !self.step(MessageView::ConfirmAdd).0.show_add_dialog,
            self.step(MessageView::ConfirmAdd).0.url_input.len() == 0,
            !self.step(MessageView::CancelAdd).0.show_add_dialog,
            self.step(MessageView::CancelAdd).0.url_input.len() == 0,
    {
    }

    /// Once the manager is there, each command follows from its own message and from no other, for
    /// the task or the file that came with it.
    pub proof fn commands_follow_from_messages(self, message: MessageView, id: Seq<char>)
        requires
            self.ready,
        ensures
            ({
                let command = self.step(message).1;
                &&& command == CommandView::AttachManager <==> is_ready_news(message)
                &&& command == CommandView::Sync <==> message == MessageView::TickTrigger
                &&& command == CommandView::PickTorrent <==> message == MessageView::PickTorrentFile
                &&& command == CommandView::Start(id) <==> message == MessageView::StartTask(id)
                &&& command == CommandView::Pause(id) <==> message == MessageView::PauseTask(id)
                &&& command == CommandView::Stop(id) <==> message == MessageView::StopTask(id)
                &&& command == CommandView::Remove(id, true) <==> message
                    == MessageView::DeleteTask(id, true)
                &&& command == CommandView::Remove(id, false) <==> message
                    == MessageView::DeleteTask(id, false)
                &&& message == MessageView::TorrentPicked(Some(id)) ==> command
                    == CommandView::AddAndStart(id)
                &&& command is AddAndStart ==> message is ConfirmAdd || message is TorrentPicked
                &&& command is OpenFolder <==> message is OpenFolder
            }),
    {
    }

    /// The manager is taken over when it has come, a file can be picked and a folder looked at,
    /// whether the manager is there or not; the folder is that of the first task, where there is
    /// one, and picking no file does nothing.
    pub proof fn window_acts_without_the_manager(self)
        ensures
            self.step(MessageView::AppReady(Ok(()))).1 == CommandView::AttachManager,
            self.step(MessageView::PickTorrentFile) == (self, CommandView::PickTorrent),
            self.tasks.len() > 0 ==> self.step(MessageView::OpenFolder) == (
                self,
                CommandView::OpenFolder(Some(self.tasks[0].save_path)),
            ),
            self.tasks.len() == 0 ==> self.step(MessageView::OpenFolder) == (
                self,
                CommandView::OpenFolder(None),
            ),
            self.step(MessageView::TorrentPicked(None)) == (self, CommandView::Nothing),
    {
    }

    /// A link between white space is added without it, or, before the manager is there, is asked to
    /// wait; white space alone is not added, and says nothing. The dialog is closed either way.
    pub proof fn typed_link_is_added(self, lead: Seq<char>, url: Seq<char>, tail: Seq<char>)
        requires
            forall|i: int| 0 <= i < lead.len() ==> text::is_white(#[trigger] lead[i]),
            forall|i: int| 0 <= i < tail.len() ==> text::is_white(#[trigger] tail[i]),
            url.len() > 0 ==> !text::is_white(url[0]) && !text::is_white(url.last()),
        ensures
            ({
                let typed = self.step(MessageView::UrlInputChanged(lead + url + tail)).0;
                let (next, command) = typed.step(MessageView::ConfirmAdd);
                &&& url.len() > 0 && self.ready ==> command == CommandView::AddAndStart(url)
                    && next.status_message == "正在添加: "@ + url
                &&& url.len() > 0 && !self.ready ==> command == CommandView::Nothing
                    && next.status_message == "尚未就绪，请稍候"@
                &&& url.len() == 0 ==> command == CommandView::Nothing && next.status_message
                    == self.status_message
                &&& !next.show_add_dialog && next.url_input.len() == 0
            }),
    {
        assert forall|i: int| 0 <= i < lead.len() implies CharClass::White.holds(
            #[trigger] lead[i],
        ) by {
            assert(text::is_white(lead[i]));
        }
        assert forall|i: int| 0 <= i < tail.len() implies CharClass::White.holds(
            #[trigger] tail[i],
        ) by {
            assert(text::is_white(tail[i]));
        }
        text::trimming_leaves_the_core(lead, url, tail, CharClass::White);
    }

    /// What goes wrong is shown with its reason, and what goes well is said.
    pub proof fn outcomes_are_shown(self, reason: Seq<char>, path: Seq<char>)
        ensures
            self.step(MessageView::AppReady(Err(reason))).0.status_message == "初始化失败: "@ + reason,
            self.step(MessageView::AppReady(Err(reason))).1 == CommandView::Nothing,
            self.step(MessageView::AppReady(Ok(()))).0.status_message == "就绪"@,
            self.step(MessageView::TaskActionDone(Err(reason))).0.status_message == "错误: "@
                + reason,
            self.step(MessageView::TaskActionDone(Ok(()))).0.status_message == "操作成功"@,
            self.ready ==> self.step(MessageView::TorrentPicked(Some(path))).0.status_message
                == "正在添加种子: "@ + path,
            !self.ready ==> self.step(MessageView::TorrentPicked(Some(path))).0.status_message
                == "尚未就绪"@,
    {
    }

    /// Pausing, stopping and removing are announced, the last one differently with the files and
    /// without, once the manager is there; before that nothing is said or done.
    pub proof fn actions_are_announced(self, id: Seq<char>)
        ensures
            self.ready ==> {
                &&& self.step(MessageView::PauseTask(id)).0.status_message == "正在暂停…"@
                &&& self.step(MessageView::StopTask(id)).0.status_message == "正在停止…"@
                &&& self.step(MessageView::DeleteTask(id, true)).0.status_message == "正在删除任务与文件…"@
                &&& self.step(MessageView::DeleteTask(id, false)).0.status_message == "正在移除任务…"@
            },
            !self.ready ==> {
                &&& self.step(MessageView::StartTask(id)) == (self, CommandView::Nothing)
                &&& self.step(MessageView::PauseTask(id)) == (self, CommandView::Nothing)
                &&& self.step(MessageView::StopTask(id)) == (self, CommandView::Nothing)
                &&& self.step(MessageView::DeleteTask(id, true)) == (self, CommandView::Nothing)
                &&& self.step(MessageView::DeleteTask(id, false)) == (self, CommandView::Nothing)
                &&& self.step(MessageView::TickTrigger) == (self, CommandView::Nothing)
            },
    {
    }
}

} // verus!
