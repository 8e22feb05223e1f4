//! The window.

use rust_download::paths::{MachinePath, Place};
use rust_download::screen::{build_actions, Layout, TaskAction, Tint};
use rust_download::task::{
    BtProgressExtra, DownloadTask, TaskStatus, TaskType, Timestamp,
};
use rust_download::ui::{App, Command, Message};

fn text(s: &str) -> String {
    s.to_string()
}

fn task(id: &str, status: TaskStatus) -> DownloadTask {
    let mut task = DownloadTask::fresh(
        text(id),
        Timestamp { secs: 0, nanos: 0 },
        format!("https://h/{}", id),
        format!("{}.bin", id),
        Place::of_text(format!("/dl/{}", id)),
        TaskType::Http,
    );
    task.status = status;
    task
}

fn ready() -> App {
    let mut app = App::bootstrapping();
    app.update(Message::AppReady(Ok(())));
    app
}

fn showing(tasks: Vec<DownloadTask>) -> App {
    let mut app = ready();
    app.update(Message::SyncTasks(tasks, None));
    app
}

fn done(command: &Command) -> String {
    format!("{:?}", command)
}

#[test]
fn before_the_manager_is_there() {
    let mut app = App::bootstrapping();
    assert_eq!(app.title(), "Rust Download Manager");
    assert_eq!(app.status_message, "正在初始化…");
    assert_eq!(app.subscription(), None);
    assert_eq!(app.view(), Layout::Starting);
    for message in [
        Message::TickTrigger,
        Message::StartTask(text("a")),
        Message::PauseTask(text("a")),
        Message::StopTask(text("a")),
        Message::DeleteTask(text("a"), true),
    ] {
        assert!(matches!(app.update(message), Command::Nothing));
        assert_eq!(app.status_message, "正在初始化…");
    }
    assert!(matches!(app.update(Message::TorrentPicked(Some(text("/t")))), Command::Nothing));
    assert_eq!(app.status_message, "尚未就绪");
    app.update(Message::UrlInputChanged(text("u")));
    assert!(matches!(app.update(Message::ConfirmAdd), Command::Nothing));
    assert_eq!(app.status_message, "尚未就绪，请稍候");
    app.update(Message::AppReady(Err(text("no disk"))));
    assert_eq!(app.status_message, "初始化失败: no disk");
    assert!(!app.ready);
    assert!(matches!(app.update(Message::AppReady(Ok(()))), Command::AttachManager));
    assert_eq!(app.status_message, "就绪");
    assert_eq!(app.subscription(), Some(120));
    assert_eq!(app.view(), Layout::Page);
}

#[test]
fn the_dialog() {
    let mut app = ready();
    app.update(Message::UrlInputChanged(text("old")));
    app.update(Message::AddPressed);
    assert!(app.show_add_dialog);
    assert_eq!(app.url_input, "");
    assert_eq!(app.view(), Layout::PageWithDialog);
    app.update(Message::UrlInputChanged(text(" \u{3000}https://h/x\n")));
    let command = app.update(Message::ConfirmAdd);
    assert_eq!(done(&command), done(&Command::AddAndStart(text("https://h/x"))));
    assert_eq!(app.status_message, "正在添加: https://h/x");
    assert!(!app.show_add_dialog);
    assert_eq!(app.url_input, "");
    app.update(Message::AddPressed);
    app.update(Message::UrlInputChanged(text("   ")));
    assert!(matches!(app.update(Message::ConfirmAdd), Command::Nothing));
    assert!(!app.show_add_dialog);
    app.update(Message::AddPressed);
    app.update(Message::UrlInputChanged(text("typed")));
    app.update(Message::CancelAdd);
    assert!(!app.show_add_dialog);
    assert_eq!(app.url_input, "");
}

#[test]
fn clicks_on_tasks() {
    let mut app = ready();
    let start = app.update(Message::StartTask(text("a")));
    assert_eq!(done(&start), done(&Command::Start(text("a"))));
    assert_eq!(app.status_message, "就绪");
    let pause = app.update(Message::PauseTask(text("a")));
    assert_eq!(done(&pause), done(&Command::Pause(text("a"))));
    assert_eq!(app.status_message, "正在暂停…");
    let stop = app.update(Message::StopTask(text("a")));
    assert_eq!(done(&stop), done(&Command::Stop(text("a"))));
    assert_eq!(app.status_message, "正在停止…");
    let sync = app.update(Message::TickTrigger);
    assert!(matches!(sync, Command::Sync));
    let pick = app.update(Message::PickTorrentFile);
    assert!(matches!(pick, Command::PickTorrent));
    assert!(matches!(app.update(Message::TorrentPicked(None)), Command::Nothing));
    let add = app.update(Message::TorrentPicked(Some(text("/t"))));
    assert_eq!(done(&add), done(&Command::AddAndStart(text("/t"))));
    assert_eq!(app.status_message, "正在添加种子: /t");
}

#[test]
fn removing_and_selecting() {
    let mut app = ready();
    app.update(Message::SelectTask(Some(text("a"))));
    let other = app.update(Message::DeleteTask(text("b"), false));
    assert_eq!(done(&other), done(&Command::Remove(text("b"), false)));
    assert_eq!(app.status_message, "正在移除任务…");
    assert_eq!(app.selected_task_id, Some(text("a")));
    let own = app.update(Message::DeleteTask(text("a"), true));
    assert_eq!(done(&own), done(&Command::Remove(text("a"), true)));
    assert_eq!(app.status_message, "正在删除任务与文件…");
    assert_eq!(app.selected_task_id, None);
    app.update(Message::SelectTask(Some(text("c"))));
    app.update(Message::SelectTask(None));
    assert_eq!(app.selected_task_id, None);
}

#[test]
fn outcomes() {
    let mut app = ready();
    app.update(Message::TaskActionDone(Ok(())));
    assert_eq!(app.status_message, "操作成功");
    app.update(Message::TaskActionDone(Err(text("Task not found: x"))));
    assert_eq!(app.status_message, "错误: Task not found: x");
}

#[test]
fn folders() {
    let mut app = ready();
    assert!(matches!(app.update(Message::OpenFolder), Command::OpenFolder(None)));
    app.update(Message::SyncTasks(
        vec![task("a", TaskStatus::Queued), task("b", TaskStatus::Queued)],
        Some(text("dht")),
    ));
    assert_eq!(app.dht_status, Some(text("dht")));
    let open = app.update(Message::OpenFolder);
    assert_eq!(done(&open), done(&Command::OpenFolder(Some(Place::of_text(text("/dl/a"))))));
}

#[test]
fn a_copied_message_is_the_same() {
    for message in [
        Message::SyncTasks(vec![task("a", TaskStatus::Queued)], Some(text("d"))),
        Message::DeleteTask(text("a"), true),
        Message::AppReady(Err(text("e"))),
        Message::TickTrigger,
    ] {
        assert_eq!(format!("{:?}", message.clone()), format!("{:?}", message));
    }
}

#[test]
fn buttons_of_each_state() {
    let of = |status: TaskStatus| build_actions(&task("a", status));
    let ends = [TaskAction::Remove, TaskAction::DeleteFiles];
    let with = |first: &[TaskAction]| [first, &ends].concat();
    assert_eq!(of(TaskStatus::Downloading), with(&[TaskAction::Pause, TaskAction::Stop]));
    assert_eq!(of(TaskStatus::Merging), with(&[TaskAction::Stop]));
    assert_eq!(of(TaskStatus::Completed), with(&[]));
    for status in
        [TaskStatus::Queued, TaskStatus::Paused, TaskStatus::Stopped, TaskStatus::Failed]
    {
        assert_eq!(of(status), with(&[TaskAction::Start]));
    }
}

#[test]
fn captions_and_messages_of_buttons() {
    let buttons = [
        (TaskAction::Pause, "暂停", Message::PauseTask(text("a"))),
        (TaskAction::Stop, "停止", Message::StopTask(text("a"))),
        (TaskAction::Start, "开始", Message::StartTask(text("a"))),
        (TaskAction::Remove, "移除", Message::DeleteTask(text("a"), false)),
        (TaskAction::DeleteFiles, "删文件", Message::DeleteTask(text("a"), true)),
    ];
    for (action, label, message) in buttons {
        assert_eq!(action.label(), label);
        assert_eq!(format!("{:?}", action.message("a")), format!("{:?}", message));
    }
}

#[test]
fn buttons_act_on_their_task() {
    let mut app = ready();
    let mut press = |action: TaskAction| done(&app.update(action.message("a")));
    assert_eq!(press(TaskAction::Pause), done(&Command::Pause(text("a"))));
    assert_eq!(press(TaskAction::Stop), done(&Command::Stop(text("a"))));
    assert_eq!(press(TaskAction::Start), done(&Command::Start(text("a"))));
    assert_eq!(press(TaskAction::Remove), done(&Command::Remove(text("a"), false)));
    assert_eq!(press(TaskAction::DeleteFiles), done(&Command::Remove(text("a"), true)));
}

#[test]
fn figures_of_the_toolbar() {
    let mut fast = task("a", TaskStatus::Downloading);
    fast.speed = 1024;
    let mut slow = task("b", TaskStatus::Downloading);
    slow.speed = 512;
    let mut paused = task("c", TaskStatus::Paused);
    paused.speed = 4096;
    let app = showing(vec![fast.clone(), slow, paused]);
    assert_eq!(app.total_speed(), Some(1536));
    let toolbar = app.view_toolbar();
    assert_eq!(toolbar.active, "进行中: 2");
    assert_eq!(toolbar.speed, "合计 1.50 KB/s");
    let mut huge = task("d", TaskStatus::Downloading);
    huge.speed = u64::MAX;
    assert_eq!(showing(vec![huge.clone()]).total_speed(), Some(u64::MAX));
    assert_eq!(showing(vec![huge, fast]).total_speed(), None);
}

#[test]
fn texts_of_the_status_bar() {
    let mut app = showing(vec![
        task("a", TaskStatus::Completed),
        task("b", TaskStatus::Failed),
        task("c", TaskStatus::Completed),
    ]);
    let bar = app.view_status_bar();
    assert_eq!(bar.message, "就绪");
    assert_eq!(bar.dht, None);
    assert_eq!(bar.counts, "任务: 2 / 3 已完成");
    app.update(Message::SyncTasks(vec![], Some(text("dht"))));
    assert_eq!(app.view_status_bar().dht, Some(text("dht")));
    assert_eq!(app.view_status_bar().counts, "任务: 0 / 0 已完成");
}

#[test]
fn rows_of_moving_tasks() {
    let mut t = task("a", TaskStatus::Downloading);
    t.filename = "x".repeat(40);
    t.total_size = Some(4096);
    t.downloaded = 1024;
    t.speed = 1024;
    let mut app = showing(vec![t]);
    app.update(Message::SelectTask(Some(text("a"))));
    let rows = app.view_task_list();
    assert_eq!(rows.len(), 1);
    let row = &rows[0];
    assert!(row.selected);
    assert_eq!(row.id, "a");
    assert_eq!(row.filename, format!("{}…", "x".repeat(34)));
    assert_eq!(row.size, "4.00 KB");
    assert_eq!(row.progress, Some((1024, 4096)));
    assert_eq!((row.speed.as_str(), row.speed_tint), ("1.00 KB/s", Tint::Speed));
    assert_eq!(row.eta, "00:03");
    assert_eq!((row.status_tint, row.bar_tint), (Tint::Accent, Tint::Accent));
}

#[test]
fn rows_of_resting_tasks() {
    let mut t = task("a", TaskStatus::Failed);
    t.speed = 1024;
    let app = showing(vec![t, task("b", TaskStatus::Merging)]);
    let rows = app.view_task_list();
    let row = &rows[0];
    assert!(!row.selected);
    assert_eq!((row.size.as_str(), row.eta.as_str()), ("—", "—"));
    assert_eq!((row.speed.as_str(), row.speed_tint), ("—", Tint::Secondary));
    assert_eq!(row.progress, None);
    assert_eq!((row.status_tint, row.bar_tint), (Tint::Red, Tint::Muted));
    assert_eq!(row.actions, build_actions(&task("x", TaskStatus::Failed)));
    assert_eq!(rows[1].eta, "—");
    assert_eq!(rows[1].speed, "0 B/s");
}

#[test]
fn colours_of_states() {
    let tints = [
        (TaskStatus::Queued, Tint::Muted),
        (TaskStatus::Downloading, Tint::Accent),
        (TaskStatus::Paused, Tint::Orange),
        (TaskStatus::Stopped, Tint::Muted),
        (TaskStatus::Completed, Tint::Green),
        (TaskStatus::Merging, Tint::Purple),
    ];
    for (status, tint) in tints {
        let row = ready().view_task_row(&task("a", status));
        assert_eq!((row.status_tint, row.bar_tint), (tint, tint));
        assert_eq!(row.status, status);
    }
}

fn lines(app: &App) -> Vec<Vec<(String, String)>> {
    let panel = app.view_detail_panel("25.0", "1.50", "written").unwrap();
    let cells = |line: &Vec<rust_download::screen::Cell>| {
        line.iter().map(|c| (text(c.label), c.text.clone())).collect()
    };
    panel.iter().map(cells).collect()
}

fn pair(label: &str, value: &str) -> (String, String) {
    (text(label), text(value))
}

#[test]
fn details_of_a_file() {
    let mut t = task("a", TaskStatus::Failed);
    t.url = "u".repeat(71);
    t.connections = 4;
    t.downloaded = 1024;
    t.speed = 2048;
    t.error_message = Some(text("no route"));
    let mut app = showing(vec![task("b", TaskStatus::Queued), t]);
    assert!(app.view_detail_panel("", "", "").is_none());
    app.update(Message::SelectTask(Some(text("x"))));
    assert!(app.view_detail_panel("", "", "").is_none());
    assert_eq!(app.selected_index(), None);
    app.update(Message::SelectTask(Some(text("a"))));
    assert_eq!(app.selected_index(), Some(1));
    assert_eq!(
        lines(&app),
        vec![
            vec![pair("文件:", "a.bin"), pair("类型:", "HTTP"), pair("连接:", "4")],
            vec![pair("路径:", "/dl/a")],
            vec![pair("进度:", "1.00 KB / 未知 (25.0%)"), pair("速度:", "2.00 KB/s")],
            vec![pair("地址:", &format!("{}…", "u".repeat(69)))],
            vec![pair("错误:", "no route")],
        ]
    );
}

#[test]
fn details_of_a_torrent() {
    let mut t = task("a", TaskStatus::Downloading);
    t.task_type = TaskType::BitTorrent;
    t.total_size = Some(4096);
    let mut app = showing(vec![t.clone()]);
    app.update(Message::SelectTask(Some(text("a"))));
    let waiting = lines(&app);
    assert_eq!(waiting.len(), 5);
    assert_eq!(waiting[2][0], pair("进度:", "0 B / 4.00 KB (25.0%)"));
    assert_eq!(waiting[4], vec![pair("BT:", "等待统计…")]);
    let mut extra = BtProgressExtra::default();
    extra.state_label = text("传输中");
    extra.uploaded = 1024;
    extra.peer_queued = 1;
    extra.peer_connecting = 2;
    extra.peer_live = 3;
    extra.peer_seen = 4;
    extra.peer_dead = 5;
    extra.pieces_checked = 6;
    t.bt_extra = Some(extra.clone());
    app.update(Message::SyncTasks(vec![t.clone()], None));
    let followed = lines(&app);
    assert_eq!(
        followed[4..].to_vec(),
        vec![
            vec![pair("BT:", "传输中 · 已上传 1.00 KB · 上传 1.50 MiB/s")],
            vec![pair("Peers:", "排队 1 · 握手中 2 · 活跃 3 · 累计 4 · 失效 5")],
            vec![pair("分块:", "已校验 6 片")],
        ]
    );
    extra.eta_label = Some(text("5m"));
    t.bt_extra = Some(extra);
    app.update(Message::SyncTasks(vec![t], None));
    assert_eq!(lines(&app)[7], vec![pair("剩余:", "5m")]);
}

#[test]
fn details_have_colours() {
    let mut t = task("a", TaskStatus::Failed);
    t.error_message = Some(text("e"));
    let mut app = showing(vec![t]);
    app.update(Message::SelectTask(Some(text("a"))));
    let panel = app.view_detail_panel("0.0", "0.00", "").unwrap();
    assert_eq!(panel[0][0].tint, Tint::Primary);
    assert_eq!(panel[1][0].tint, Tint::Secondary);
    assert_eq!(panel[2][1].tint, Tint::Speed);
    assert_eq!(panel[3][0].tint, Tint::Muted);
    assert_eq!(panel[4][0].tint, Tint::Red);
}

#[test]
fn paths_that_the_machine_writes() {
    let mut t = task("a", TaskStatus::Queued);
    for place in [
        Place::of_text(text("/h")).join("Downloads"),
        Place::at(MachinePath::Raw(vec![0x2f, 0xff])),
    ] {
        t.save_path = place;
        let mut app = showing(vec![t.clone()]);
        app.update(Message::SelectTask(Some(text("a"))));
        assert_eq!(lines(&app)[1], vec![pair("路径:", "written")]);
    }
}
