//! Tasks and what is done with them.

use rust_download::config::AppConfig;
use rust_download::engine::DownloadEvent;
use rust_download::manager::{DownloadManager, StartAction, TransferAction, EVENTS_PER_TICK};
use rust_download::paths::{MachinePath, Place, Platform};
use rust_download::task::{
    BtProgressExtra, ChunkInfo, DownloadTask, TaskStatus, TaskType, Timestamp,
};

fn config() -> AppConfig {
    AppConfig::with_dirs(Some(MachinePath::Text("/dl".to_string())), None)
}

fn manager(bt_available: bool) -> DownloadManager {
    DownloadManager::new(config(), bt_available, vec![])
}

fn stored(id: &str, task_type: TaskType, status: TaskStatus) -> DownloadTask {
    let mut task = DownloadTask::fresh(
        id.to_string(),
        Timestamp { secs: 10, nanos: 20 },
        format!("https://h/{}", id),
        format!("{}.bin", id),
        dir("/dl"),
        task_type,
    );
    task.status = status;
    task.speed = 77;
    task
}

fn with_tasks(tasks: Vec<DownloadTask>) -> DownloadManager {
    DownloadManager::new(config(), true, tasks)
}

fn shown(task: &DownloadTask) -> String {
    format!("{:?}", task)
}

fn dir(s: &str) -> Place {
    Place::of_text(s.to_string())
}

fn text(s: &str) -> String {
    s.to_string()
}

#[test]
fn new_tasks_are_queued() {
    let task = DownloadTask::new_http(text("u"), text("f"), dir("/d"));
    assert_eq!((task.url.as_str(), task.filename.as_str()), ("u", "f"));
    assert_eq!(task.save_path, dir("/d"));
    assert_eq!(task.task_type, TaskType::Http);
    assert_eq!(task.status, TaskStatus::Queued);
    assert_eq!((task.total_size, task.downloaded, task.speed), (None, 0, 0));
    assert!(task.chunks.is_empty() && !task.supports_range && task.connections == 0);
    assert!(task.error_message.is_none() && task.bt_extra.is_none());
    let torrent = DownloadTask::new_bt(text("magnet:x"), dir("/d"));
    assert_eq!(torrent.filename, "BT Download");
    assert_eq!(torrent.task_type, TaskType::BitTorrent);
}

#[test]
fn ids_are_random_uuids() {
    let a = DownloadTask::new_http(text("u"), text("f"), dir("/d")).id;
    let b = DownloadTask::new_http(text("u"), text("f"), dir("/d")).id;
    assert_ne!(a, b);
    for id in [a, b] {
        assert_eq!(id.len(), 36);
        for (i, c) in id.chars().enumerate() {
            if [8, 13, 18, 23].contains(&i) {
                assert_eq!(c, '-');
            } else {
                assert!(matches!(c, '0'..='9' | 'a'..='f'));
            }
        }
        assert_eq!(id.chars().nth(14), Some('4'));
        assert!(matches!(id.chars().nth(19), Some('8' | '9' | 'a' | 'b')));
    }
}

#[test]
fn times_of_addition_are_now() {
    let before = chrono::Utc::now().timestamp();
    let at = DownloadTask::new_http(text("u"), text("f"), dir("/d")).created_at;
    let after = chrono::Utc::now().timestamp();
    assert!(before <= at.secs && at.secs <= after);
    assert!(at.nanos < 1_000_000_000);
}

#[test]
fn progress_is_a_fraction() {
    let mut task = stored("a", TaskType::Http, TaskStatus::Queued);
    assert_eq!(task.progress(), None);
    task.total_size = Some(0);
    assert_eq!(task.progress(), None);
    task.total_size = Some(200);
    task.downloaded = 50;
    assert_eq!(task.progress(), Some((50, 200)));
}

#[test]
fn names_of_states_and_types() {
    let labels = [
        (TaskStatus::Queued, "排队中"),
        (TaskStatus::Downloading, "下载中"),
        (TaskStatus::Paused, "已暂停"),
        (TaskStatus::Stopped, "已停止"),
        (TaskStatus::Completed, "已完成"),
        (TaskStatus::Failed, "失败"),
        (TaskStatus::Merging, "合并中"),
    ];
    for (status, label) in labels {
        assert_eq!(status.label(), label);
    }
    assert_eq!(TaskType::Http.label(), "HTTP");
    assert_eq!(TaskType::BitTorrent.label(), "BT");
}

#[test]
fn a_copied_task_is_the_same() {
    let mut task = stored("a", TaskType::BitTorrent, TaskStatus::Merging);
    task.error_message = Some(text("e"));
    task.bt_extra = Some(BtProgressExtra::default());
    task.chunks.push(ChunkInfo { index: 0, start: 1, end: 2, downloaded: 3, completed: true });
    assert_eq!(shown(&task.clone()), shown(&task));
}

#[test]
fn links_are_added() {
    let mut m = manager(true);
    let id = m.add_task(text("https://h/dir/file.zip?x=1"), false, Platform::Linux);
    let task = m.tasks.last().unwrap();
    assert_eq!(task.id, id);
    assert_eq!(task.filename, "file.zip?x=1");
    assert_eq!(task.task_type, TaskType::Http);
    assert_eq!(task.save_path, dir("/dl"));
    let bt = m.add_task(text("magnet:?xt=1"), false, Platform::Linux);
    assert_eq!(m.tasks.len(), 2);
    assert_eq!(m.tasks[1].id, bt);
    assert_eq!(m.tasks[1].task_type, TaskType::BitTorrent);
    m.add_task(text("https://h/dir/"), false, Platform::Linux);
    assert_eq!(m.tasks[2].filename, "");
    m.add_task(text("/x/a.TORRENT"), true, Platform::Linux);
    assert_eq!(m.tasks[3].task_type, TaskType::BitTorrent);
    m.add_task(text("/x/a.TORRENT"), false, Platform::Linux);
    assert_eq!(m.tasks[4].task_type, TaskType::Http);
    assert_eq!(m.tasks[4].filename, "a.TORRENT");
}

#[test]
fn stored_tasks_come_back_at_rest() {
    let tasks = vec![
        stored("a", TaskType::Http, TaskStatus::Downloading),
        stored("b", TaskType::Http, TaskStatus::Merging),
        stored("c", TaskType::Http, TaskStatus::Completed),
    ];
    let once = DownloadManager::load_tasks(tasks);
    assert_eq!((once[0].status, once[0].speed), (TaskStatus::Paused, 0));
    assert_eq!((once[1].status, once[1].speed), (TaskStatus::Merging, 77));
    assert_eq!((once[2].status, once[2].speed), (TaskStatus::Completed, 77));
    let lines: Vec<String> = once.iter().map(shown).collect();
    let twice = DownloadManager::load_tasks(once);
    assert_eq!(twice.iter().map(shown).collect::<Vec<String>>(), lines);
}

#[test]
fn a_manager_takes_its_limits_from_the_settings() {
    let m = manager(false);
    assert_eq!(m.http_downloader.max_connections, 8);
    assert_eq!(m.http_downloader.chunk_size, 2 * 1024 * 1024);
    assert!(!m.bt_available && m.tasks.is_empty());
}

#[test]
fn starting_over_http() {
    let mut m = with_tasks(vec![stored("a", TaskType::Http, TaskStatus::Paused)]);
    match m.start_task("a", 5) {
        Ok(StartAction::Http(task)) => {
            assert_eq!((task.id.as_str(), task.status), ("a", TaskStatus::Paused))
        }
        _ => panic!("not started"),
    }
    assert_eq!(m.tasks[0].status, TaskStatus::Downloading);
    assert_eq!(m.cancel_tokens.get("a"), Some(5));
    assert!(matches!(m.start_task("a", 6), Ok(StartAction::Nothing)));
    assert_eq!(m.cancel_tokens.get("a"), Some(5));
}

#[test]
fn starting_a_torrent() {
    let mut m = with_tasks(vec![stored("a", TaskType::BitTorrent, TaskStatus::Completed)]);
    match m.start_task("a", 5) {
        Ok(StartAction::BitTorrent(url)) => assert_eq!(url, "https://h/a"),
        _ => panic!("not started"),
    }
    assert_eq!(m.tasks[0].status, TaskStatus::Downloading);
    assert_eq!(m.cancel_tokens.get("a"), None);
}

#[test]
fn refused_starts_change_nothing() {
    let mut m = manager(false);
    let missing = m.start_task("x", 1).err().unwrap();
    assert_eq!(missing.message(), "Task not found: x");
    let id = m.add_task(text("magnet:?x"), false, Platform::Linux);
    let line = shown(&m.tasks[0]);
    let refused = m.start_task(&id, 1).err().unwrap();
    assert_eq!(refused.message(), "BT engine not available");
    assert_eq!(shown(&m.tasks[0]), line);
    assert_eq!(m.cancel_tokens.get(&id), None);
}

#[test]
fn pausing_and_stopping() {
    for stop in [false, true] {
        let mut m = with_tasks(vec![stored("a", TaskType::Http, TaskStatus::Queued)]);
        assert!(m.start_task("a", 5).is_ok());
        assert_eq!(m.begin_halt("a").ok(), Some(TransferAction::Cancel(5)));
        assert_eq!(m.begin_halt("a").ok(), Some(TransferAction::Nothing));
        assert_eq!(m.tasks[0].status, TaskStatus::Downloading);
        let outcome = if stop {
            m.stop_task("a", Ok(()))
        } else {
            m.pause_task("a", Ok(()))
        };
        assert!(outcome.is_ok());
        let rest = if stop { TaskStatus::Stopped } else { TaskStatus::Paused };
        assert_eq!((m.tasks[0].status, m.tasks[0].speed), (rest, 0));
        assert!(matches!(m.start_task("a", 6), Ok(StartAction::Http(_))));
        assert_eq!(m.begin_halt("a").ok(), Some(TransferAction::Cancel(6)));
    }
}

#[test]
fn halting_torrents() {
    let mut m = with_tasks(vec![stored("a", TaskType::BitTorrent, TaskStatus::Queued)]);
    assert_eq!(m.begin_halt("a").ok(), Some(TransferAction::Engine));
    let failed = m.pause_task("a", Err(text("engine down"))).err().unwrap();
    assert_eq!(failed.message(), "engine down");
    assert_eq!(m.tasks[0].status, TaskStatus::Queued);
    let stop_failed = m.stop_task("a", Err(text("engine down"))).err().unwrap();
    assert_eq!(stop_failed.message(), "engine down");
    let mut without = DownloadManager::new(
        config(),
        false,
        vec![stored("a", TaskType::BitTorrent, TaskStatus::Queued)],
    );
    assert_eq!(without.begin_halt("a").ok(), Some(TransferAction::Nothing));
}

#[test]
fn halting_what_is_not_there() {
    let mut m = manager(true);
    assert_eq!(m.begin_halt("x").err().unwrap().message(), "Task not found: x");
    assert!(m.pause_task("x", Ok(())).is_ok());
    assert!(m.stop_task("x", Ok(())).is_ok());
}

#[test]
fn removing_tasks() {
    let mut m = with_tasks(vec![
        stored("a", TaskType::Http, TaskStatus::Queued),
        stored("b", TaskType::Http, TaskStatus::Queued),
        stored("c", TaskType::BitTorrent, TaskStatus::Queued),
    ]);
    assert!(m.start_task("b", 9).is_ok());
    assert_eq!(m.begin_remove("b"), Some(TransferAction::Cancel(9)));
    let files = m.remove_task("b", true, Ok(())).unwrap().unwrap();
    assert_eq!(files.file, dir("/dl").join("b.bin"));
    assert_eq!(files.parts, dir("/dl").join("b.bin").with_extension("rdl_parts"));
    assert_eq!(m.tasks.iter().map(|t| t.id.clone()).collect::<Vec<String>>(), vec!["a", "c"]);
    assert_eq!(m.cancel_tokens.get("b"), None);
    assert_eq!(m.begin_remove("b"), None);
    assert!(m.remove_task("a", false, Ok(())).unwrap().is_none());
    assert_eq!(m.begin_remove("c"), Some(TransferAction::Engine));
    let failed = m.remove_task("c", true, Err(text("busy"))).err().unwrap();
    assert_eq!(failed.message(), "busy");
    assert_eq!(m.tasks.len(), 1);
    assert!(m.remove_task("gone", true, Ok(())).unwrap().is_none());
}

#[test]
fn reports_change_their_task() {
    let mut m = with_tasks(vec![
        stored("a", TaskType::Http, TaskStatus::Paused),
        stored("b", TaskType::Http, TaskStatus::Paused),
    ]);
    let other = shown(&m.tasks[0]);
    m.tasks[1].chunks.push(ChunkInfo { index: 0, start: 0, end: 9, downloaded: 0, completed: false });
    m.handle_event(DownloadEvent::MetadataReady {
        task_id: text("b"),
        total_size: Some(9),
        supports_range: true,
        filename: text("name"),
    });
    m.handle_event(DownloadEvent::ChunkCompleted { task_id: text("b"), chunk_index: 0 });
    m.handle_event(DownloadEvent::ChunkCompleted { task_id: text("b"), chunk_index: 1 });
    m.handle_event(DownloadEvent::StatusChanged {
        task_id: text("b"),
        status: TaskStatus::Merging,
    });
    m.handle_event(DownloadEvent::Progress {
        task_id: text("b"),
        downloaded: 8,
        speed: 4,
        connections: 2,
        bt_extra: None,
    });
    let task = &m.tasks[1];
    assert_eq!((task.total_size, task.supports_range), (Some(9), true));
    assert_eq!((task.filename.as_str(), task.status), ("name", TaskStatus::Merging));
    assert_eq!((task.downloaded, task.speed, task.connections), (8, 4, 2));
    assert!(task.chunks[0].completed);
    m.handle_event(DownloadEvent::Completed { task_id: text("b") });
    assert_eq!((m.tasks[1].status, m.tasks[1].speed), (TaskStatus::Completed, 0));
    assert_eq!(shown(&m.tasks[0]), other);
}

#[test]
fn late_progress_moves_nothing() {
    let resting =
        [TaskStatus::Paused, TaskStatus::Stopped, TaskStatus::Completed, TaskStatus::Failed];
    for status in resting {
        let mut m = with_tasks(vec![stored("a", TaskType::BitTorrent, status)]);
        m.handle_event(DownloadEvent::Progress {
            task_id: text("a"),
            downloaded: 8,
            speed: 4,
            connections: 2,
            bt_extra: Some(BtProgressExtra::default()),
        });
        let task = &m.tasks[0];
        assert_eq!((task.downloaded, task.speed, task.connections), (0, 77, 0));
        assert!(task.bt_extra.is_some());
    }
    for status in [TaskStatus::Downloading, TaskStatus::Queued, TaskStatus::Merging] {
        let mut m = with_tasks(vec![stored("a", TaskType::Http, TaskStatus::Paused)]);
        m.tasks[0].status = status;
        m.tasks[0].bt_extra = Some(BtProgressExtra::default());
        m.handle_event(DownloadEvent::Progress {
            task_id: text("a"),
            downloaded: 8,
            speed: 4,
            connections: 2,
            bt_extra: None,
        });
        let task = &m.tasks[0];
        assert_eq!((task.downloaded, task.speed, task.connections), (8, 4, 2));
        assert!(task.bt_extra.is_some());
    }
}

#[test]
fn failures_are_kept() {
    let mut m = with_tasks(vec![stored("a", TaskType::Http, TaskStatus::Queued)]);
    m.handle_event(DownloadEvent::Error { task_id: text("a"), message: text("no route") });
    assert_eq!(m.tasks[0].status, TaskStatus::Failed);
    assert_eq!(m.tasks[0].error_message, Some(text("no route")));
}

#[test]
fn stray_reports_are_ignored() {
    let mut m = with_tasks(vec![stored("a", TaskType::Http, TaskStatus::Queued)]);
    let before = shown(&m.tasks[0]);
    m.handle_event(DownloadEvent::Completed { task_id: text("b") });
    assert_eq!(shown(&m.tasks[0]), before);
    assert_eq!(m.tasks.len(), 1);
}

#[test]
fn reports_about_different_tasks_commute() {
    let events = [
        DownloadEvent::Completed { task_id: text("a") },
        DownloadEvent::Error { task_id: text("b"), message: text("m") },
    ];
    let run = |order: [usize; 2]| {
        let mut m = with_tasks(vec![
            stored("a", TaskType::Http, TaskStatus::Queued),
            stored("b", TaskType::Http, TaskStatus::Queued),
        ]);
        for i in order {
            m.handle_event(events[i].clone());
        }
        m.tasks.iter().map(shown).collect::<Vec<String>>()
    };
    assert_eq!(run([0, 1]), run([1, 0]));
}

#[test]
fn a_repeated_report_counts_once() {
    let events = [
        DownloadEvent::Completed { task_id: text("a") },
        DownloadEvent::Error { task_id: text("a"), message: text("m") },
        DownloadEvent::Progress {
            task_id: text("a"),
            downloaded: 8,
            speed: 4,
            connections: 2,
            bt_extra: Some(BtProgressExtra::default()),
        },
        DownloadEvent::StatusChanged { task_id: text("a"), status: TaskStatus::Merging },
    ];
    for event in events {
        let mut m = with_tasks(vec![stored("a", TaskType::BitTorrent, TaskStatus::Queued)]);
        m.handle_event(event.clone());
        let once = shown(&m.tasks[0]);
        m.handle_event(event);
        assert_eq!(shown(&m.tasks[0]), once);
    }
}

#[test]
fn the_line_of_the_dht_needs_an_engine() {
    assert_eq!(manager(false).dht_status_line(Some((1, 2))), None);
    assert_eq!(manager(true).dht_status_line(None), None);
    assert_eq!(
        manager(true).dht_status_line(Some((1, 2))),
        Some(text("DHT 路由 1 节点 · 待响应 2"))
    );
}

#[test]
fn reports_are_taken_in_by_the_hundred() {
    let mut handled: usize = 0;
    while DownloadManager::takes_more(handled) {
        handled += 1;
    }
    assert_eq!(handled, 101);
    assert_eq!(EVENTS_PER_TICK, 101);
}
