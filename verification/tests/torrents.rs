//! BitTorrent downloads.

use rust_download::bt::{
    bt_extra_from_stats, build_add_torrent, is_bt_url, monitor_tick, needs_file_check,
    refreshes_dht, session_failed, session_plan, AddOutcome, BtEngine, BtRemoval, BtStart,
    LiveSnapshot, SessionStep, TorrentSnapshot, TorrentSource, TorrentState,
};
use rust_download::config::AppConfig;
use rust_download::engine::DownloadEvent;
use rust_download::paths::{MachinePath, Platform};
use rust_download::registry::Registry;
use rust_download::task::{BtProgressExtra, TaskStatus};

fn shown(event: &DownloadEvent) -> String {
    format!("{:?}", event)
}

fn snapshot() -> TorrentSnapshot {
    TorrentSnapshot {
        state: TorrentState::Live,
        total_bytes: 1000,
        progress_bytes: 400,
        uploaded_bytes: 7,
        finished: false,
        live: Some(LiveSnapshot {
            pieces_checked: 11,
            peer_queued: 1,
            peer_connecting: 2,
            peer_live: 3,
            peer_seen: 4,
            peer_dead: 5,
            download_speed: 2048,
            upload_speed_bits: 1.5f64.to_bits(),
            time_remaining: Some("5m".to_string()),
        }),
    }
}

#[test]
fn links_for_torrents() {
    for url in ["magnet:?xt=urn:btih:1", "x btih: y", "http://h/a.torrent", "/tmp/a.torrent"] {
        assert!(is_bt_url(url, false, Platform::Linux));
        assert!(is_bt_url(url, true, Platform::Linux));
        assert!(!needs_file_check(url, Platform::Linux));
    }
    for url in ["http://h/a.zip", "", "MAGNET:?", "a.torrents", "http://h/a.torrent?x"] {
        assert!(!is_bt_url(url, false, Platform::Linux));
        assert!(!is_bt_url(url, true, Platform::Linux));
        assert!(!needs_file_check(url, Platform::Linux));
    }
}

#[test]
fn torrent_files_by_extension() {
    for url in ["/tmp/a.TORRENT", "/tmp/a.Torrent", "/tmp/a.torrent/"] {
        assert!(needs_file_check(url, Platform::Linux));
        assert!(is_bt_url(url, true, Platform::Linux));
        assert!(!is_bt_url(url, false, Platform::Linux));
        assert_eq!(build_add_torrent(url, true), TorrentSource::File);
    }
    assert!(!is_bt_url("/tmp/.TORRENT", true, Platform::Linux));
    assert!(is_bt_url("C:\\.TORRENT", true, Platform::Linux));
    assert!(!is_bt_url("C:\\.TORRENT", true, Platform::Windows));
    assert!(is_bt_url("C:\\a.TORRENT", true, Platform::Windows));
}

#[test]
fn where_torrents_come_from() {
    assert_eq!(build_add_torrent("magnet:?x", true), TorrentSource::Link);
    assert_eq!(build_add_torrent("http://h/a.torrent", true), TorrentSource::Link);
    assert_eq!(build_add_torrent("https://h/a.torrent", true), TorrentSource::Link);
    assert_eq!(build_add_torrent("/tmp/a.torrent", true), TorrentSource::File);
    assert_eq!(build_add_torrent("/tmp/a.torrent", false), TorrentSource::Link);
    assert_eq!(build_add_torrent("http://h/a.zip", true), TorrentSource::File);
}

#[test]
fn states_have_names() {
    assert_eq!(TorrentState::Initializing.label(), "初始化 / 解析元数据");
    assert_eq!(TorrentState::Live.label(), "传输中");
    assert_eq!(TorrentState::Paused.label(), "已暂停");
    assert_eq!(TorrentState::Error.label(), "错误");
}

#[test]
fn details_of_a_live_torrent() {
    let extra = bt_extra_from_stats(&snapshot());
    assert_eq!(extra.uploaded, 7);
    assert_eq!(extra.state_label, "传输中");
    assert_eq!(extra.pieces_checked, 11);
    let peers = (extra.peer_queued, extra.peer_connecting, extra.peer_live);
    assert_eq!(peers, (1, 2, 3));
    assert_eq!((extra.peer_seen, extra.peer_dead), (4, 5));
    assert_eq!(f64::from_bits(extra.upload_speed_bits), 1.5);
    assert_eq!(extra.eta_label, Some("5m".to_string()));
}

#[test]
fn details_of_a_resting_torrent() {
    let mut stats = snapshot();
    stats.state = TorrentState::Paused;
    stats.live = None;
    let extra = bt_extra_from_stats(&stats);
    let mut expected = BtProgressExtra::default();
    expected.uploaded = 7;
    expected.state_label = "已暂停".to_string();
    assert_eq!(format!("{:?}", extra), format!("{:?}", expected));
    assert_eq!(f64::from_bits(extra.upload_speed_bits), 0.0);
}

#[test]
fn reports_of_a_monitor() {
    let stats = snapshot();
    let (events, done) = monitor_tick("id", &stats, Some("name".to_string()));
    assert!(!done);
    assert_eq!(events.len(), 2);
    let metadata = DownloadEvent::MetadataReady {
        task_id: "id".to_string(),
        total_size: Some(1000),
        supports_range: false,
        filename: "name".to_string(),
    };
    assert_eq!(shown(&events[0]), shown(&metadata));
    let progress = DownloadEvent::Progress {
        task_id: "id".to_string(),
        downloaded: 400,
        speed: 2048,
        connections: 3,
        bt_extra: Some(bt_extra_from_stats(&stats)),
    };
    assert_eq!(shown(&events[1]), shown(&progress));
}

#[test]
fn reports_without_a_size_or_a_name() {
    let mut stats = snapshot();
    stats.total_bytes = 0;
    stats.live = None;
    let (events, _) = monitor_tick("id", &stats, None);
    assert_eq!(events.len(), 1);
    let progress = DownloadEvent::Progress {
        task_id: "id".to_string(),
        downloaded: 400,
        speed: 0,
        connections: 0,
        bt_extra: Some(bt_extra_from_stats(&stats)),
    };
    assert_eq!(shown(&events[0]), shown(&progress));
    let (named, _) = monitor_tick("id", &snapshot(), None);
    assert!(shown(&named[0]).contains("BT 下载"));
}

#[test]
fn the_end_of_a_torrent() {
    let mut stats = snapshot();
    stats.finished = true;
    let (events, done) = monitor_tick("id", &stats, None);
    assert!(done);
    let completed = DownloadEvent::Completed { task_id: "id".to_string() };
    assert_eq!(shown(events.last().unwrap()), shown(&completed));
}

#[test]
fn sessions() {
    let plan = session_plan(6881, true);
    assert!(!plan.disable_dht && !plan.disable_dht_persistence && plan.persistent_dht);
    assert_eq!((plan.port_from, plan.port_to), (6881, 6981));
    let bare = session_plan(6881, false);
    assert!(bare.disable_dht && bare.disable_dht_persistence && !bare.persistent_dht);
    match session_failed(&plan, false, "busy".to_string()) {
        SessionStep::Retry(next) => assert_eq!(next, bare),
        SessionStep::GiveUp(_) => panic!("no retry"),
    }
    match session_failed(&bare, true, "busy".to_string()) {
        SessionStep::GiveUp(reason) => {
            assert_eq!(reason, "Failed to create BT session even without DHT")
        }
        SessionStep::Retry(_) => panic!("a second retry"),
    }
    match session_failed(&bare, false, "busy".to_string()) {
        SessionStep::GiveUp(reason) => assert_eq!(reason, "busy"),
        SessionStep::Retry(_) => panic!("a retry without DHT"),
    }
}

#[test]
fn when_the_routing_table_is_dropped() {
    let dir = Some(MachinePath::Text("/d".to_string()));
    let mut config = AppConfig::with_dirs(dir, None);
    assert!(!refreshes_dht(&config));
    config.dht_refresh_on_startup = true;
    assert!(refreshes_dht(&config));
    config.bt_dht_enabled = false;
    assert!(refreshes_dht(&config));
    config.dht_refresh_on_startup = false;
    assert!(!refreshes_dht(&config));
}

#[test]
fn the_line_of_the_dht() {
    assert_eq!(BtEngine::dht_status_line(None), None);
    let line = BtEngine::dht_status_line(Some((120, 3)));
    assert_eq!(line, Some("DHT 路由 120 节点 · 待响应 3".to_string()));
}

#[test]
fn a_torrent_is_added_once_and_then_goes_on() {
    let mut engine = BtEngine::new();
    assert_eq!(engine.start_or_resume("id"), BtStart::Add);
    assert_eq!(engine.pause("id"), None);
    let event = engine.added("id", AddOutcome::Added(5), 9).unwrap();
    let downloading = DownloadEvent::StatusChanged {
        task_id: "id".to_string(),
        status: TaskStatus::Downloading,
    };
    assert_eq!(shown(&event), shown(&downloading));
    assert_eq!(shown(&engine.resumed("id")), shown(&downloading));
    assert_eq!(engine.start_or_resume("id"), BtStart::Resume(5));
    assert_eq!(engine.start_or_resume("other"), BtStart::Add);
    assert_eq!(engine.pause("id"), Some(5));
    assert_eq!(engine.remove("id"), BtRemoval { monitor: Some(9), handle: Some(5) });
    assert_eq!(engine.remove("id"), BtRemoval { monitor: None, handle: None });
    assert_eq!(engine.start_or_resume("id"), BtStart::Add);
}

#[test]
fn a_torrent_that_cannot_be_added() {
    let mut engine = BtEngine::new();
    let repeated = engine.added("id", AddOutcome::NoHandle, 1);
    assert_eq!(repeated.err(), Some("种子重复或无法添加".to_string()));
    let failed = engine.added("id", AddOutcome::Failed, 1);
    assert_eq!(failed.err(), Some("Failed to add torrent".to_string()));
    assert_eq!(engine.start_or_resume("id"), BtStart::Add);
}

#[test]
fn tables_of_numbers() {
    let mut table = Registry::new();
    assert_eq!(table.get("a"), None);
    table.insert("a", 1);
    table.insert("b", 2);
    table.insert("a", 3);
    assert_eq!(table.get("a"), Some(3));
    assert_eq!(table.get("b"), Some(2));
    assert_eq!(table.remove("a"), Some(3));
    assert_eq!(table.remove("a"), None);
    assert_eq!(table.get("b"), Some(2));
}
