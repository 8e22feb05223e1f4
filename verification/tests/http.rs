//! Downloads over HTTP.

use rust_download::engine::{
    known_bytes, parts_dir, ChunkedDownload, ChunkedPhase, DownloadEvent, DownloadMode,
    HttpDownloader, SinglePhase,
};
use rust_download::paths::Place;
use rust_download::task::{ChunkInfo, DownloadTask, TaskStatus};

fn dir() -> Place {
    Place::of_text("/d".to_string())
}

fn task() -> DownloadTask {
    let url = "https://h/file.zip".to_string();
    DownloadTask::new_http(url, "file.zip".to_string(), dir())
}

fn running(total: u64) -> ChunkedDownload {
    let mut download = HttpDownloader::new(8, 1000).download_chunked("id", total, &vec![]);
    download.started();
    download
}

fn shown(event: &DownloadEvent) -> String {
    format!("{:?}", event)
}

#[test]
fn plans() {
    let downloader = HttpDownloader::new(8, 1024);
    let task = task();
    let plan = downloader.download(&task, (Some(5000), true, "real.zip".to_string()));
    assert_eq!(plan.save_path, dir().join("real.zip"));
    assert_eq!(plan.mode, DownloadMode::Chunked(5000));
    let metadata = DownloadEvent::MetadataReady {
        task_id: task.id.clone(),
        total_size: Some(5000),
        supports_range: true,
        filename: "real.zip".to_string(),
    };
    assert_eq!(shown(&plan.metadata), shown(&metadata));
    let unsized_plan = downloader.download(&task, (None, true, "x".to_string()));
    assert_eq!(unsized_plan.mode, DownloadMode::Single);
    let unranged = downloader.download(&task, (Some(5000), false, "x".to_string()));
    assert_eq!(unranged.mode, DownloadMode::Single);
    let empty = downloader.download(&task, (Some(0), true, "x".to_string()));
    assert_eq!(empty.mode, DownloadMode::Chunked(0));
    assert_eq!(
        parts_dir(&plan.save_path),
        dir().join("real.zip").with_extension("rdl_parts")
    );
}

#[test]
fn a_new_download_in_chunks() {
    let downloader = HttpDownloader::new(8, 1000);
    let mut download = downloader.download_chunked("id", 2500, &vec![]);
    assert_eq!(download.connections, 3);
    assert_eq!(download.queue.len(), 3);
    assert_eq!((download.downloaded, download.sampled), (0, 0));
    assert!(download.in_flight.is_empty() && !download.cancelled);
    let many = downloader.download_chunked("id", 100_000, &vec![]);
    assert_eq!(many.connections, 8);
    let begun = DownloadEvent::StatusChanged {
        task_id: "id".to_string(),
        status: TaskStatus::Downloading,
    };
    assert_eq!(shown(&download.started()), shown(&begun));
}

#[test]
fn a_resumed_download_in_chunks() {
    let chunk = |index: usize, downloaded: u64, completed: bool| ChunkInfo {
        index,
        start: index as u64 * 100,
        end: index as u64 * 100 + 100,
        downloaded,
        completed,
    };
    let known = vec![chunk(0, 100, true), chunk(1, 40, false), chunk(2, 0, false)];
    let download = HttpDownloader::new(2, 1000).download_chunked("id", 300, &known);
    assert_eq!(download.connections, 2);
    assert_eq!(download.downloaded, 140);
    assert_eq!(download.sampled, 140);
    assert_eq!(download.queue, vec![known[1], known[2]]);
    assert_eq!(known_bytes(&known), Some(140));
    assert_eq!(known_bytes(&vec![chunk(0, u64::MAX, false), chunk(1, 1, false)]), None);
}

#[test]
fn chunks_are_taken_from_the_last_to_the_first() {
    let mut download = running(3500);
    let mut taken: Vec<usize> = Vec::new();
    while let Some(chunk) = download.next_chunk(false) {
        taken.push(chunk.index);
        assert_eq!(download.in_flight, vec![chunk.index]);
        let event = download.finish_chunk(chunk.index, Ok(()));
        let done = DownloadEvent::ChunkCompleted {
            task_id: "id".to_string(),
            chunk_index: chunk.index,
        };
        assert_eq!(shown(&event), shown(&done));
    }
    assert_eq!(taken, vec![3, 2, 1, 0]);
    assert!(download.in_flight.is_empty());
    assert!(download.next_chunk(false).is_none());
}

#[test]
fn a_cancelled_worker_drops_its_chunk() {
    let mut download = running(2000);
    assert!(download.next_chunk(true).is_none());
    assert_eq!(download.queue.len(), 1);
    assert!(download.in_flight.is_empty());
}

#[test]
fn a_failed_chunk_is_reported() {
    let mut download = running(13_000);
    let taken = download.next_chunk(false).unwrap();
    let event = download.finish_chunk(taken.index, Err("no route".to_string()));
    let failed = DownloadEvent::Error {
        task_id: "id".to_string(),
        message: "Chunk 12 failed: no route".to_string(),
    };
    assert_eq!(shown(&event), shown(&failed));
    assert!(download.in_flight.is_empty());
}

#[test]
fn rates_are_taken_four_times_a_second() {
    let mut download = running(2000);
    download.record(100);
    download.record(25);
    let progress = |downloaded: u64, speed: u64| DownloadEvent::Progress {
        task_id: "id".to_string(),
        downloaded,
        speed,
        connections: 0,
        bt_extra: None,
    };
    assert_eq!(shown(&download.sample()), shown(&progress(125, 500)));
    assert_eq!(shown(&download.sample()), shown(&progress(125, 0)));
    download.record(u64::MAX - 125);
    assert_eq!(shown(&download.sample()), shown(&progress(u64::MAX, u64::MAX)));
}

#[test]
fn connections_are_counted() {
    let mut download = HttpDownloader::new(2, 1000).download_chunked("id", 5000, &vec![]);
    download.started();
    assert_eq!(download.connections, 2);
    let first = download.next_chunk(false).unwrap();
    assert!(download.in_flight.len() < download.connections);
    download.next_chunk(false).unwrap();
    assert_eq!(download.in_flight.len(), download.connections);
    assert!(shown(&download.sample()).contains("connections: 2"));
    download.finish_chunk(first.index, Ok(()));
    assert!(shown(&download.sample()).contains("connections: 1"));
}

#[test]
fn reports_come_in_order() {
    let mut download = HttpDownloader::new(1, 1000).download_chunked("id", 2000, &vec![]);
    let mut reports = vec![download.started()];
    while let Some(chunk) = download.next_chunk(false) {
        download.record(1000);
        reports.push(download.sample());
        reports.push(download.finish_chunk(chunk.index, Ok(())));
    }
    assert_eq!(download.next_chunk(false), None);
    reports.push(download.workers_done(false).unwrap());
    reports.push(download.merged());
    let names: Vec<String> =
        reports.iter().map(|r| shown(r).split(' ').next().unwrap().to_string()).collect();
    assert_eq!(
        names,
        vec![
            "StatusChanged",
            "Progress",
            "ChunkCompleted",
            "Progress",
            "ChunkCompleted",
            "StatusChanged",
            "Completed",
        ]
    );
    assert!(shown(&reports[0]).contains("Downloading"));
    assert!(shown(&reports[5]).contains("Merging"));
    assert_eq!(download.phase, ChunkedPhase::Ended);
}

#[test]
fn each_chunk_is_told_once() {
    let mut download = HttpDownloader::new(3, 1000).download_chunked("id", 7000, &vec![]);
    download.started();
    let mut told: Vec<String> = Vec::new();
    let mut flying: Vec<usize> = Vec::new();
    loop {
        while download.in_flight.len() < 3 {
            match download.next_chunk(false) {
                Some(chunk) => flying.push(chunk.index),
                None => break,
            }
        }
        if flying.is_empty() {
            break;
        }
        let index = flying.remove(0);
        let outcome = if index % 2 == 0 { Ok(()) } else { Err("e".to_string()) };
        told.push(shown(&download.finish_chunk(index, outcome)));
    }
    assert!(download.workers_done(false).is_some());
    assert_eq!(told.len(), 7);
    for index in 0..7 {
        let done = format!("chunk_index: {} ", index);
        let failed = format!("Chunk {} failed: e", index);
        assert_eq!(told.iter().filter(|t| t.contains(&done) || t.contains(&failed)).count(), 1);
    }
}

#[test]
fn without_connections_nothing_is_fetched() {
    let mut download = HttpDownloader::new(0, 1000).download_chunked("id", 2000, &vec![]);
    download.started();
    assert_eq!(download.connections, 0);
    assert!(download.workers_done(false).is_some());
    assert_eq!(download.queue.len(), 2);
}

#[test]
fn the_end_of_a_download_in_chunks() {
    let mut cancelled = running(2000);
    assert!(cancelled.workers_done(true).is_none());
    assert_eq!(cancelled.phase, ChunkedPhase::Ended);
    let mut download = running(0);
    let merging = DownloadEvent::StatusChanged {
        task_id: "id".to_string(),
        status: TaskStatus::Merging,
    };
    assert_eq!(shown(&download.workers_done(false).unwrap()), shown(&merging));
    let completed = DownloadEvent::Completed { task_id: "id".to_string() };
    assert_eq!(shown(&download.merged()), shown(&completed));
}

#[test]
fn a_download_in_one_piece() {
    let mut download = HttpDownloader::new(8, 1000).download_single("id");
    let begun = DownloadEvent::StatusChanged {
        task_id: "id".to_string(),
        status: TaskStatus::Downloading,
    };
    assert_eq!(shown(&download.started()), shown(&begun));
    assert_eq!(download.record(10, 0), None);
    assert_eq!(download.record(20, 499), None);
    assert_eq!(download.record(30, 500), Some(60));
    assert_eq!(download.phase, SinglePhase::Due);
    download.progress(120);
    assert_eq!(download.record(5, 1000), Some(5));
    assert_eq!((download.downloaded, download.reported), (65, 65));
    let progress = DownloadEvent::Progress {
        task_id: "id".to_string(),
        downloaded: 65,
        speed: 130,
        connections: 1,
        bt_extra: None,
    };
    assert_eq!(shown(&download.progress(130)), shown(&progress));
    let completed = DownloadEvent::Completed { task_id: "id".to_string() };
    assert_eq!(shown(&download.finished()), shown(&completed));
}

#[test]
fn a_copied_event_is_the_same() {
    for event in [
        DownloadEvent::Completed { task_id: "id".to_string() },
        DownloadEvent::Error { task_id: "id".to_string(), message: "m".to_string() },
        DownloadEvent::ChunkCompleted { task_id: "id".to_string(), chunk_index: 4 },
    ] {
        assert_eq!(shown(&event.clone()), shown(&event));
    }
}
