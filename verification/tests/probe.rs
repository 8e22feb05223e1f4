//! What a server's first answer tells.

use rust_download::engine::{head_suffices, probe_range, user_agent, HttpDownloader};
use rust_download::probe::{
    choose_filename, extract_filename, name_from_disposition, name_from_path, probe_ranges,
    probe_size, ProbeResponse,
};

fn answer(status: u16) -> ProbeResponse {
    ProbeResponse {
        status,
        content_range: None,
        content_length: None,
        accept_ranges: None,
        content_disposition: None,
    }
}

fn some(s: &str) -> Option<String> {
    Some(s.to_string())
}

#[test]
fn size_of_a_partial_answer() {
    let mut resp = answer(206);
    assert_eq!(probe_size(&resp), None);
    resp.content_length = some("1");
    assert_eq!(probe_size(&resp), None);
    resp.content_range = some("bytes 0-0/123456");
    assert_eq!(probe_size(&resp), Some(123456));
    resp.content_range = some("bytes 0-0/*");
    assert_eq!(probe_size(&resp), None);
    resp.content_range = some("77");
    assert_eq!(probe_size(&resp), Some(77));
}

#[test]
fn size_of_a_whole_answer() {
    let mut resp = answer(200);
    assert_eq!(probe_size(&resp), None);
    resp.content_range = some("bytes 0-0/123456");
    assert_eq!(probe_size(&resp), None);
    resp.content_length = some("4096");
    assert_eq!(probe_size(&resp), Some(4096));
    resp.content_length = some("4096 ");
    assert_eq!(probe_size(&resp), None);
}

#[test]
fn ranges_are_served() {
    let mut resp = answer(200);
    assert!(!probe_ranges(&resp));
    resp.accept_ranges = some("none");
    assert!(!probe_ranges(&resp));
    resp.accept_ranges = some("none, bytes");
    assert!(probe_ranges(&resp));
    assert!(probe_ranges(&answer(206)));
}

#[test]
fn names_in_headers() {
    assert_eq!(name_from_disposition("attachment; filename=\"a b.zip\""), some("a b.zip"));
    assert_eq!(name_from_disposition("attachment; filename=a.zip"), some("a.zip"));
    assert_eq!(name_from_disposition("attachment; filename='a.zip'"), some("a.zip"));
    assert_eq!(name_from_disposition("filename=\"'a'\""), some("a"));
    assert_eq!(name_from_disposition("filename='\"a\"'"), some("\"a\""));
    assert_eq!(name_from_disposition("filename=\"\""), None);
    assert_eq!(name_from_disposition("filename="), None);
    assert_eq!(name_from_disposition("attachment"), None);
    assert_eq!(name_from_disposition("filename=a; filename=b"), some("a; filename=b"));
}

#[test]
fn names_in_paths() {
    assert_eq!(name_from_path(&None), None);
    assert_eq!(name_from_path(&some("")), None);
    assert_eq!(name_from_path(&some("no/slash")), None);
    assert_eq!(name_from_path(&some("/")), None);
    assert_eq!(name_from_path(&some("/a/")), None);
    assert_eq!(name_from_path(&some("/%2F")), None);
    assert_eq!(name_from_path(&some("/a/b.zip")), some("b.zip"));
    assert_eq!(name_from_path(&some("/%E4%B8%8B%E8%BD%BD.zip")), some("下载.zip"));
    assert_eq!(name_from_path(&some("/a%20b+c")), some("a b+c"));
    assert_eq!(name_from_path(&some("/%zz%4%41%")), some("%zz%4A%"));
    assert_eq!(name_from_path(&some("/%ff")), some("%ff"));
}

#[test]
fn unescaped_names_stay() {
    for name in ["a", "file.tar.gz", "下载", "a+b c"] {
        assert_eq!(name_from_path(&Some(format!("/{}", name))), some(name));
    }
}

#[test]
fn names_of_downloads() {
    assert_eq!(extract_filename(&None, "https://example.com/dir/file.zip?x=1#y"), "file.zip");
    assert_eq!(extract_filename(&None, "https://example.com/a%20b.txt"), "a b.txt");
    assert_eq!(extract_filename(&None, "https://example.com/下载.zip"), "下载.zip");
    assert_eq!(extract_filename(&None, "https://example.com/"), "download");
    assert_eq!(extract_filename(&None, "https://example.com"), "download");
    assert_eq!(extract_filename(&None, "no url"), "download");
    assert_eq!(extract_filename(&None, "mailto:someone"), "download");
    assert_eq!(
        extract_filename(&some("attachment; filename=\"given.bin\""), "https://example.com/x"),
        "given.bin"
    );
    assert_eq!(extract_filename(&some("filename=\"\""), "https://example.com/x"), "x");
}

#[test]
fn names_are_never_empty() {
    for header in [None, some(""), some("filename="), some("filename=\"'\"")] {
        for path in [None, some(""), some("/"), some("x")] {
            assert!(!choose_filename(&header, &path).is_empty());
        }
    }
    assert_eq!(choose_filename(&None, &None), "download");
}

#[test]
fn a_probe_tells_all_three() {
    let downloader = HttpDownloader::new(8, 1024);
    let resp = ProbeResponse {
        status: 200,
        content_range: None,
        content_length: some("10"),
        accept_ranges: some("bytes"),
        content_disposition: None,
    };
    let told = downloader.probe_url(&resp, "http://h/p/q%41.z");
    assert_eq!(told, (Some(10), true, "qA.z".to_string()));
}

#[test]
fn when_a_head_request_is_enough() {
    assert!(head_suffices(Some(200)));
    assert!(head_suffices(Some(299)));
    assert!(!head_suffices(Some(300)));
    assert!(!head_suffices(Some(199)));
    assert!(!head_suffices(Some(405)));
    assert!(!head_suffices(None));
}

#[test]
fn how_a_probe_is_sent() {
    assert_eq!(probe_range(), "bytes=0-0");
    assert_eq!(user_agent(), "RustDownload/0.1 (IDM-like)");
}
