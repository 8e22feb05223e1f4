//! Settings, their places, and fonts.

use rust_download::config::AppConfig;
use rust_download::font::{font_paths_in, get_font_paths, usable_font};
use rust_download::paths::{MachinePath, Place, Platform};
use rust_download::ui::{folder_or_default, folder_to_open};
use std::path::PathBuf;

fn some(s: &str) -> Option<MachinePath> {
    Some(MachinePath::Text(s.to_string()))
}

fn place(s: &str) -> Place {
    Place::of_text(s.to_string())
}

/// A path of the machine as the library holds it.
fn given(p: PathBuf) -> Place {
    Place::at(machine(p))
}

fn machine(p: PathBuf) -> MachinePath {
    match p.into_os_string().into_string() {
        Ok(text) => MachinePath::Text(text),
        Err(bytes) => MachinePath::Raw(bytes.into_encoded_bytes()),
    }
}

fn check_first_run(config: &AppConfig) {
    assert_eq!(config.max_concurrent_downloads, 5);
    assert_eq!(config.max_connections_per_task, 8);
    assert_eq!(config.chunk_size, 2 * 1024 * 1024);
    assert_eq!(config.speed_limit, None);
    assert!(config.auto_resume && config.bt_dht_enabled && !config.dht_refresh_on_startup);
    assert_eq!(config.bt_listen_port, 6881);
}

#[test]
fn settings_of_a_first_run() {
    let config = AppConfig::with_dirs(some("/d"), some("/h"));
    check_first_run(&config);
    assert_eq!(config.download_dir, place("/d"));
    let at_home = AppConfig::with_dirs(None, some("/h"));
    assert_eq!(at_home.download_dir, place("/h").join("Downloads"));
    assert_eq!(AppConfig::with_dirs(None, None).download_dir, place("").join("Downloads"));
}

#[test]
fn directories_that_are_no_text() {
    let raw = || Some(MachinePath::Raw(b"/d\xff".to_vec()));
    let config = AppConfig::with_dirs(raw(), None);
    check_first_run(&config);
    assert_eq!(config.download_dir.base, MachinePath::Raw(b"/d\xff".to_vec()));
    let settings = AppConfig::config_path_in(raw());
    assert_eq!(settings.base, MachinePath::Raw(b"/d\xff".to_vec()));
    assert_eq!(settings.steps.len(), 2);
}

#[test]
fn settings_from_the_machine() {
    let config = AppConfig::default();
    check_first_run(&config);
    let dir = match dirs::download_dir() {
        Some(dir) => given(dir),
        None => given(dirs::home_dir().unwrap_or_default()).join("Downloads"),
    };
    assert_eq!(config.download_dir, dir);
}

#[test]
fn stored_settings_are_used() {
    let mut stored = AppConfig::with_dirs(some("/d"), None);
    stored.chunk_size = 17;
    let (config, save) = AppConfig::load(Some(stored.clone()));
    assert_eq!(format!("{:?}", config), format!("{:?}", stored));
    assert!(!save);
    let (first, save_first) = AppConfig::load(None);
    check_first_run(&first);
    assert!(save_first);
}

#[test]
fn places_of_files() {
    let own = |dir: &str| place(dir).join("rust-download");
    assert_eq!(AppConfig::config_path_in(some("/c")), own("/c").join("config.json"));
    assert_eq!(AppConfig::config_path_in(None), own(".").join("config.json"));
    assert_eq!(AppConfig::state_path_in(some("/c/")), own("/c/").join("tasks.json"));
    assert_eq!(AppConfig::state_path_in(None), own(".").join("tasks.json"));
}

#[test]
fn places_on_the_machine() {
    let dir = given(dirs::config_dir().unwrap_or_else(|| PathBuf::from(".")));
    assert_eq!(AppConfig::config_path(), dir.join("rust-download").join("config.json"));
    assert_eq!(AppConfig::state_path(), dir.join("rust-download").join("tasks.json"));
    assert_ne!(AppConfig::config_path(), AppConfig::state_path());
}

#[test]
fn fonts_in_order() {
    let linux = font_paths_in(some("/c"), some("/bin"), Platform::Linux, None);
    assert_eq!(
        linux,
        vec![
            place("/c").join("rust-download").join("NotoSansSC-Regular.ttf"),
            place("/bin").join("assets").join("NotoSansSC-Regular.ttf"),
            place("/bin").join("NotoSansSC-Regular.ttf"),
            place("assets/NotoSansSC-Regular.ttf"),
            place("/usr/share/fonts/opentype/noto/NotoSansCJK-Regular.ttc"),
            place("/usr/share/fonts/noto-cjk/NotoSansCJK-Regular.ttc"),
            place("/usr/share/fonts/google-noto-cjk/NotoSansCJK-Regular.ttc"),
            place("/usr/share/fonts/truetype/noto/NotoSansCJK-Regular.ttc"),
            place("/usr/share/fonts/wenquanyi/wqy-microhei/wqy-microhei.ttc"),
        ]
    );
    let mac = font_paths_in(None, None, Platform::MacOs, None);
    assert_eq!(
        mac,
        vec![
            place("assets/NotoSansSC-Regular.ttf"),
            place("/System/Library/Fonts/Hiragino Sans GB.ttc"),
            place("/System/Library/Fonts/STHeiti Medium.ttc"),
            place("/System/Library/Fonts/STHeiti Light.ttc"),
            place("/System/Library/Fonts/PingFang.ttc"),
            place("/Library/Fonts/Arial Unicode.ttf"),
        ]
    );
    let windows = font_paths_in(None, None, Platform::Windows, Some("D:\\W".to_string()));
    assert_eq!(windows[1], place("D:\\W\\Fonts\\msyh.ttc"));
    let fallback = font_paths_in(None, None, Platform::Windows, None);
    assert_eq!(
        fallback[1..],
        [
            place("C:\\Windows\\Fonts\\msyh.ttc"),
            place("C:\\Windows\\Fonts\\simsun.ttc"),
            place("C:\\Windows\\Fonts\\simhei.ttf"),
        ]
    );
    assert_eq!(font_paths_in(None, None, Platform::Other, None).len(), 1);
}

#[test]
fn fonts_on_the_machine() {
    let dir = dirs::config_dir().map(machine);
    let expected = font_paths_in(dir, some("/bin"), Platform::Linux, None);
    assert_eq!(get_font_paths(some("/bin"), Platform::Linux, None), expected);
}

#[test]
fn usable_fonts_hold_something() {
    assert_eq!(usable_font(None), None);
    assert_eq!(usable_font(Some(vec![])), None);
    assert_eq!(usable_font(Some(vec![1, 2])), Some(vec![1, 2]));
}

#[test]
fn folders_to_show() {
    assert_eq!(folder_or_default(Some(place("/a")), some("/b")), place("/a"));
    assert_eq!(folder_or_default(None, some("/b")), place("/b"));
    assert_eq!(folder_or_default(None, None), place(""));
    assert_eq!(folder_to_open(Some(place("/a").join("b"))), place("/a").join("b"));
    assert_eq!(folder_to_open(None), given(dirs::download_dir().unwrap_or_default()));
}
