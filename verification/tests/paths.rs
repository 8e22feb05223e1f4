//! Paths.

use rust_download::paths::{path_extension, MachinePath, PathStep, Place, Platform};
use std::path::{Path, PathBuf};

const PATHS: [&str; 30] = [
    "",
    "/",
    "//",
    ".",
    "..",
    "./",
    "../",
    "a",
    "a/",
    "a/.",
    "a/./",
    "a/..",
    "/a",
    "/a/b.c",
    "a.torrent",
    "a.TORRENT",
    ".torrent",
    "..torrent",
    "a.b.c",
    "a.",
    "a..",
    "dir.x/file",
    "dir.x/",
    "dir/.hidden",
    "dir/.hidden.txt",
    "下载/文件.zip",
    "/home/u/Downloads",
    "a\\b.c/d\\.e",
    "x/y/z.tar.gz//",
    "x/y.z/./.",
];

#[test]
fn extensions_agree_with_std() {
    for path in PATHS {
        let expected = Path::new(path).extension().map(|e| e.to_str().unwrap().to_string());
        assert_eq!(path_extension(path, Platform::Linux), expected, "{:?}", path);
        assert_eq!(path_extension(path, Platform::MacOs), expected);
        assert_eq!(path_extension(path, Platform::Other), expected);
    }
}

#[test]
fn extensions_on_windows() {
    let cases = [
        ("C:\\dir.x\\file", None),
        ("C:\\dir\\a.TORRENT", Some("TORRENT")),
        ("C:/dir/a.torrent\\", Some("torrent")),
        ("C:\\dir\\.TORRENT", None),
        ("C:.TORRENT", None),
        ("C:a.TORRENT", Some("TORRENT")),
        ("1:a.b", Some("b")),
        ("a.b\\.\\", Some("b")),
        ("a.b\\..", None),
        ("\\\\server\\share.x", None),
        ("\\\\server\\share.x\\a.b", Some("b")),
        ("//server/share.x", None),
        ("\\\\server", None),
        ("\\\\.\\COM1.x", None),
        ("\\\\.\\COM1\\a.b", Some("b")),
        ("\\\\?\\C:\\a.b", Some("b")),
        ("\\\\?\\C:\\a.b/c", Some("b/c")),
        ("\\\\?\\C:\\a.b\\.", None),
        ("\\\\?\\UNC\\server\\share.x", None),
        ("\\\\?\\UNC\\server\\share.x\\a.b", Some("b")),
        ("\\\\?\\name.x", None),
    ];
    for (path, expected) in cases {
        let expected = expected.map(|e| e.to_string());
        assert_eq!(path_extension(path, Platform::Windows), expected, "{}", path);
    }
}

fn taken(place: &Place) -> PathBuf {
    let mut path = match &place.base {
        MachinePath::Text(text) => PathBuf::from(text),
        MachinePath::Raw(_) => panic!("no text"),
    };
    for step in &place.steps {
        path = match step {
            PathStep::Join(part) => path.join(part),
            PathStep::WithExtension(ext) => path.with_extension(ext),
        };
    }
    path
}

#[test]
fn steps_lead_where_std_goes() {
    for base in PATHS {
        for part in PATHS {
            let place = Place::of_text(base.to_string()).join(part);
            assert_eq!(taken(&place), Path::new(base).join(part));
            let parts = place.with_extension("rdl_parts");
            assert_eq!(taken(&parts), Path::new(base).join(part).with_extension("rdl_parts"));
        }
    }
}

#[test]
fn steps_are_kept_in_order() {
    let place = Place::of_text("/d".to_string());
    assert_eq!(place.plain(), Some("/d"));
    let file = place.join("f.zip");
    assert_eq!(file.plain(), None);
    let parts = file.with_extension("rdl_parts");
    assert_eq!(parts.base, MachinePath::Text("/d".to_string()));
    assert_eq!(
        parts.steps,
        vec![
            PathStep::Join("f.zip".to_string()),
            PathStep::WithExtension("rdl_parts".to_string()),
        ]
    );
    assert_eq!(parts.clone(), parts);
    assert_eq!(Place::at(MachinePath::Raw(vec![0xff])).plain(), None);
}
