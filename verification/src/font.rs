//! Where a font for Chinese text is looked for.

use crate::config;
use crate::paths::{opt_path, places, MachinePath, PathView, Place, PlaceView, Platform};
use crate::paths::StepView;
use crate::task::opt_text;
use vstd::prelude::*;
use vstd::string::*;

verus! {

/// A font next to the settings.
pub open spec fn config_fonts(config_dir: Option<PathView>) -> Seq<PlaceView> {
    match config_dir {
        Some(dir) => seq![
            PlaceView::at(dir).join("rust-download"@).join("NotoSansSC-Regular.ttf"@),
        ],
        None => Seq::empty(),
    }
}

/// Fonts next to the program.
pub open spec fn program_fonts(exe_dir: Option<PathView>) -> Seq<PlaceView> {
    match exe_dir {
        Some(dir) => seq![
            PlaceView::at(dir).join("assets"@).join("NotoSansSC-Regular.ttf"@),
            PlaceView::at(dir).join("NotoSansSC-Regular.ttf"@),
        ],
        None => Seq::empty(),
    }
}

/// The fonts of a system; on Windows below the directory that it is installed in.
pub open spec fn system_fonts(platform: Platform, windir: Option<Seq<char>>) -> Seq<PlaceView> {
    match platform {
        Platform::MacOs => seq![
            PlaceView::of_text("/System/Library/Fonts/Hiragino Sans GB.ttc"@),
            PlaceView::of_text("/System/Library/Fonts/STHeiti Medium.ttc"@),
            PlaceView::of_text("/System/Library/Fonts/STHeiti Light.ttc"@),
            PlaceView::of_text("/System/Library/Fonts/PingFang.ttc"@),
            PlaceView::of_text("/Library/Fonts/Arial Unicode.ttf"@),
        ],
        Platform::Linux => seq![
            PlaceView::of_text("/usr/share/fonts/opentype/noto/NotoSansCJK-Regular.ttc"@),
            PlaceView::of_text("/usr/share/fonts/noto-cjk/NotoSansCJK-Regular.ttc"@),
            PlaceView::of_text("/usr/share/fonts/google-noto-cjk/NotoSansCJK-Regular.ttc"@),
            PlaceView::of_text("/usr/share/fonts/truetype/noto/NotoSansCJK-Regular.ttc"@),
            PlaceView::of_text("/usr/share/fonts/wenquanyi/wqy-microhei/wqy-microhei.ttc"@),
        ],
        Platform::Windows => {
            let dir = match windir {
                Some(d) => d,
                None => "C:\\Windows"@,
            };
            seq![
                PlaceView::of_text(dir + "\\Fonts\\msyh.ttc"@),
                PlaceView::of_text(dir + "\\Fonts\\simsun.ttc"@),
                PlaceView::of_text(dir + "\\Fonts\\simhei.ttf"@),
            ]
        },
        Platform::Other => Seq::empty(),
    }
}

/// Where a font is looked for, in order: next to the settings, next to the program, in the
/// current directory, among the system's fonts.
pub open spec fn font_candidates(
    config_dir: Option<PathView>,
    exe_dir: Option<PathView>,
    platform: Platform,
    windir: Option<Seq<char>>,
) -> Seq<PlaceView> {
    config_fonts(config_dir) + program_fonts(exe_dir) + seq![
        PlaceView::of_text("assets/NotoSansSC-Regular.ttf"@),
    ] + system_fonts(platform, windir)
}

fn push_path(list: &mut Vec<Place>, path: Place)
    ensures
        places(final(list)@) == places(old(list)@).push(path@),
{
    list.push(path);
    assert(places(list@) =~= places(old(list)@).push(path@));
}

fn push_text(list: &mut Vec<Place>, s: &str)
    ensures
        places(final(list)@) == places(old(list)@).push(PlaceView::of_text(s@)),
{
    push_path(list, Place::of_text(s.to_owned()));
}

fn push_windows_font(list: &mut Vec<Place>, windir: &str, file: &str)
    ensures
        places(final(list)@) == places(old(list)@).push(PlaceView::of_text(windir@ + file@)),
{
    let mut path = windir.to_owned();
    path.append(file);
    push_path(list, Place::of_text(path));
}

/// Appends the fonts of a system.
fn push_system_fonts(list: &mut Vec<Place>, platform: Platform, windir: Option<String>)
    ensures
        places(final(list)@) == places(old(list)@) + system_fonts(platform, opt_text(windir)),
{
    let ghost before = places(list@);
    match platform {
        Platform::MacOs => {
            push_text(list, "/System/Library/Fonts/Hiragino Sans GB.ttc");
            push_text(list, "/System/Library/Fonts/STHeiti Medium.ttc");
            push_text(list, "/System/Library/Fonts/STHeiti Light.ttc");
            push_text(list, "/System/Library/Fonts/PingFang.ttc");
            push_text(list, "/Library/Fonts/Arial Unicode.ttf");
        },
        Platform::Linux => {
            push_text(list, "/usr/share/fonts/opentype/noto/NotoSansCJK-Regular.ttc");
            push_text(list, "/usr/share/fonts/noto-cjk/NotoSansCJK-Regular.ttc");
            push_text(list, "/usr/share/fonts/google-noto-cjk/NotoSansCJK-Regular.ttc");
            push_text(list, "/usr/share/fonts/truetype/noto/NotoSansCJK-Regular.ttc");
            push_text(list, "/usr/share/fonts/wenquanyi/wqy-microhei/wqy-microhei.ttc");
        },
        Platform::Windows => {
            let dir = match windir {
                Some(d) => d,
                None => "C:\\Windows".to_owned(),
            };
            push_windows_font(list, dir.as_str(), "\\Fonts\\msyh.ttc");
            push_windows_font(list, dir.as_str(), "\\Fonts\\simsun.ttc");
            push_windows_font(list, dir.as_str(), "\\Fonts\\simhei.ttf");
        },
        Platform::Other => {},
    }
    assert(places(list@) =~= before + system_fonts(platform, opt_text(windir)));
}

/// Where a font is looked for, in order.
pub fn font_paths_in(
    config_dir: Option<MachinePath>,
    exe_dir: Option<MachinePath>,
    platform: Platform,
    windir: Option<String>,
) -> (r: Vec<Place>)
    ensures
        places(r@) == font_candidates(
            opt_path(config_dir),
            opt_path(exe_dir),
            platform,
            opt_text(windir),
        ),
{
    let mut list: Vec<Place> = Vec::new();
    if let Some(dir) = &config_dir {
        let own = Place::at(dir.clone()).join("rust-download");
        push_path(&mut list, own.join("NotoSansSC-Regular.ttf"));
    }
    assert(places(list@) =~= config_fonts(opt_path(config_dir)));
    if let Some(dir) = &exe_dir {
        let beside = Place::at(dir.clone());
        let assets = beside.join("assets");
        push_path(&mut list, assets.join("NotoSansSC-Regular.ttf"));
        push_path(&mut list, beside.join("NotoSansSC-Regular.ttf"));
    }
    assert(places(list@) =~= config_fonts(opt_path(config_dir)) + program_fonts(opt_path(exe_dir)));
    push_text(&mut list, "assets/NotoSansSC-Regular.ttf");
    push_system_fonts(&mut list, platform, windir);
    assert(places(list@) =~= font_candidates(
        opt_path(config_dir),
        opt_path(exe_dir),
        platform,
        opt_text(windir),
    ));
    list
}

/// Where a font is looked for, in order, with the configuration directory of the user.
pub fn get_font_paths(
    exe_dir: Option<MachinePath>,
    platform: Platform,
    windir: Option<String>,
) -> (r: Vec<Place>)
    ensures
        exists|config_dir: Option<PathView>|
            places(r@) == #[trigger] font_candidates(
                config_dir,
                opt_path(exe_dir),
                platform,
                opt_text(windir),
            ),
{
    font_paths_in(config::user_config_dir(), exe_dir, platform, windir)
}

/// What was read of a candidate, where it can be used: there is something in it.
pub fn usable_font(read: Option<Vec<u8>>) -> (r: Option<Vec<u8>>)
    ensures
        r is Some <==> read is Some && read->0@.len() > 0,
        r is Some ==> r == read,
{
    match read {
        Some(data) => if data.len() > 0 {
            Some(data)
        } else {
            None
        },
        None => None,
    }
}

/// A font is looked for next to the settings first, where they have a directory, next to the
/// program behind that, once below `assets` and once beside it, in the current directory behind
/// that, and among the fonts of the system last.
pub proof fn fonts_are_looked_for_in_order(
    config_dir: Option<PathView>,
    exe_dir: Option<PathView>,
    platform: Platform,
    windir: Option<Seq<char>>,
)
    ensures
        ({
            let all = font_candidates(config_dir, exe_dir, platform, windir);
            let own = if config_dir is Some {
                1int
            } else {
                0
            };
            let beside = if exe_dir is Some {
                2int
            } else {
                0
            };
            let current = own + beside;
            let of_system = system_fonts(platform, windir);
            &&& all.len() == current + 1 + of_system.len()
            &&& config_dir is Some ==> all[0].base == config_dir->0 && all[0].steps == seq![
                StepView::Join("rust-download"@),
                StepView::Join("NotoSansSC-Regular.ttf"@),
            ]
            &&& exe_dir is Some ==> all[own].base == exe_dir->0 && all[own].steps == seq![
                StepView::Join("assets"@),
                StepView::Join("NotoSansSC-Regular.ttf"@),
            ]
            &&& exe_dir is Some ==> all[own + 1].base == exe_dir->0 && all[own + 1].steps == seq![
                StepView::Join("NotoSansSC-Regular.ttf"@),
            ]
            &&& all[current].base == PathView::Text("assets/NotoSansSC-Regular.ttf"@)
            &&& all[current].steps.len() == 0
            &&& all.skip(current + 1) == of_system
        }),
{
    let all = font_candidates(config_dir, exe_dir, platform, windir);
    let front = config_fonts(config_dir) + program_fonts(exe_dir);
    assert(all.skip(front.len() as int + 1) =~= system_fonts(platform, windir));
    if let Some(dir) = config_dir {
        assert(all[0] == config_fonts(config_dir)[0]);
        assert(all[0].steps =~= seq![
            StepView::Join("rust-download"@),
            StepView::Join("NotoSansSC-Regular.ttf"@),
        ]);
    }
    if let Some(dir) = exe_dir {
        let own = config_fonts(config_dir).len() as int;
        assert(all[own] == program_fonts(exe_dir)[0]);
        assert(all[own + 1] == program_fonts(exe_dir)[1]);
        assert(all[own].steps =~= seq![
            StepView::Join("assets"@),
            StepView::Join("NotoSansSC-Regular.ttf"@),
        ]);
        assert(all[own + 1].steps =~= seq![StepView::Join("NotoSansSC-Regular.ttf"@)]);
    }
}

/// Only Windows depends on where it is installed: its fonts are below that directory, and below the
/// usual one where none is given. A system that is not known has no fonts.
pub proof fn windows_fonts_are_where_it_is(
    platform: Platform,
    dir: Seq<char>,
    other: Option<Seq<char>>,
    i: int,
)
    ensures
        platform != Platform::Windows ==> system_fonts(platform, Some(dir)) == system_fonts(
            platform,
            other,
        ),
        platform == Platform::Other ==> system_fonts(platform, other).len() == 0,
        system_fonts(Platform::MacOs, other).len() == 5,
        system_fonts(Platform::Linux, other).len() == 5,
        system_fonts(Platform::Windows, other).len() == 3,
        system_fonts(Platform::Windows, None) == system_fonts(
            Platform::Windows,
            Some("C:\\Windows"@),
        ),
        0 <= i < system_fonts(Platform::Windows, Some(dir)).len() ==> {
            let place = system_fonts(Platform::Windows, Some(dir))[i];
            &&& place.steps.len() == 0
            &&& place.base matches PathView::Text(path)
            &&& (dir + "\\Fonts\\"@).is_prefix_of(path)
        },
{
    reveal_strlit("\\Fonts\\");
    reveal_strlit("\\Fonts\\msyh.ttc");
    reveal_strlit("\\Fonts\\simsun.ttc");
    reveal_strlit("\\Fonts\\simhei.ttf");
    let start = dir + "\\Fonts\\"@;
    assert(start.is_prefix_of(dir + "\\Fonts\\msyh.ttc"@)) by {
        assert(start =~= (dir + "\\Fonts\\msyh.ttc"@).take(start.len() as int));
    }
    assert(start.is_prefix_of(dir + "\\Fonts\\simsun.ttc"@)) by {
        assert(start =~= (dir + "\\Fonts\\simsun.ttc"@).take(start.len() as int));
    }
    assert(start.is_prefix_of(dir + "\\Fonts\\simhei.ttf"@)) by {
        assert(start =~= (dir + "\\Fonts\\simhei.ttf"@).take(start.len() as int));
    }
}

} // verus!
