//! The settings of the program, and where they are kept.

use crate::paths::{opt_path, MachinePath, PathView, Place, PlaceView, StepView};
use vstd::prelude::*;
use vstd::string::*;

verus! {

/// The settings of the program.
#[derive(Debug)]
pub struct AppConfig {
    pub download_dir: Place,
    pub max_concurrent_downloads: usize,
    pub max_connections_per_task: usize,
    pub chunk_size: u64,
    pub speed_limit: Option<u64>,
    pub auto_resume: bool,
    pub bt_listen_port: u16,
    pub bt_dht_enabled: bool,
    /// Drop the stored DHT routing table at startup and fill it anew from the public nodes.
    pub dht_refresh_on_startup: bool,
}

/// What an `AppConfig` holds.
#[verifier::ext_equal]
pub struct ConfigView {
    pub download_dir: PlaceView,
    pub max_concurrent_downloads: usize,
    pub max_connections_per_task: usize,
    pub chunk_size: u64,
    pub speed_limit: Option<u64>,
    pub auto_resume: bool,
    pub bt_listen_port: u16,
    pub bt_dht_enabled: bool,
    pub dht_refresh_on_startup: bool,
}

impl View for AppConfig {
    type V = ConfigView;

    open spec fn view(&self) -> ConfigView {
        ConfigView {
            download_dir: self.download_dir@,
            max_concurrent_downloads: self.max_concurrent_downloads,
            max_connections_per_task: self.max_connections_per_task,
            chunk_size: self.chunk_size,
            speed_limit: self.speed_limit,
            auto_resume: self.auto_resume,
            bt_listen_port: self.bt_listen_port,
            bt_dht_enabled: self.bt_dht_enabled,
            dht_refresh_on_startup: self.dht_refresh_on_startup,
        }
    }
}

impl Clone for AppConfig {
    fn clone(&self) -> (r: Self)
        ensures
            r@ == self@,
    {
        AppConfig {
            download_dir: self.download_dir.clone(),
            max_concurrent_downloads: self.max_concurrent_downloads,
            max_connections_per_task: self.max_connections_per_task,
            chunk_size: self.chunk_size,
            speed_limit: self.speed_limit,
            auto_resume: self.auto_resume,
            bt_listen_port: self.bt_listen_port,
            bt_dht_enabled: self.bt_dht_enabled,
            dht_refresh_on_startup: self.dht_refresh_on_startup,
        }
    }
}

/// The settings of a first run, with downloads going to a given directory.
pub open spec fn default_settings(download_dir: PlaceView) -> ConfigView {
    ConfigView {
        download_dir,
        max_concurrent_downloads: 5,
        max_connections_per_task: 8,
        chunk_size: 2_097_152,
        speed_limit: None,
        auto_resume: true,
        bt_listen_port: 6881,
        bt_dht_enabled: true,
        dht_refresh_on_startup: false,
    }
}

/// Where downloads go: the user's download directory, else `Downloads` in the home directory.
pub open spec fn default_dir(
    download_dir: Option<PathView>,
    home_dir: Option<PathView>,
) -> PlaceView {
    match download_dir {
        Some(dir) => PlaceView::at(dir),
        None => match home_dir {
            Some(home) => PlaceView::at(home).join("Downloads"@),
            None => PlaceView::of_text(Seq::empty()).join("Downloads"@),
        },
    }
}

/// Whether these are the settings of a first run, whatever the directories of the user are.
pub open spec fn is_default(settings: ConfigView) -> bool {
    exists|download: Option<PathView>, home: Option<PathView>|
        settings == default_settings(#[trigger] default_dir(download, home))
}

/// The path of a file of the program, in the user's configuration directory or else the current
/// one.
pub open spec fn app_file(config_dir: Option<PathView>, name: Seq<char>) -> PlaceView {
    let base = match config_dir {
        Some(dir) => PlaceView::at(dir),
        None => PlaceView::of_text("."@),
    };
    base.join("rust-download"@).join(name)
}

/// Whether a path is that of a file of the program, wherever the configuration directory is.
pub open spec fn is_app_file(path: PlaceView, name: Seq<char>) -> bool {
    exists|dir: Option<PathView>| path == #[trigger] app_file(dir, name)
}

/// The user's download directory, by `dirs::download_dir`. It depends on the machine, so
/// nothing is claimed of it.
#[verifier::external_body]
pub(crate) fn user_download_dir() -> Option<MachinePath> {
    match dirs::download_dir()?.into_os_string().into_string() {
        Ok(text) => Some(MachinePath::Text(text)),
        Err(raw) => Some(MachinePath::Raw(raw.into_encoded_bytes())),
    }
}

/// The user's home directory, by `dirs::home_dir`. It depends on the machine, so nothing is
/// claimed of it.
#[verifier::external_body]
fn user_home_dir() -> Option<MachinePath> {
    match dirs::home_dir()?.into_os_string().into_string() {
        Ok(text) => Some(MachinePath::Text(text)),
        Err(raw) => Some(MachinePath::Raw(raw.into_encoded_bytes())),
    }
}

/// The user's configuration directory, by `dirs::config_dir`. It depends on the machine, so
/// nothing is claimed of it.
#[verifier::external_body]
pub(crate) fn user_config_dir() -> Option<MachinePath> {
    match dirs::config_dir()?.into_os_string().into_string() {
        Ok(text) => Some(MachinePath::Text(text)),
        Err(raw) => Some(MachinePath::Raw(raw.into_encoded_bytes())),
    }
}

fn app_path(config_dir: Option<MachinePath>, name: &str) -> (r: Place)
    ensures
        r@ == app_file(opt_path(config_dir), name@),
{
    let base = match config_dir {
        Some(dir) => Place::at(dir),
        None => Place::of_text(".".to_owned()),
    };
    base.join("rust-download").join(name)
}

impl Default for AppConfig {
    /// The settings of a first run.
    fn default() -> (r: Self)
        ensures
            is_default(r@),
    {
        let download_dir = user_download_dir();
        let home_dir = if download_dir.is_none() {
            user_home_dir()
        } else {
            None
        };
        let ghost dir = default_dir(opt_path(download_dir), opt_path(home_dir));
        let r = AppConfig::with_dirs(download_dir, home_dir);
        assert(r@ == default_settings(dir));
        r
    }
}

impl AppConfig {
    /// The settings of a first run, from the directories of the user.
    pub fn with_dirs(download_dir: Option<MachinePath>, home_dir: Option<MachinePath>) -> (r: Self)
        ensures
            r@ == default_settings(default_dir(opt_path(download_dir), opt_path(home_dir))),
    {
        let dir = match download_dir {
            Some(dir) => Place::at(dir),
            None => {
                let home = match home_dir {
                    Some(home) => Place::at(home),
                    None => Place::of_text(String::new()),
                };
                home.join("Downloads")
            },
        };
        AppConfig {
            download_dir: dir,
            max_concurrent_downloads: 5,
            max_connections_per_task: 8,
            chunk_size: 2_097_152,
            speed_limit: None,
            auto_resume: true,
            bt_listen_port: 6881,
            bt_dht_enabled: true,
            dht_refresh_on_startup: false,
        }
    }

    /// The settings to run with, and whether they are to be stored: those that are stored
    /// already, else those of a first run.
    pub fn load(stored: Option<AppConfig>) -> (r: (Self, bool))
        ensures
            match stored {
                Some(config) => r.0 == config && !r.1,
                None => r.1 && is_default(r.0@),
            },
    {
        match stored {
            Some(config) => (config, false),
            None => (AppConfig::default(), true),
        }
    }

    /// The path of the settings, below a given configuration directory.
    pub fn config_path_in(config_dir: Option<MachinePath>) -> (r: Place)
        ensures
            r@ == app_file(opt_path(config_dir), "config.json"@),
    {
        app_path(config_dir, "config.json")
    }

    /// The path of the settings.
    pub fn config_path() -> (r: Place)
        ensures
            is_app_file(r@, "config.json"@),
    {
        AppConfig::config_path_in(user_config_dir())
    }

    /// The path of the stored tasks, below a given configuration directory.
    pub fn state_path_in(config_dir: Option<MachinePath>) -> (r: Place)
        ensures
            r@ == app_file(opt_path(config_dir), "tasks.json"@),
    {
        app_path(config_dir, "tasks.json")
    }

    /// The path of the stored tasks.
    pub fn state_path() -> (r: Place)
        ensures
            is_app_file(r@, "tasks.json"@),
    {
        AppConfig::state_path_in(user_config_dir())
    }
}

/// Settings and tasks are kept under different names in one directory.
pub proof fn settings_and_tasks_apart(config_dir: Option<PathView>)
    ensures
        app_file(config_dir, "config.json"@).base == app_file(config_dir, "tasks.json"@).base,
        app_file(config_dir, "config.json"@).steps.drop_last() == app_file(
            config_dir,
            "tasks.json"@,
        ).steps.drop_last(),
        app_file(config_dir, "config.json"@).steps.last() != app_file(
            config_dir,
            "tasks.json"@,
        ).steps.last(),
{
    reveal_strlit("config.json");
    reveal_strlit("tasks.json");
    assert(app_file(config_dir, "config.json"@).steps.drop_last() =~= app_file(
        config_dir,
        "tasks.json"@,
    ).steps.drop_last());
    assert("config.json"@.len() != "tasks.json"@.len());
}

/// The settings of a first run: five downloads at a time, eight connections for each, chunks of two
/// mebibytes, no limit to the rate, and torrents on port 6881 with a routing table that is kept.
pub proof fn first_run_is_moderate(dir: PlaceView)
    ensures
        ({
            let settings = default_settings(dir);
            &&& settings.download_dir == dir
            &&& settings.max_concurrent_downloads == 5
            &&& settings.max_connections_per_task == 8
            &&& settings.chunk_size == 2 * 1024 * 1024
            &&& settings.speed_limit is None
            &&& settings.auto_resume
            &&& settings.bt_listen_port == 6881
            &&& settings.bt_dht_enabled
            &&& !settings.dht_refresh_on_startup
        }),
{
}

/// Downloads go to the user's download directory itself, wherever the home directory is; without
/// one one step below the home directory, into `Downloads`.
pub proof fn downloads_have_their_place(dir: PathView, home: Option<PathView>)
    ensures
        default_dir(Some(dir), home).base == dir,
        default_dir(Some(dir), home).steps.len() == 0,
        home is Some ==> default_dir(None, home).base == home->0,
        home is None ==> default_dir(None, home).base == PathView::Text(Seq::empty()),
        default_dir(None, home).steps == seq![StepView::Join("Downloads"@)],
{
    assert(default_dir(None, home).steps =~= seq![StepView::Join("Downloads"@)]);
}

/// A file of the program is two steps below the configuration directory, or the current one: in
/// `rust-download`, under its name.
pub proof fn files_have_their_place(dir: PathView, name: Seq<char>)
    ensures
        app_file(Some(dir), name).base == dir,
        app_file(None, name).base == PathView::Text("."@),
        app_file(Some(dir), name).steps == seq![
            StepView::Join("rust-download"@),
            StepView::Join(name),
        ],
        app_file(None, name).steps == app_file(Some(dir), name).steps,
{
    assert(app_file(Some(dir), name).steps =~= seq![
        StepView::Join("rust-download"@),
        StepView::Join(name),
    ]);
    assert(app_file(None, name).steps =~= app_file(Some(dir), name).steps);
}

} // verus!
