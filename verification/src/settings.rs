//! Persistent settings of the application and of the discovery server, and
//! where the application keeps its files.
use vstd::prelude::*;
use crate::paths::{join, join_path};

verus! {

/// The extension repository configured by default.
pub const DEFAULT_EXTENSION_REPO: &'static str = "https://raw.githubusercontent.com/keiyoushi/extensions/repo/index.min.json";

/// Settings of the discovery server integration.
#[derive(Clone, Debug)]
pub struct DiscoverySettings {
    pub enabled: bool,
    pub installed_version: Option<String>,
    pub auto_start: bool,
    pub last_update_check: Option<String>,
    pub download_dir: Option<String>,
    pub extension_repos: Vec<String>,
}

/// The repository list holds just the default repository.
pub open spec fn is_default_repo_list(repos: Seq<String>) -> bool {
    repos.len() == 1 && repos[0]@ == DEFAULT_EXTENSION_REPO@
}

/// The extension repositories used when none are configured: the default one.
pub fn default_extension_repos() -> (repos: Vec<String>)
    ensures
        is_default_repo_list(repos@),
{
    let mut repos: Vec<String> = Vec::new();
    repos.push(DEFAULT_EXTENSION_REPO.to_string());
    repos
}

/// Settings of a fresh installation: disabled, nothing installed or
/// checked, no download directory, the default repository.
pub open spec fn is_default_discovery(settings: DiscoverySettings) -> bool {
    &&& !settings.enabled
    &&& settings.installed_version is None
    &&& !settings.auto_start
    &&& settings.last_update_check is None
    &&& settings.download_dir is None
    &&& is_default_repo_list(settings.extension_repos@)
}

impl Default for DiscoverySettings {
    fn default() -> (settings: Self)
        ensures
            is_default_discovery(settings),
    {
        DiscoverySettings {
            enabled: false,
            installed_version: None,
            auto_start: false,
            last_update_check: None,
            download_dir: None,
            extension_repos: default_extension_repos(),
        }
    }
}

impl DiscoverySettings {
    /// Records the version found installed; with none installed the
    /// integration is switched off.
    pub fn record_installed_version(&mut self, version: Option<String>)
        ensures
            final(self).installed_version == version,
            final(self).enabled == (old(self).enabled && version is Some),
            final(self).auto_start == old(self).auto_start,
            final(self).last_update_check == old(self).last_update_check,
            final(self).download_dir == old(self).download_dir,
            final(self).extension_repos == old(self).extension_repos,
    {
        let none = version.is_none();
        self.installed_version = version;
        if none {
            self.enabled = false;
        }
    }

    /// Records a completed installation: the integration is on exactly when a
    /// version is now installed.
    pub fn record_install(&mut self, version: Option<String>)
        ensures
            final(self).installed_version == version,
            final(self).enabled == version is Some,
            final(self).auto_start == old(self).auto_start,
            final(self).last_update_check == old(self).last_update_check,
            final(self).download_dir == old(self).download_dir,
            final(self).extension_repos == old(self).extension_repos,
    {
        self.enabled = version.is_some();
        self.installed_version = version;
    }

    /// Records an uninstallation: nothing installed, integration off.
    pub fn record_uninstall(&mut self)
        ensures
            final(self).installed_version is None,
            !final(self).enabled,
            final(self).auto_start == old(self).auto_start,
            final(self).last_update_check == old(self).last_update_check,
            final(self).download_dir == old(self).download_dir,
            final(self).extension_repos == old(self).extension_repos,
    {
        self.installed_version = None;
        self.enabled = false;
    }

    /// Records when updates were last looked for.
    pub fn record_update_check(&mut self, when: String)
        ensures
            final(self).last_update_check == Some(when),
            final(self).enabled == old(self).enabled,
            final(self).installed_version == old(self).installed_version,
            final(self).auto_start == old(self).auto_start,
            final(self).download_dir == old(self).download_dir,
            final(self).extension_repos == old(self).extension_repos,
    {
        self.last_update_check = Some(when);
    }

    /// Whether the server is started when the application launches: the
    /// integration is on, set to start automatically, and a version is installed.
    pub fn starts_at_launch(&self) -> (start: bool)
        ensures
            start == (self.enabled && self.auto_start && self.installed_version is Some),
    {
        self.enabled && self.auto_start && self.installed_version.is_some()
    }

    /// Whether the server is started right after an installation.
    pub fn starts_after_install(&self) -> (start: bool)
        ensures
            start == (self.enabled && self.auto_start),
    {
        self.enabled && self.auto_start
    }
}

/// The colour theme the user picked.
#[derive(Clone, Copy, Debug, PartialEq, Eq, Structural)]
pub enum ThemePreference {
    Light,
    Dark,
    System,
}

impl Default for ThemePreference {
    fn default() -> (theme: Self)
        ensures
            theme == ThemePreference::System,
    {
        ThemePreference::System
    }
}

/// Settings of the desktop application.
#[derive(Clone, Debug)]
pub struct AppSettings {
    pub default_output_dir: Option<String>,
    pub show_key_hints: bool,
    pub theme: ThemePreference,
}

/// Settings of a fresh installation: no output directory, key hints shown,
/// the system's theme.
pub open spec fn is_default_app(settings: AppSettings) -> bool {
    &&& settings.default_output_dir is None
    &&& settings.show_key_hints
    &&& settings.theme == ThemePreference::System
}

impl Default for AppSettings {
    fn default() -> (settings: Self)
        ensures
            is_default_app(settings),
    {
        AppSettings { default_output_dir: None, show_key_hints: true, theme: ThemePreference::System }
    }
}

/// The application settings to use, given what was read and parsed from the
/// settings file: the stored settings, or the defaults when there was no
/// readable file or it did not parse.
pub fn load_app(parsed: Option<AppSettings>) -> (settings: AppSettings)
    ensures
        match parsed {
            Some(stored) => settings == stored,
            None => is_default_app(settings),
        },
{
    match parsed {
        Some(stored) => stored,
        None => AppSettings::default(),
    }
}

/// The discovery settings to use, given what was read and parsed from their
/// file: the stored settings, or the defaults.
pub fn load_discovery(parsed: Option<DiscoverySettings>) -> (settings: DiscoverySettings)
    ensures
        match parsed {
            Some(stored) => settings == stored,
            None => is_default_discovery(settings),
        },
{
    match parsed {
        Some(stored) => stored,
        None => DiscoverySettings::default(),
    }
}

/// Where the desktop application keeps its files.
#[derive(Clone, Debug)]
pub struct AppPaths {
    pub config_dir: String,
    pub data_dir: String,
    pub cache_dir: String,
    pub settings: String,
    pub discovery_settings: String,
    pub window_state: String,
    pub logs: String,
    pub suwayomi: String,
    pub assets: String,
}

/// The file layout under the platform's configuration, data and cache
/// directories, with the assets two levels above the source directory.
pub open spec fn is_app_layout(
    paths: AppPaths,
    config_dir: Seq<char>,
    data_dir: Seq<char>,
    cache_dir: Seq<char>,
    source_dir: Seq<char>,
) -> bool {
    &&& paths.config_dir@ == config_dir
    &&& paths.data_dir@ == data_dir
    &&& paths.cache_dir@ == cache_dir
    &&& paths.settings@ == join(config_dir, "settings.json"@)
    &&& paths.discovery_settings@ == join(config_dir, "discovery.json"@)
    &&& paths.window_state@ == join(config_dir, "window-state.json"@)
    &&& paths.logs@ == join(data_dir, "logs"@)
    &&& paths.suwayomi@ == join(data_dir, "suwayomi"@)
    &&& paths.assets@ == join(join(source_dir, "../.."@), "assets"@)
}

impl AppPaths {
    /// The application's file layout under the given platform directories.
    pub fn layout(config_dir: &str, data_dir: &str, cache_dir: &str, source_dir: &str) -> (paths: Self)
        ensures
            is_app_layout(paths, config_dir@, data_dir@, cache_dir@, source_dir@),
    {
        let up = join_path(source_dir, "../..");
        AppPaths {
            config_dir: config_dir.to_string(),
            data_dir: data_dir.to_string(),
            cache_dir: cache_dir.to_string(),
            settings: join_path(config_dir, "settings.json"),
            discovery_settings: join_path(config_dir, "discovery.json"),
            window_state: join_path(config_dir, "window-state.json"),
            logs: join_path(data_dir, "logs"),
            suwayomi: join_path(data_dir, "suwayomi"),
            assets: join_path(up.as_str(), "assets"),
        }
    }

    /// The directories that must exist before the application starts, in
    /// the order they are created.
    pub fn required_dirs(&self) -> (dirs: Vec<String>)
        ensures
            dirs@.len() == 5,
            dirs@[0] == self.config_dir,
            dirs@[1] == self.data_dir,
            dirs@[2] == self.cache_dir,
            dirs@[3] == self.logs,
            dirs@[4] == self.suwayomi,
    {
        let mut dirs: Vec<String> = Vec::new();
        dirs.push(self.config_dir.clone());
        dirs.push(self.data_dir.clone());
        dirs.push(self.cache_dir.clone());
        dirs.push(self.logs.clone());
        dirs.push(self.suwayomi.clone());
        dirs
    }
}

/// The directory of the desktop backend's log files under the platform's data directory.
pub fn log_dir_under(data_dir: &str) -> (dir: String)
    ensures
        dir@ == join(join(data_dir@, "com.thasia"@), "logs"@),
{
    let app = join_path(data_dir, "com.thasia");
    join_path(app.as_str(), "logs")
}

} // verus!
