use thasia::settings::{
    default_extension_repos, load_app, load_discovery, log_dir_under, AppPaths, AppSettings,
    DiscoverySettings, ThemePreference, DEFAULT_EXTENSION_REPO,
};

#[test]
fn defaults() {
    let discovery = DiscoverySettings::default();
    assert!(!discovery.enabled && !discovery.auto_start);
    assert!(discovery.installed_version.is_none());
    assert_eq!(discovery.extension_repos, vec![DEFAULT_EXTENSION_REPO.to_string()]);
    assert_eq!(default_extension_repos(), vec![
        "https://raw.githubusercontent.com/keiyoushi/extensions/repo/index.min.json".to_string()
    ]);
    let app = AppSettings::default();
    assert!(app.show_key_hints);
    assert_eq!(app.theme, ThemePreference::System);
    assert_eq!(ThemePreference::default(), ThemePreference::System);
}

#[test]
fn loading_falls_back_to_defaults() {
    let stored = AppSettings { default_output_dir: Some("/out".into()), show_key_hints: false, theme: ThemePreference::Dark };
    let loaded = load_app(Some(stored));
    assert_eq!(loaded.default_output_dir.as_deref(), Some("/out"));
    assert_eq!(loaded.theme, ThemePreference::Dark);
    assert!(load_app(None).show_key_hints);
    assert!(!load_discovery(None).enabled);
    let mut custom = DiscoverySettings::default();
    custom.auto_start = true;
    assert!(load_discovery(Some(custom)).auto_start);
}

#[test]
fn installed_version_changes() {
    let mut settings = DiscoverySettings::default();
    settings.record_install(Some("v2.1".into()));
    assert!(settings.enabled);
    settings.auto_start = true;
    assert!(settings.starts_at_launch());
    assert!(settings.starts_after_install());
    settings.record_installed_version(None);
    assert!(!settings.enabled);
    assert!(!settings.starts_at_launch());
    settings.record_install(None);
    assert!(!settings.enabled);
    settings.record_install(Some("v3".into()));
    settings.record_uninstall();
    assert!(!settings.enabled);
    assert!(settings.installed_version.is_none());
    settings.record_update_check("1700000000".into());
    assert_eq!(settings.last_update_check.as_deref(), Some("1700000000"));
    let mut kept = DiscoverySettings::default();
    kept.enabled = true;
    kept.record_installed_version(Some("v1".into()));
    assert!(kept.enabled);
}

#[test]
fn application_layout() {
    let paths = AppPaths::layout("/home/u/.config/thasia", "/home/u/.local/share/thasia", "/home/u/.cache/thasia", "/src/crates/ui");
    assert_eq!(paths.settings, "/home/u/.config/thasia/settings.json");
    assert_eq!(paths.discovery_settings, "/home/u/.config/thasia/discovery.json");
    assert_eq!(paths.window_state, "/home/u/.config/thasia/window-state.json");
    assert_eq!(paths.logs, "/home/u/.local/share/thasia/logs");
    assert_eq!(paths.suwayomi, "/home/u/.local/share/thasia/suwayomi");
    assert_eq!(paths.assets, "/src/crates/ui/../../assets");
    let dirs = paths.required_dirs();
    assert_eq!(dirs.len(), 5);
    assert_eq!(dirs[0], paths.config_dir);
    assert_eq!(dirs[4], paths.suwayomi);
    assert_eq!(log_dir_under("/home/u/.local/share"), "/home/u/.local/share/com.thasia/logs");
}
