use mediarr_core::config::{
    default_config_path, default_data_path, Config, GeneralConfig, SubtitleConfig,
};
use mediarr_core::types::{ConflictStrategy, NonPreferredAction, RenameOperation, WatcherConfig};

// -- Default value tests per D-01 through D-13 --

#[test]
fn default_movie_template() {
    let config = Config::default();
    assert_eq!(
        config.templates.movie,
        "{title} ({year})/{title} ({year}).{ext}"
    );
}

#[test]
fn default_series_template() {
    let config = Config::default();
    assert_eq!(
        config.templates.series,
        "{title}/{title} - S{season:02}E{episode:02}.{ext}"
    );
}

#[test]
fn default_operation_is_move() {
    let config = Config::default();
    assert_eq!(config.general.operation, RenameOperation::Move);
}

#[test]
fn default_conflict_strategy_is_skip() {
    let config = Config::default();
    assert_eq!(config.general.conflict_strategy, ConflictStrategy::Skip);
}

#[test]
fn default_output_dir_is_none() {
    let config = Config::default();
    assert!(config.general.output_dir.is_none());
}

#[test]
fn default_create_directories_is_true() {
    let config = Config::default();
    assert!(config.general.create_directories);
}

#[test]
fn default_subtitles_enabled() {
    let config = Config::default();
    assert!(config.subtitles.enabled);
}

#[test]
fn default_discovery_toggles_all_true() {
    let config = Config::default();
    let toggles = &config.subtitles.discovery;
    assert!(toggles.sidecar);
    assert!(toggles.subs_subfolder);
    assert!(toggles.nested_language_folders);
    assert!(toggles.vobsub_pairs);
}

#[test]
fn default_preferred_languages_empty() {
    let config = Config::default();
    assert!(config.subtitles.preferred_languages.is_empty());
}

#[test]
fn default_non_preferred_action_is_ignore() {
    let config = Config::default();
    assert_eq!(
        config.subtitles.non_preferred_action,
        NonPreferredAction::Ignore
    );
}

// -- TOML round-trip --

#[test]
fn default_config_path_contains_mediarr() {
    // On any platform where dirs::config_dir() works, the path should
    // end with mediarr/config.toml.
    if let Ok(path) = default_config_path() {
        assert!(
            path.ends_with("mediarr/config.toml") || path.ends_with("mediarr\\config.toml")
        );
    }
    // If dirs::config_dir() returns None (unlikely on desktop), the
    // function should return ConfigPathUnavailable -- that's tested
    // implicitly by the error variant existing.
}

#[test]
fn default_data_path_contains_mediarr() {
    if let Ok(path) = default_data_path() {
        assert!(path.ends_with("mediarr/history.db") || path.ends_with("mediarr\\history.db"));
    }
}

#[test]
fn default_config_watchers_is_empty_vec() {
    let config = Config::default();
    assert!(config.watchers.is_empty());
}

#[test]
fn watcher_config_default_values() {
    let wc = WatcherConfig::default();
    assert_eq!(wc.path, String::new());
    assert_eq!(wc.mode, mediarr_core::types::WatcherMode::Auto);
    assert!(wc.active);
    assert_eq!(wc.debounce_seconds, 5);
    assert!(wc.settings.is_none());
}

#[test]
fn resolve_config_no_settings_returns_global() {
    let global = Config::default();
    let wc = WatcherConfig {
        path: String::from("/watch"),
        mode: mediarr_core::types::WatcherMode::Auto,
        active: true,
        debounce_seconds: 5,
        settings: None,
    };
    let resolved = wc.resolve_config(&global);
    assert_eq!(resolved, global);
}

#[test]
fn resolve_config_empty_settings_returns_global() {
    let global = Config::default();
    let wc = WatcherConfig {
        path: String::from("/watch"),
        mode: mediarr_core::types::WatcherMode::Auto,
        active: true,
        debounce_seconds: 5,
        settings: Some(mediarr_core::types::WatcherSettings::default()),
    };
    let resolved = wc.resolve_config(&global);
    assert_eq!(resolved, global);
}

#[test]
fn resolve_config_output_dir_override() {
    let global = Config {
        general: GeneralConfig {
            output_dir: Some(String::from("/global/output")),
            ..GeneralConfig::default()
        },
        ..Config::default()
    };
    let wc = WatcherConfig {
        path: String::from("/watch"),
        mode: mediarr_core::types::WatcherMode::Auto,
        active: true,
        debounce_seconds: 5,
        settings: Some(mediarr_core::types::WatcherSettings {
            output_dir: Some("/per-watcher/output".to_string()),
            ..mediarr_core::types::WatcherSettings::default()
        }),
    };
    let resolved = wc.resolve_config(&global);
    assert_eq!(resolved.general.output_dir, Some(String::from("/per-watcher/output")));
}

#[test]
fn resolve_config_output_dir_empty_string_means_none() {
    let global = Config {
        general: GeneralConfig {
            output_dir: Some(String::from("/global/output")),
            ..GeneralConfig::default()
        },
        ..Config::default()
    };
    let wc = WatcherConfig {
        path: String::from("/watch"),
        mode: mediarr_core::types::WatcherMode::Auto,
        active: true,
        debounce_seconds: 5,
        settings: Some(mediarr_core::types::WatcherSettings {
            output_dir: Some("".to_string()),
            ..mediarr_core::types::WatcherSettings::default()
        }),
    };
    let resolved = wc.resolve_config(&global);
    assert!(resolved.general.output_dir.is_none(), "empty string should force in-place (None)");
}

#[test]
fn resolve_config_movie_template_override() {
    let global = Config::default();
    let wc = WatcherConfig {
        path: String::from("/watch"),
        mode: mediarr_core::types::WatcherMode::Auto,
        active: true,
        debounce_seconds: 5,
        settings: Some(mediarr_core::types::WatcherSettings {
            movie_template: Some("{title}.{ext}".to_string()),
            ..mediarr_core::types::WatcherSettings::default()
        }),
    };
    let resolved = wc.resolve_config(&global);
    assert_eq!(resolved.templates.movie, "{title}.{ext}");
    // Non-overridden templates unchanged
    assert_eq!(resolved.templates.series, global.templates.series);
}

#[test]
fn resolve_config_subtitles_enabled_override() {
    let global = Config::default();
    assert!(global.subtitles.enabled); // default is true
    let wc = WatcherConfig {
        path: String::from("/watch"),
        mode: mediarr_core::types::WatcherMode::Auto,
        active: true,
        debounce_seconds: 5,
        settings: Some(mediarr_core::types::WatcherSettings {
            subtitles_enabled: Some(false),
            ..mediarr_core::types::WatcherSettings::default()
        }),
    };
    let resolved = wc.resolve_config(&global);
    assert!(!resolved.subtitles.enabled);
}

#[test]
fn resolve_config_preferred_languages_override() {
    let global = Config {
        subtitles: SubtitleConfig {
            preferred_languages: vec!["en".to_string()],
            ..SubtitleConfig::default()
        },
        ..Config::default()
    };
    let wc = WatcherConfig {
        path: String::from("/watch"),
        mode: mediarr_core::types::WatcherMode::Auto,
        active: true,
        debounce_seconds: 5,
        settings: Some(mediarr_core::types::WatcherSettings {
            preferred_languages: Some(vec!["ja".to_string(), "en".to_string()]),
            ..mediarr_core::types::WatcherSettings::default()
        }),
    };
    let resolved = wc.resolve_config(&global);
    assert_eq!(resolved.subtitles.preferred_languages, vec!["ja", "en"]);
}

#[test]
fn resolve_config_partial_overrides_leave_rest_global() {
    let global = Config {
        general: GeneralConfig {
            output_dir: Some(String::from("/global")),
            operation: RenameOperation::Move,
            conflict_strategy: ConflictStrategy::Skip,
            create_directories: true,
        },
        ..Config::default()
    };
    let wc = WatcherConfig {
        path: String::from("/watch"),
        mode: mediarr_core::types::WatcherMode::Auto,
        active: true,
        debounce_seconds: 5,
        settings: Some(mediarr_core::types::WatcherSettings {
            operation: Some(RenameOperation::Copy),
            ..mediarr_core::types::WatcherSettings::default()
        }),
    };
    let resolved = wc.resolve_config(&global);
    // Overridden
    assert_eq!(resolved.general.operation, RenameOperation::Copy);
    // Not overridden -- still global
    assert_eq!(resolved.general.output_dir, Some(String::from("/global")));
    assert_eq!(resolved.general.conflict_strategy, ConflictStrategy::Skip);
    assert!(resolved.general.create_directories);
}

