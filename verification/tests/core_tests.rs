use mediarr_core::config::{Config, GeneralConfig};
use mediarr_core::error::MediError;
use mediarr_core::fs_util::{is_video_file, path_to_utf8};
use mediarr_core::renamer::Renamer;
use mediarr_core::scanner::{PathProbe, Scanner, WalkedEntry};
use mediarr_core::subtitle::FolderListing;
use mediarr_core::template::TemplateEngine;
use mediarr_core::types::{
    ConflictStrategy, MediaInfo, MediaType, ParseConfidence, RenameOperation, WatcherConfig,
    WatcherMode,
};
use std::path::{Path, PathBuf};

fn config_with_output(output_dir: &str) -> Config {
    let mut config = Config::default();
    config.general.output_dir = Some(output_dir.to_string());
    config
}

fn empty_listing() -> FolderListing {
    FolderListing { entries: vec![], subfolders: vec![] }
}

const MISSING: PathProbe = PathProbe { exists: false, is_file: false, is_dir: false };
const A_DIR: PathProbe = PathProbe { exists: true, is_file: false, is_dir: true };

fn test_media_info() -> MediaInfo {
    MediaInfo {
        title: "Test Movie".to_string(),
        media_type: MediaType::Movie,
        year: Some(2024),
        season: None,
        episodes: vec![],
        resolution: Some("1080p".to_string()),
        video_codec: Some("x264".to_string()),
        audio_codec: None,
        source: Some("BluRay".to_string()),
        release_group: Some("GROUP".to_string()),
        container: "mkv".to_string(),
        language: None,
        confidence: ParseConfidence::High,
    }
}

fn test_series_info() -> MediaInfo {
    MediaInfo {
        title: "The Office".to_string(),
        media_type: MediaType::Series,
        year: None,
        season: Some(2),
        episodes: vec![3],
        resolution: Some("720p".to_string()),
        video_codec: Some("x264".to_string()),
        audio_codec: None,
        source: Some("BluRay".to_string()),
        release_group: Some("DEMAND".to_string()),
        container: "mkv".to_string(),
        language: None,
        confidence: ParseConfidence::High,
    }
}

// ---------------------------------------------------------------------------
// Video file detection
// ---------------------------------------------------------------------------

#[test]
fn is_video_file_accepts_video_extensions() {
    let video_exts = [
        "mkv", "mp4", "avi", "m4v", "mov", "wmv", "ts", "flv", "webm",
    ];
    for ext in &video_exts {
        let path = PathBuf::from(format!("file.{ext}"));
        assert!(is_video_file(path.to_str().unwrap()), "{ext} should be recognised as video");
    }
}

#[test]
fn is_video_file_rejects_non_video_extensions() {
    let non_video = ["txt", "srt", "nfo", "jpg", "png", "sub", "idx", "ass"];
    for ext in &non_video {
        let path = PathBuf::from(format!("file.{ext}"));
        assert!(
            !is_video_file(path.to_str().unwrap()),
            "{ext} should NOT be recognised as video"
        );
    }
}

#[test]
fn is_video_file_case_insensitive() {
    assert!(is_video_file("file.MKV"));
    assert!(is_video_file("file.Mp4"));
    assert!(is_video_file("file.AVI"));
}

#[test]
fn is_video_file_rejects_no_extension() {
    assert!(!is_video_file("noextension"));
}

// ---------------------------------------------------------------------------
// Path text
// ---------------------------------------------------------------------------

#[test]
fn test_path_to_utf8_valid() {
    let path = PathBuf::from("/valid/utf8/path.txt");
    let result = path_to_utf8(path.as_os_str().as_encoded_bytes());
    assert_eq!(result.unwrap(), "/valid/utf8/path.txt");
}

#[test]
fn path_to_utf8_rejects_invalid_bytes() {
    let invalid_bytes: &[u8] = &[0xff, 0xfe];
    let result = path_to_utf8(invalid_bytes);
    match result {
        Err(e @ MediError::NonUtf8Path { .. }) => {
            assert!(matches!(&e, MediError::NonUtf8Path { path } if path == &vec![0xff, 0xfe]));
            assert_eq!(e.message(), "path contains non-UTF-8 bytes, cannot store: \u{fffd}\u{fffd}");
        }
        other => panic!("expected NonUtf8Path, got: {other:?}"),
    }
}

#[test]
fn path_to_utf8_errors_keep_distinct_paths_apart() {
    let a = path_to_utf8(&[b'/', 0xff]).unwrap_err();
    let b = path_to_utf8(&[b'/', 0xfe]).unwrap_err();
    match (a, b) {
        (MediError::NonUtf8Path { path: pa }, MediError::NonUtf8Path { path: pb }) => {
            assert_eq!(pa, vec![b'/', 0xff]);
            assert_eq!(pb, vec![b'/', 0xfe]);
        }
        _ => panic!("expected NonUtf8Path errors"),
    }
}

#[test]
fn path_to_utf8_decodes_multibyte_characters() {
    let text = "/films/Amélie (2001)/アメリ 🎬.mkv";
    assert_eq!(path_to_utf8(text.as_bytes()).unwrap(), text);
}

#[test]
fn path_to_utf8_rejects_overlong_and_surrogate_encodings() {
    assert!(path_to_utf8(&[0xc0, 0xaf]).is_err());
    assert!(path_to_utf8(&[0xed, 0xa0, 0x80]).is_err());
    assert!(path_to_utf8(&[0xe2, 0x82]).is_err());
}

// ---------------------------------------------------------------------------
// Renamer configuration
// ---------------------------------------------------------------------------

#[test]
fn from_config_reads_settings() {
    let config = GeneralConfig {
        output_dir: None,
        operation: RenameOperation::Copy,
        conflict_strategy: ConflictStrategy::NumericSuffix,
        create_directories: false,
    };

    let renamer = Renamer::from_config(&config);
    assert_eq!(renamer.operation, RenameOperation::Copy);
    assert_eq!(renamer.conflict_strategy, ConflictStrategy::NumericSuffix);
    assert!(!renamer.create_directories);
}

// ---------------------------------------------------------------------------
// Scanner error paths
// ---------------------------------------------------------------------------

#[test]
fn scan_nonexistent_path_returns_error() {
    let scanner = Scanner::new(config_with_output("/output"));
    let result = scanner.scan_folder("/nonexistent/path/12345", &MISSING, &vec![], &vec![], &vec![]);
    assert!(result.is_err());
    match result.unwrap_err() {
        MediError::ScanPathNotFound { .. } => {}
        other => panic!("expected ScanPathNotFound, got: {other:?}"),
    }
}

#[test]
fn scan_file_nonexistent_returns_error() {
    let scanner = Scanner::new(config_with_output("/output"));
    let result = scanner.scan_file("/nonexistent/file/12345.mkv", &MISSING, &empty_listing());
    assert!(result.is_err());
    match result.unwrap_err() {
        MediError::ScanPathNotFound { .. } => {}
        other => panic!("expected ScanPathNotFound, got: {other:?}"),
    }
}

#[test]
fn scan_file_on_directory_returns_error() {
    let scanner = Scanner::new(config_with_output("/output"));
    let result = scanner.scan_file("/tmp/work", &A_DIR, &empty_listing());
    assert!(result.is_err());
    match result.unwrap_err() {
        MediError::ParseFailed(_) => {}
        other => panic!("expected ParseFailed for directory, got: {other:?}"),
    }
}

#[test]
fn scan_empty_directory_returns_empty_results() {
    let scanner = Scanner::new(config_with_output("/output"));
    let walked: Vec<WalkedEntry> = vec![];
    let results = scanner.scan_folder("/tmp/source", &A_DIR, &walked, &vec![], &vec![]).unwrap();
    assert!(results.is_empty(), "empty directory should produce no results");
}

// ---------------------------------------------------------------------------
// Front-end commands
// ---------------------------------------------------------------------------

#[test]
fn get_config_returns_default() {
    let config = Config::default();

    assert_eq!(
        config.general.operation,
        RenameOperation::Move,
        "Default operation should be Move"
    );
    assert!(
        !config.templates.movie.is_empty(),
        "Default movie template should be populated"
    );
    assert!(
        !config.templates.series.is_empty(),
        "Default series template should be populated"
    );
}

#[test]
fn preview_template_renders_correctly() {
    let engine = TemplateEngine::new();
    let info = test_media_info();

    let result = engine.render("{title} ({year}).{ext}", &info).unwrap();
    let rendered = PathBuf::from(result).to_string_lossy().into_owned();

    assert!(
        rendered.contains("Test Movie"),
        "Rendered should contain title, got: {}",
        rendered
    );
    assert!(
        rendered.contains("2024"),
        "Rendered should contain year, got: {}",
        rendered
    );
    assert!(
        rendered.contains("mkv"),
        "Rendered should contain extension, got: {}",
        rendered
    );
}

#[test]
fn preview_template_renders_series() {
    let engine = TemplateEngine::new();
    let info = test_series_info();

    let result = engine
        .render("{title} - S{season:02}E{episode:02}.{ext}", &info)
        .unwrap();
    let rendered = PathBuf::from(result).to_string_lossy().into_owned();

    assert!(
        rendered.contains("The Office"),
        "Should contain series title"
    );
    assert!(rendered.contains("S02E03"), "Should contain season/episode");
    assert!(rendered.contains("mkv"), "Should contain extension");
}

#[test]
fn validate_template_returns_warnings_for_missing_required() {
    let engine = TemplateEngine::new();

    let warnings = engine.validate("{title}", &MediaType::Movie);

    assert!(
        !warnings.is_empty(),
        "Template missing required variables should produce warnings"
    );
    assert!(
        warnings.iter().any(|w| w.variable == "year"),
        "Should warn about missing year variable, got: {:?}",
        warnings
    );
    assert!(
        warnings.iter().any(|w| w.variable == "ext"),
        "Should warn about missing ext variable, got: {:?}",
        warnings
    );
}

#[test]
fn validate_template_valid_returns_no_warnings() {
    let engine = TemplateEngine::new();

    let warnings = engine.validate("{title} ({year}).{ext}", &MediaType::Movie);

    assert!(
        warnings.is_empty(),
        "Valid template should produce no warnings, got: {:?}",
        warnings
    );
}

#[test]
fn list_watchers_returns_configured() {
    let mut config = Config::default();
    config.watchers.push(WatcherConfig {
        path: "/tmp/test".to_string(),
        mode: WatcherMode::Auto,
        active: true,
        debounce_seconds: 5,
        settings: None,
    });

    assert_eq!(config.watchers.len(), 1);
    assert_eq!(Path::new(&config.watchers[0].path), PathBuf::from("/tmp/test"));
    assert_eq!(config.watchers[0].mode, WatcherMode::Auto);
    assert!(config.watchers[0].active);
}
