use mediarr_core::config::Config;
use mediarr_core::subtitle::{FileEntry, FolderListing};
use mediarr_core::types::{MediaInfo, MediaType, ParseConfidence, ScanStatus};
use mediarr_core::{MediError, Scanner};

fn movie(title: &str, year: u16, confidence: ParseConfidence) -> MediaInfo {
    let mut m = MediaInfo::default();
    m.title = title.to_string();
    m.media_type = MediaType::Movie;
    m.year = Some(year);
    m.container = "mkv".to_string();
    m.confidence = confidence;
    m
}

fn scanner_with_output(dir: &str) -> Scanner {
    let mut c = Config::default();
    c.general.output_dir = Some(dir.to_string());
    Scanner::new(c)
}

fn listing(names: &[&str]) -> FolderListing {
    FolderListing {
        entries: names
            .iter()
            .map(|n| FileEntry { name: n.to_string(), is_file: true, is_dir: false })
            .collect(),
        subfolders: vec![],
    }
}

#[test]
fn scan_parsed_places_under_output_dir() {
    let s = scanner_with_output("/out");
    let r = s
        .scan_parsed("/in/Inception.2010.mkv", movie("Inception", 2010, ParseConfidence::High), &listing(&[]))
        .unwrap();
    assert_eq!(r.proposed_path, "/out/Inception (2010)/Inception (2010).mkv");
    assert_eq!(r.status, ScanStatus::Okay);
    assert_eq!(r.source_path, "/in/Inception.2010.mkv");
}

#[test]
fn scan_parsed_finds_sidecar_subtitles() {
    let s = scanner_with_output("/out");
    let r = s
        .scan_parsed(
            "/in/Inception.2010.mkv",
            movie("Inception", 2010, ParseConfidence::Medium),
            &listing(&["Inception.2010.mkv", "Inception.2010.en.srt"]),
        )
        .unwrap();
    assert_eq!(r.status, ScanStatus::Ambiguous);
    assert_eq!(r.ambiguity_reason.as_deref(), Some("medium confidence parse"));
    assert_eq!(r.subtitles.len(), 1);
    assert_eq!(r.subtitles[0].proposed_path, "/out/Inception (2010)/Inception (2010).en.srt");
}

#[test]
fn folder_result_turns_parse_failure_into_error_entry() {
    let s = scanner_with_output("/out");
    let r = s.folder_result("/in/x.mkv", Err(MediError::NoTitle { filename: "x.mkv".into() }), &listing(&[]));
    assert_eq!(r.status, ScanStatus::Error);
    assert_eq!(r.ambiguity_reason.as_deref(), Some("parse error: no title extracted from filename: x.mkv"));
    assert!(r.proposed_path.is_empty());
}

#[test]
fn folder_result_renders_parsed_names() {
    let s = scanner_with_output("/out");
    let r = s.folder_result("/in/a.mkv", Ok(movie("Alpha", 1999, ParseConfidence::High)), &listing(&[]));
    assert_eq!(r.status, ScanStatus::Okay);
    assert_eq!(r.proposed_path, "/out/Alpha (1999)/Alpha (1999).mkv");
}
