use mediarr_core::error::MediError;
use mediarr_core::parser::{
    extract_extension, infer_type_from_fields, is_season_only_title, map_confidence,
    merge_folder_context, merge_folder_levels, parse_filename, parse_with_context,
    safe_i32_to_u16, strip_duplicate_year_suffix, map_hunch_result, HunchConfidence, HunchOutput,
};
use mediarr_core::types::{FolderContext, MediaInfo, MediaType, ParseConfidence};

// ── Core parsing tests ──

#[test]
fn parse_series_with_full_metadata() {
    let info = parse_filename("The.Office.S02E03.720p.BluRay.x264-DEMAND.mkv").unwrap();
    assert_eq!(info.title, "The Office");
    assert_eq!(info.media_type, MediaType::Series);
    assert_eq!(info.season, Some(2));
    assert_eq!(info.episodes, vec![3]);
    assert_eq!(info.resolution.as_deref(), Some("720p"));
    assert_eq!(info.container, "mkv");
}

#[test]
fn parse_movie_with_year() {
    let info = parse_filename("Inception.2010.1080p.BluRay.x264-GROUP.mkv").unwrap();
    assert_eq!(info.title, "Inception");
    assert_eq!(info.media_type, MediaType::Movie);
    assert_eq!(info.year, Some(2010));
}

// ── Anime detection tests ──

#[test]
fn detect_anime_bracket_group_maps_to_series() {
    let info = parse_filename("[SubGroup] Naruto - 01 [1080p].mkv").unwrap();
    assert_eq!(info.media_type, MediaType::Series);
}

#[test]
fn detect_anime_crc32_maps_to_series() {
    let info = parse_filename("[SubGroup] Naruto - 01 [ABCD1234].mkv").unwrap();
    assert_eq!(info.media_type, MediaType::Series);
}

// ── Multi-episode tests ──

#[test]
fn parse_multi_episode() {
    let info = parse_filename("The.Office.S02E05E06.720p.mkv").unwrap();
    assert!(
        info.episodes.contains(&5) && info.episodes.contains(&6),
        "Expected episodes [5, 6], got {:?}",
        info.episodes
    );
}

// ── Context-aware parsing ──

#[test]
fn parse_with_context_does_not_panic() {
    let siblings = &["Show.S01E01.720p.mkv", "Show.S01E02.720p.mkv"];
    let result = parse_with_context("Show.S01E03.720p.mkv", siblings);
    assert!(result.is_ok());
}

// ── Error handling tests ──

#[test]
fn no_title_returns_error() {
    // An empty string or one that is purely an extension
    let result = parse_filename(".mkv");
    match result {
        Err(MediError::NoTitle { .. }) => {} // expected
        Ok(info) => {
            panic!(
                "Expected NoTitle error for bare extension, but got Ok with title {:?}",
                info.title
            );
        }
        Err(e) => panic!("Expected NoTitle error, got: {e:?}"),
    }
}

// ── i32 to u16 safe conversion ──

#[test]
fn safe_conversion_valid() {
    assert_eq!(safe_i32_to_u16(Some(5), "test", "test.mkv"), Some(5));
    assert_eq!(safe_i32_to_u16(Some(0), "test", "test.mkv"), Some(0));
    assert_eq!(
        safe_i32_to_u16(Some(65535), "test", "test.mkv"),
        Some(65535)
    );
}

#[test]
fn safe_conversion_negative() {
    assert_eq!(safe_i32_to_u16(Some(-1), "test", "test.mkv"), None);
}

#[test]
fn safe_conversion_overflow() {
    assert_eq!(safe_i32_to_u16(Some(65536), "test", "test.mkv"), None);
}

#[test]
fn safe_conversion_none() {
    assert_eq!(safe_i32_to_u16(None, "test", "test.mkv"), None);
}

// ── Confidence mapping ──

#[test]
fn inferred_type_gets_medium_confidence() {
    // When type is inferred, High should be downgraded to Medium
    let confidence = map_confidence(HunchConfidence::High, true);
    assert_eq!(confidence, ParseConfidence::Medium);
}

#[test]
fn non_inferred_type_keeps_high_confidence() {
    let confidence = map_confidence(HunchConfidence::High, false);
    assert_eq!(confidence, ParseConfidence::High);
}

// ── Type inference ──

#[test]
fn infer_series_from_season() {
    let (media_type, confidence) = infer_type_from_fields(true, false, false);
    assert_eq!(media_type, MediaType::Series);
    assert_eq!(confidence, ParseConfidence::Medium);
}

#[test]
fn infer_series_from_episode() {
    let (media_type, confidence) = infer_type_from_fields(false, true, false);
    assert_eq!(media_type, MediaType::Series);
    assert_eq!(confidence, ParseConfidence::Medium);
}

#[test]
fn infer_movie_from_year() {
    let (media_type, confidence) = infer_type_from_fields(false, false, true);
    assert_eq!(media_type, MediaType::Movie);
    assert_eq!(confidence, ParseConfidence::Medium);
}

#[test]
fn infer_default_series_low_confidence() {
    let (media_type, confidence) = infer_type_from_fields(false, false, false);
    assert_eq!(media_type, MediaType::Series);
    assert_eq!(confidence, ParseConfidence::Low);
}

// ── Extension extraction ──

#[test]
fn extract_extension_basic() {
    assert_eq!(extract_extension("movie.mkv"), "mkv");
}

#[test]
fn extract_extension_with_path() {
    assert_eq!(extract_extension("/some/path/movie.mp4"), "mp4");
}

#[test]
fn extract_extension_no_extension() {
    assert_eq!(extract_extension("noext"), "");
}

// ── Edge cases ──

#[test]
fn empty_string_does_not_panic() {
    let result = parse_filename("");
    // Should return an error, not panic
    assert!(result.is_err() || result.is_ok());
}

#[test]
fn very_long_filename_does_not_panic() {
    let long = format!("{}_{}.mkv", "a".repeat(500), "S01E01");
    let result = parse_filename(&long);
    // Should not panic regardless of outcome
    assert!(result.is_err() || result.is_ok());
}

#[test]
fn container_fallback_to_extension() {
    // When hunch doesn't detect container, we fall back to the file extension
    let info = parse_filename("Some.Movie.2024.weird_ext").unwrap();
    // The container should be extracted from the filename
    assert!(!info.container.is_empty());
}

// ── Season defaulting for episode-only filenames ──

#[test]
fn episode_only_series_defaults_season_to_one() {
    // Files like "Show.E05.mkv" have episode but no season.
    // Parser should default season to 1 to avoid "SE05" in templates.
    let info = parse_filename("Some.Show.E05.720p.mkv").unwrap();
    assert_eq!(
        info.season,
        Some(1),
        "season should default to 1 when episodes present but season missing"
    );
    assert_eq!(info.episodes, vec![5]);
}

#[test]
fn explicit_season_is_not_overridden() {
    // Files with explicit season should keep their parsed value
    let info = parse_filename("The.Office.S02E03.720p.mkv").unwrap();
    assert_eq!(info.season, Some(2));
    assert_eq!(info.episodes, vec![3]);
}

#[test]
fn movie_without_season_stays_none() {
    // Movies should NOT get a default season
    let info = parse_filename("Inception.2010.1080p.BluRay.mkv").unwrap();
    assert_eq!(info.season, None);
}

// -----------------------------------------------------------------------
// merge_folder_levels tests
// -----------------------------------------------------------------------

#[test]
fn merge_folder_levels_both_none_returns_none() {
    let result = merge_folder_levels(&None, &None);
    assert!(result.is_none());
}

#[test]
fn merge_folder_levels_parent_only() {
    let parent = MediaInfo {
        title: "Show".into(),
        season: Some(2),
        ..Default::default()
    };
    let result = merge_folder_levels(&Some(parent), &None).unwrap();
    assert_eq!(result.title, "Show");
    assert_eq!(result.season, Some(2));
}

#[test]
fn merge_folder_levels_grandparent_only() {
    let gp = MediaInfo {
        title: "Show".into(),
        year: Some(2020),
        ..Default::default()
    };
    let result = merge_folder_levels(&None, &Some(gp)).unwrap();
    assert_eq!(result.title, "Show");
    assert_eq!(result.year, Some(2020));
}

#[test]
fn merge_folder_levels_season_only_parent_uses_grandparent_title() {
    // Plex convention: "Game of Thrones/Season 02/file.mkv"
    let parent = MediaInfo {
        title: "Season 02".into(),
        season: Some(2),
        ..Default::default()
    };
    let gp = MediaInfo {
        title: "Game of Thrones".into(),
        year: Some(2011),
        ..Default::default()
    };
    let result = merge_folder_levels(&Some(parent), &Some(gp)).unwrap();
    assert_eq!(result.title, "Game of Thrones"); // grandparent title
    assert_eq!(result.season, Some(2)); // parent season
    assert_eq!(result.year, Some(2011)); // grandparent year (parent had None)
}

#[test]
fn merge_folder_levels_parent_season_wins_over_grandparent() {
    // Conflicting seasons: parent=2, grandparent=5 -> parent wins
    let parent = MediaInfo {
        title: "Fire Country".into(),
        season: Some(2),
        ..Default::default()
    };
    let gp = MediaInfo {
        title: "Shows".into(),
        season: Some(5),
        ..Default::default()
    };
    let result = merge_folder_levels(&Some(parent), &Some(gp)).unwrap();
    assert_eq!(result.season, Some(2)); // parent season wins
    assert_eq!(result.title, "Fire Country"); // parent title wins (not season-only)
}

#[test]
fn merge_folder_levels_parent_year_wins_over_grandparent() {
    let parent = MediaInfo {
        title: "Show".into(),
        year: Some(2024),
        ..Default::default()
    };
    let gp = MediaInfo {
        title: "Collection".into(),
        year: Some(2020),
        ..Default::default()
    };
    let result = merge_folder_levels(&Some(parent), &Some(gp)).unwrap();
    assert_eq!(result.year, Some(2024)); // parent year wins
}

#[test]
fn is_season_only_title_detects_patterns() {
    assert!(is_season_only_title("Season 02"));
    assert!(is_season_only_title("season 5"));
    assert!(is_season_only_title("Season  3")); // extra space
    assert!(!is_season_only_title("Fire Country S2"));
    assert!(!is_season_only_title("Breaking Bad"));
    assert!(!is_season_only_title("Season")); // no number
    assert!(!is_season_only_title("")); // empty
}

// -----------------------------------------------------------------------
// merge_folder_context tests
// -----------------------------------------------------------------------

#[test]
fn merge_empty_folder_context_returns_unchanged() {
    let file = MediaInfo {
        title: "Test".into(),
        ..Default::default()
    };
    let ctx = FolderContext::default();
    let (result, ambiguity) = merge_folder_context(file, &ctx);
    assert_eq!(result.title, "Test");
    assert!(ambiguity.is_none());
}

#[test]
fn merge_fills_season_gap_from_folder() {
    // D-02: file has no season, folder has season=2 -> inherited
    let file = MediaInfo {
        title: "Fire Country".into(),
        media_type: MediaType::Series,
        episodes: vec![1],
        ..Default::default()
    };
    let folder_parent = MediaInfo {
        title: "Fire Country".into(),
        season: Some(2),
        confidence: ParseConfidence::Medium,
        ..Default::default()
    };
    let ctx = FolderContext {
        parent: Some(folder_parent),
        grandparent: None,
    };
    let (result, ambiguity) = merge_folder_context(file, &ctx);
    assert_eq!(result.season, Some(2));
    assert!(ambiguity
        .as_ref()
        .unwrap()
        .contains("season 2 inherited from folder"));
}

#[test]
fn merge_file_wins_tiebreaker_on_equal_confidence() {
    // D-01: file Medium + folder Medium -> file wins
    let file = MediaInfo {
        title: "Show".into(),
        season: Some(3),
        confidence: ParseConfidence::Medium,
        ..Default::default()
    };
    let folder_parent = MediaInfo {
        season: Some(2),
        confidence: ParseConfidence::Medium,
        ..Default::default()
    };
    let ctx = FolderContext {
        parent: Some(folder_parent),
        grandparent: None,
    };
    let (result, _) = merge_folder_context(file, &ctx);
    assert_eq!(result.season, Some(3)); // file season kept
}

#[test]
fn merge_folder_wins_on_higher_confidence() {
    // D-01: file Medium + folder High -> folder wins
    let file = MediaInfo {
        title: "Show".into(),
        season: Some(3),
        confidence: ParseConfidence::Medium,
        ..Default::default()
    };
    let folder_parent = MediaInfo {
        season: Some(2),
        confidence: ParseConfidence::High,
        ..Default::default()
    };
    let ctx = FolderContext {
        parent: Some(folder_parent),
        grandparent: None,
    };
    let (result, ambiguity) = merge_folder_context(file, &ctx);
    assert_eq!(result.season, Some(2)); // folder season wins
    assert!(ambiguity.as_ref().unwrap().contains("overridden"));
}

#[test]
fn merge_movie_promoted_to_series_when_folder_has_season() {
    // D-05: Movie + folder.season -> Series, flagged ambiguous
    let file = MediaInfo {
        title: "Fire Country".into(),
        media_type: MediaType::Movie,
        confidence: ParseConfidence::Medium,
        ..Default::default()
    };
    let folder_parent = MediaInfo {
        title: "Fire Country S2".into(),
        season: Some(2),
        confidence: ParseConfidence::Medium,
        ..Default::default()
    };
    let ctx = FolderContext {
        parent: Some(folder_parent),
        grandparent: None,
    };
    let (result, ambiguity) = merge_folder_context(file, &ctx);
    assert_eq!(result.media_type, MediaType::Series);
    assert_eq!(result.season, Some(2));
    assert!(ambiguity.as_ref().unwrap().contains("promoted"));
    assert!(ambiguity.as_ref().unwrap().contains("Movie to Series"));
}

#[test]
fn merge_no_promotion_without_season() {
    // D-06: folder has title only (no season) -> no promotion
    let file = MediaInfo {
        title: "Breaking Bad".into(),
        media_type: MediaType::Movie,
        confidence: ParseConfidence::Low,
        ..Default::default()
    };
    let folder_parent = MediaInfo {
        title: "Breaking Bad".into(),
        confidence: ParseConfidence::Low,
        ..Default::default()
    };
    let ctx = FolderContext {
        parent: Some(folder_parent),
        grandparent: None,
    };
    let (result, ambiguity) = merge_folder_context(file, &ctx);
    assert_eq!(result.media_type, MediaType::Movie); // stays Movie
    assert!(ambiguity.is_none());
}

#[test]
fn merge_flags_missing_episode_after_season_inheritance() {
    // D-07/D-08: season inherited, no episode -> specific ambiguity reason
    let file = MediaInfo {
        title: "Fire Country".into(),
        media_type: MediaType::Movie, // will be promoted
        episodes: vec![],
        confidence: ParseConfidence::Low,
        ..Default::default()
    };
    let folder_parent = MediaInfo {
        title: "Fire Country".into(),
        season: Some(2),
        confidence: ParseConfidence::Medium,
        ..Default::default()
    };
    let ctx = FolderContext {
        parent: Some(folder_parent),
        grandparent: None,
    };
    let (result, ambiguity) = merge_folder_context(file, &ctx);
    assert_eq!(result.media_type, MediaType::Series); // promoted
    let reason = ambiguity.unwrap();
    assert!(
        reason.contains("season inherited from folder, episode missing"),
        "got: {reason}"
    );
}

#[test]
fn merge_grandparent_title_used_for_season_folder() {
    // D-03/D-04: Plex convention with two-level context
    let file = MediaInfo {
        title: "Game of Thrones".into(),
        episodes: vec![5],
        media_type: MediaType::Series,
        confidence: ParseConfidence::High,
        ..Default::default()
    };
    let parent = MediaInfo {
        title: "Season 02".into(),
        season: Some(2),
        confidence: ParseConfidence::Medium,
        ..Default::default()
    };
    let grandparent = MediaInfo {
        title: "Game of Thrones".into(),
        year: Some(2011),
        confidence: ParseConfidence::Low,
        ..Default::default()
    };
    let ctx = FolderContext {
        parent: Some(parent),
        grandparent: Some(grandparent),
    };
    let (result, _) = merge_folder_context(file, &ctx);
    // File already had season=None, so folder fills gap
    assert_eq!(result.season, Some(2));
    // Title stays from file (High confidence file title beats folder)
    assert_eq!(result.title, "Game of Thrones");
}

#[test]
fn merge_year_gap_filled_from_folder() {
    // Year gap-fill: file has no year, folder has year -> inherited
    let file = MediaInfo {
        title: "Hostage".into(),
        media_type: MediaType::Movie,
        confidence: ParseConfidence::Medium,
        ..Default::default()
    };
    let folder_parent = MediaInfo {
        title: "Hostage".into(),
        year: Some(2020),
        confidence: ParseConfidence::Medium,
        ..Default::default()
    };
    let ctx = FolderContext {
        parent: Some(folder_parent),
        grandparent: None,
    };
    let (result, _) = merge_folder_context(file, &ctx);
    assert_eq!(result.year, Some(2020)); // year inherited
}

#[test]
fn merge_title_gap_filled_when_file_title_empty() {
    let file = MediaInfo {
        title: String::new(),
        confidence: ParseConfidence::Low,
        ..Default::default()
    };
    let folder_parent = MediaInfo {
        title: "My Show".into(),
        confidence: ParseConfidence::Medium,
        ..Default::default()
    };
    let ctx = FolderContext {
        parent: Some(folder_parent),
        grandparent: None,
    };
    let (result, _) = merge_folder_context(file, &ctx);
    assert_eq!(result.title, "My Show");
}

// -----------------------------------------------------------------------
// strip_duplicate_year_suffix tests
// -----------------------------------------------------------------------

#[test]
fn strip_year_suffix_space_separated() {
    assert_eq!(
        strip_duplicate_year_suffix("lioness 2016", Some(2016)).as_deref(),
        Some("lioness")
    );
}

#[test]
fn strip_year_suffix_dot_separated() {
    assert_eq!(
        strip_duplicate_year_suffix("lioness.2016", Some(2016)).as_deref(),
        Some("lioness")
    );
}

#[test]
fn strip_year_suffix_ignores_non_matching_trailing_number() {
    // "Blade Runner 2049" with year 2017 -- 2049 is part of the title.
    assert_eq!(
        strip_duplicate_year_suffix("Blade Runner 2049", Some(2017)),
        None
    );
}

#[test]
fn strip_year_suffix_refuses_to_empty_the_title() {
    assert_eq!(strip_duplicate_year_suffix("2016", Some(2016)), None);
}

#[test]
fn strip_year_suffix_no_trailing_year_token() {
    assert_eq!(strip_duplicate_year_suffix("lioness", Some(2016)), None);
}

#[test]
fn strip_year_suffix_requires_a_parsed_year() {
    assert_eq!(strip_duplicate_year_suffix("lioness 2016", None), None);
}

// -----------------------------------------------------------------------
// restore_bare_season_suffix tests -- a bare single-digit season-like token
// at the end of a title is title text, not a season marker.
// -----------------------------------------------------------------------

#[test]
fn bare_season_token_stays_in_folder_title() {
    let info = parse_filename("Fumetsu no Anata e S3").unwrap();
    assert_eq!(info.title, "Fumetsu no Anata e S3");
    assert_eq!(info.season, None);
}

#[test]
fn bare_season_token_stays_in_anime_release_title() {
    let info = parse_filename("[SubsPlease] Fumetsu no Anata e S3 - 01 (1080p) [A1B2C3D4].mkv")
        .unwrap();
    assert_eq!(info.title, "Fumetsu no Anata e S3");
    assert_eq!(info.episodes, vec![1]);
    // D-A1: no season comes from the bare token, so the pre-existing
    // "episode present, season missing -> season 1" default applies.
    assert_eq!(info.season, Some(1));
}

#[test]
fn bare_season_token_stays_in_series_title() {
    let info = parse_filename("Fire Country S2").unwrap();
    assert_eq!(info.title, "Fire Country S2");
    assert_eq!(info.season, None);
}

#[test]
fn zero_padded_season_token_is_a_real_season() {
    let info = parse_filename("Show S03").unwrap();
    assert_eq!(info.title, "Show");
    assert_eq!(info.season, Some(3));
}

#[test]
fn zero_padded_season_token_is_a_real_season_in_anime_release() {
    let info = parse_filename("[SP] Show S03 - 01 (1080p).mkv").unwrap();
    assert_eq!(info.title, "Show");
    assert_eq!(info.season, Some(3));
    assert_eq!(info.episodes, vec![1]);
}

#[test]
fn combined_season_episode_token_is_a_real_season() {
    let info = parse_filename("Show.s3e01.mkv").unwrap();
    assert_eq!(info.title, "Show");
    assert_eq!(info.season, Some(3));
    assert_eq!(info.episodes, vec![1]);
}

#[test]
fn standard_season_episode_filename_is_unaffected() {
    let info = parse_filename("The.Office.S02E03.720p.BluRay.x264-DEMAND.mkv").unwrap();
    assert_eq!(info.title, "The Office");
    assert_eq!(info.season, Some(2));
    assert_eq!(info.episodes, vec![3]);
}

#[test]
fn two_digit_season_token_is_never_bare() {
    let info = parse_filename("Show S12").unwrap();
    assert_eq!(info.title, "Show");
    assert_eq!(info.season, Some(12));
}

#[test]
fn merge_strips_year_suffix_once_folder_supplies_the_year() {
    // hunch's cross-file invariance produces title "lioness 2016" with NO
    // year for the file itself; the parent folder "lioness (2016)" is what
    // fills the year gap, so the strip has to run again after the merge.
    let file = MediaInfo {
        title: "lioness 2016".into(),
        media_type: MediaType::Series,
        season: Some(3),
        episodes: vec![1],
        confidence: ParseConfidence::High,
        ..Default::default()
    };
    let folder_parent = MediaInfo {
        title: "lioness".into(),
        year: Some(2016),
        confidence: ParseConfidence::High,
        ..Default::default()
    };
    let ctx = FolderContext {
        parent: Some(folder_parent),
        grandparent: None,
    };
    let (result, _) = merge_folder_context(file, &ctx);
    assert_eq!(result.title, "lioness");
    assert_eq!(result.year, Some(2016));
}

// ── Mapping of the parser's properties ──

fn hunch(confidence: HunchConfidence, props: &[(&str, &[&str])]) -> HunchOutput {
    HunchOutput {
        confidence,
        properties: props
            .iter()
            .map(|(k, vs)| (k.to_string(), vs.iter().map(|v| v.to_string()).collect()))
            .collect(),
    }
}

#[test]
fn reported_movie_type_is_kept_without_year() {
    let out = hunch(HunchConfidence::High, &[("title", &["Inception"]), ("type", &["movie"])]);
    let info = map_hunch_result(&out, "Inception.mkv").unwrap();
    assert_eq!(info.title, "Inception");
    assert_eq!(info.media_type, MediaType::Movie);
    assert_eq!(info.confidence, ParseConfidence::High);
}

#[test]
fn reported_episode_type_maps_to_series() {
    let out = hunch(
        HunchConfidence::High,
        &[("title", &["Show"]), ("type", &["episode"]), ("season", &["2"]), ("episode", &["5"])],
    );
    let info = map_hunch_result(&out, "Show.S02E05.mkv").unwrap();
    assert_eq!(info.media_type, MediaType::Series);
    assert_eq!(info.confidence, ParseConfidence::High);
    assert_eq!(info.season, Some(2));
    assert_eq!(info.episodes, vec![5]);
}

#[test]
fn missing_type_is_inferred_with_lower_confidence() {
    let out = hunch(HunchConfidence::High, &[("title", &["Inception"]), ("year", &["2010"])]);
    let info = map_hunch_result(&out, "Inception.2010.mkv").unwrap();
    assert_eq!(info.media_type, MediaType::Movie);
    assert_eq!(info.confidence, ParseConfidence::Medium);
}
