use mediarr_core::error::MediError;
use mediarr_core::template::TemplateEngine;
use mediarr_core::types::{MediaInfo, MediaType, ParseConfidence};
use std::path::PathBuf;

/// Renders and returns the path as a `PathBuf`, as callers compare it.
fn render(engine: &TemplateEngine, template: &str, info: &MediaInfo) -> Result<PathBuf, MediError> {
    engine.render(template, info).map(PathBuf::from)
}

// -----------------------------------------------------------------------
// Helper: build a MediaInfo for testing
// -----------------------------------------------------------------------
fn movie_info() -> MediaInfo {
    MediaInfo {
        title: "Inception".to_string(),
        media_type: MediaType::Movie,
        year: Some(2010),
        season: None,
        episodes: vec![],
        resolution: Some("1080p".to_string()),
        video_codec: Some("x264".to_string()),
        audio_codec: Some("DTS".to_string()),
        source: Some("BluRay".to_string()),
        release_group: Some("FGT".to_string()),
        container: "mkv".to_string(),
        language: Some("English".to_string()),
        confidence: ParseConfidence::High,
    }
}

fn series_info() -> MediaInfo {
    MediaInfo {
        title: "The Office".to_string(),
        media_type: MediaType::Series,
        year: Some(2005),
        season: Some(2),
        episodes: vec![3],
        resolution: Some("720p".to_string()),
        video_codec: Some("H.264".to_string()),
        audio_codec: Some("AAC".to_string()),
        source: Some("WEB-DL".to_string()),
        release_group: Some("LOL".to_string()),
        container: "mkv".to_string(),
        language: None,
        confidence: ParseConfidence::High,
    }
}

fn multi_episode_info() -> MediaInfo {
    MediaInfo {
        title: "Breaking Bad".to_string(),
        media_type: MediaType::Series,
        year: Some(2008),
        season: Some(2),
        episodes: vec![5, 6],
        resolution: Some("1080p".to_string()),
        video_codec: None,
        audio_codec: None,
        source: None,
        release_group: None,
        container: "mkv".to_string(),
        language: None,
        confidence: ParseConfidence::High,
    }
}

fn triple_episode_info() -> MediaInfo {
    MediaInfo {
        title: "Breaking Bad".to_string(),
        media_type: MediaType::Series,
        year: Some(2008),
        season: Some(1),
        episodes: vec![1, 2, 3],
        resolution: None,
        video_codec: None,
        audio_codec: None,
        source: None,
        release_group: None,
        container: "mkv".to_string(),
        language: None,
        confidence: ParseConfidence::Medium,
    }
}

// -----------------------------------------------------------------------
// Rendering: single value variables
// -----------------------------------------------------------------------

#[test]
fn render_simple_title() {
    let engine = TemplateEngine::new();
    let info = movie_info();
    let result = render(&engine, "{title}.{ext}", &info).unwrap();
    assert_eq!(result, PathBuf::from("Inception.mkv"));
}

#[test]
fn render_movie_template_with_year() {
    let engine = TemplateEngine::new();
    let info = movie_info();
    let result = render(&engine, "{title} ({year})/{title} ({year}).{ext}", &info)
        .unwrap();
    assert_eq!(
        result,
        PathBuf::from("Inception (2010)").join("Inception (2010).mkv")
    );
}

#[test]
fn render_series_template_with_zero_padding() {
    let engine = TemplateEngine::new();
    let info = series_info();
    let result = render(&engine, "{title} - S{season:02}E{episode:02}.{ext}", &info)
        .unwrap();
    assert_eq!(result, PathBuf::from("The Office - S02E03.mkv"));
}

#[test]
fn render_all_optional_fields() {
    let engine = TemplateEngine::new();
    let info = movie_info();
    let result = render(&engine, "{title} ({year}) [{resolution}] [{video_codec}] [{audio_codec}] [{source}] - {release_group}.{ext}",
            &info,
        )
        .unwrap();
    assert_eq!(
        result,
        PathBuf::from("Inception (2010) [1080p] [x264] [DTS] [BluRay] - FGT.mkv")
    );
}

#[test]
fn render_language_field() {
    let engine = TemplateEngine::new();
    let info = movie_info();
    let result = render(&engine, "{title}.{language}.{ext}", &info).unwrap();
    assert_eq!(result, PathBuf::from("Inception.English.mkv"));
}

#[test]
fn render_ext_without_modifier() {
    let engine = TemplateEngine::new();
    let info = movie_info();
    let result = render(&engine, "{title}.{ext}", &info).unwrap();
    assert_eq!(result, PathBuf::from("Inception.mkv"));
}

// -----------------------------------------------------------------------
// Rendering: empty optional fields / dot collapse
// -----------------------------------------------------------------------

#[test]
fn render_empty_year_no_double_dots() {
    let engine = TemplateEngine::new();
    let mut info = movie_info();
    info.year = None;
    // "{title}.{year}.{ext}" with no year should collapse to "Inception.mkv"
    let result = render(&engine, "{title}.{year}.{ext}", &info).unwrap();
    assert_eq!(result, PathBuf::from("Inception.mkv"));
}

#[test]
fn render_empty_language_dot_collapse() {
    let engine = TemplateEngine::new();
    let mut info = movie_info();
    info.language = None;
    let result = render(&engine, "{title}.{language}.{ext}", &info).unwrap();
    assert_eq!(result, PathBuf::from("Inception.mkv"));
}

#[test]
fn render_subtitle_type_empty_collapse() {
    // Simulates "name.{type}.srt" where type is empty -> "name.srt"
    let engine = TemplateEngine::new();
    let mut info = series_info();
    info.resolution = None;
    // Use resolution as a stand-in for testing empty collapse
    let result = render(&engine, "{title}.{resolution}.{ext}", &info).unwrap();
    assert_eq!(result, PathBuf::from("The Office.mkv"));
}

// -----------------------------------------------------------------------
// Rendering: multi-episode (CRITICAL)
// -----------------------------------------------------------------------

#[test]
fn render_multi_episode_two() {
    let engine = TemplateEngine::new();
    let info = multi_episode_info();
    let result = render(&engine, "S{season:02}E{episode:02}.{ext}", &info)
        .unwrap();
    // episodes=[5,6] -> "S02E05E06.mkv"
    assert_eq!(result, PathBuf::from("S02E05E06.mkv"));
}

#[test]
fn render_multi_episode_three() {
    let engine = TemplateEngine::new();
    let info = triple_episode_info();
    let result = render(&engine, "S{season:02}E{episode:02}.{ext}", &info)
        .unwrap();
    // episodes=[1,2,3] -> "S01E01E02E03.mkv"
    assert_eq!(result, PathBuf::from("S01E01E02E03.mkv"));
}

#[test]
fn render_single_episode() {
    let engine = TemplateEngine::new();
    let info = series_info();
    let result = render(&engine, "S{season:02}E{episode:02}.{ext}", &info)
        .unwrap();
    // episodes=[3] -> "S02E03.mkv"
    assert_eq!(result, PathBuf::from("S02E03.mkv"));
}

#[test]
fn render_empty_episodes() {
    let engine = TemplateEngine::new();
    let mut info = movie_info();
    info.episodes = vec![];
    // episode with no episodes -> empty string
    let result = render(&engine, "{title}.{episode}.{ext}", &info).unwrap();
    // should collapse dots: "Inception.mkv"
    assert_eq!(result, PathBuf::from("Inception.mkv"));
}

// -----------------------------------------------------------------------
// Rendering: zero-padding modifier
// -----------------------------------------------------------------------

#[test]
fn render_season_zero_padded() {
    let engine = TemplateEngine::new();
    let info = series_info();
    let result = render(&engine, "S{season:02}", &info).unwrap();
    assert_eq!(result, PathBuf::from("S02"));
}

#[test]
fn render_season_three_digit_padding() {
    let engine = TemplateEngine::new();
    let mut info = series_info();
    info.season = Some(7);
    let result = render(&engine, "S{season:03}", &info).unwrap();
    assert_eq!(result, PathBuf::from("S007"));
}

#[test]
fn render_year_no_padding_needed() {
    let engine = TemplateEngine::new();
    let info = movie_info();
    let result = render(&engine, "{year}", &info).unwrap();
    assert_eq!(result, PathBuf::from("2010"));
}

// -----------------------------------------------------------------------
// Rendering: path components
// -----------------------------------------------------------------------

#[test]
fn render_path_with_folder_separator() {
    let engine = TemplateEngine::new();
    let info = series_info();
    let result = render(&engine, "{title}/Season {season:02}/{title} - S{season:02}E{episode:02}.{ext}",
            &info,
        )
        .unwrap();
    let expected = PathBuf::from("The Office")
        .join("Season 02")
        .join("The Office - S02E03.mkv");
    assert_eq!(result, expected);
}

#[test]
fn render_movie_path_with_folder() {
    let engine = TemplateEngine::new();
    let info = movie_info();
    let result = render(&engine, "{title} ({year})/{title} ({year}).{ext}", &info)
        .unwrap();
    let expected = PathBuf::from("Inception (2010)").join("Inception (2010).mkv");
    assert_eq!(result, expected);
}

// -----------------------------------------------------------------------
// Rendering: sanitization
// -----------------------------------------------------------------------

#[test]
fn render_sanitizes_illegal_chars() {
    let engine = TemplateEngine::new();
    let mut info = movie_info();
    info.title = "What: The <Movie>?".to_string();
    let result = render(&engine, "{title}.{ext}", &info).unwrap();
    let rendered = result.to_string_lossy();
    // Illegal chars should be removed
    assert!(!rendered.contains(':'));
    assert!(!rendered.contains('<'));
    assert!(!rendered.contains('>'));
    assert!(!rendered.contains('?'));
}

#[test]
fn render_sanitizes_windows_reserved_names() {
    let engine = TemplateEngine::new();
    let mut info = movie_info();
    info.title = "CON".to_string();
    let result = render(&engine, "{title}.{ext}", &info).unwrap();
    let rendered = result.to_string_lossy();
    // The raw filename should NOT be exactly "CON.mkv"
    // sanitize-filename will modify reserved names
    assert_ne!(rendered, "CON.mkv");
}

#[test]
fn render_strips_trailing_dots_from_components() {
    let engine = TemplateEngine::new();
    let mut info = movie_info();
    info.title = "Title.".to_string();
    info.year = None;
    let result = render(&engine, "{title}/{title}.{ext}", &info).unwrap();
    // Trailing dots should be stripped from path components
    let rendered = result.to_string_lossy();
    assert!(!rendered.starts_with("Title./") && !rendered.starts_with("Title.\\"));
}

// -----------------------------------------------------------------------
// Error: unknown variable
// -----------------------------------------------------------------------

#[test]
fn render_unknown_variable_returns_error() {
    let engine = TemplateEngine::new();
    let info = movie_info();
    let result = render(&engine, "{title}.{foo}.{ext}", &info);
    assert!(result.is_err());
    match result.unwrap_err() {
        MediError::UnknownVariable { name } => {
            assert_eq!(name, "foo");
        }
        other => panic!("expected UnknownVariable, got: {:?}", other),
    }
}

#[test]
fn render_multiple_unknown_variables_returns_first_error() {
    let engine = TemplateEngine::new();
    let info = movie_info();
    let result = render(&engine, "{bar}.{baz}", &info);
    assert!(result.is_err());
    match result.unwrap_err() {
        MediError::UnknownVariable { .. } => {}
        other => panic!("expected UnknownVariable, got: {:?}", other),
    }
}

// -----------------------------------------------------------------------
// Error: invalid modifier
// -----------------------------------------------------------------------

#[test]
fn render_invalid_modifier_returns_error() {
    let engine = TemplateEngine::new();
    let info = series_info();
    let result = render(&engine, "{season:abc}", &info);
    assert!(result.is_err());
    match result.unwrap_err() {
        MediError::InvalidModifier { modifier } => {
            assert_eq!(modifier, "abc");
        }
        other => panic!("expected InvalidModifier, got: {:?}", other),
    }
}

// -----------------------------------------------------------------------
// Validation: series
// -----------------------------------------------------------------------

#[test]
fn validate_series_template_missing_season() {
    let engine = TemplateEngine::new();
    let warnings = engine.validate("{title} - E{episode:02}.{ext}", &MediaType::Series);
    assert!(
        warnings.iter().any(|w| w.variable == "season"),
        "expected warning about missing season"
    );
}

#[test]
fn validate_series_template_missing_episode() {
    let engine = TemplateEngine::new();
    let warnings = engine.validate("{title} - S{season:02}.{ext}", &MediaType::Series);
    assert!(
        warnings.iter().any(|w| w.variable == "episode"),
        "expected warning about missing episode"
    );
}

#[test]
fn validate_series_complete_no_warnings() {
    let engine = TemplateEngine::new();
    let warnings = engine.validate(
        "{title} - S{season:02}E{episode:02}.{ext}",
        &MediaType::Series,
    );
    assert!(
        warnings.is_empty(),
        "expected no warnings, got: {:?}",
        warnings
    );
}

// -----------------------------------------------------------------------
// Validation: movie
// -----------------------------------------------------------------------

#[test]
fn validate_movie_template_missing_year() {
    let engine = TemplateEngine::new();
    let warnings = engine.validate("{title}.{ext}", &MediaType::Movie);
    assert!(
        warnings.iter().any(|w| w.variable == "year"),
        "expected warning about missing year"
    );
}

#[test]
fn validate_movie_complete_no_warnings() {
    let engine = TemplateEngine::new();
    let warnings = engine.validate("{title} ({year}).{ext}", &MediaType::Movie);
    assert!(
        warnings.is_empty(),
        "expected no warnings, got: {:?}",
        warnings
    );
}

// -----------------------------------------------------------------------
// Validation: missing ext warning
// -----------------------------------------------------------------------

#[test]
fn validate_missing_ext_produces_warning() {
    let engine = TemplateEngine::new();
    let warnings = engine.validate("{title} ({year})", &MediaType::Movie);
    assert!(
        warnings.iter().any(|w| w.variable == "ext"),
        "expected warning about missing ext"
    );
}

// -----------------------------------------------------------------------
// Validation does NOT check unknown variables (that's render's job)
// -----------------------------------------------------------------------

#[test]
fn validate_does_not_error_on_unknown_variables() {
    let engine = TemplateEngine::new();
    let warnings = engine.validate("{title}.{unknown_thing}.{ext}", &MediaType::Movie);
    // validate returns warnings, not errors. Unknown vars are render's job.
    // Should only warn about missing year for Movie type.
    assert!(
        warnings.iter().any(|w| w.variable == "year"),
        "expected year warning"
    );
    // There should be no panic or error
}

// -----------------------------------------------------------------------
// Validation is independent of rendering
// -----------------------------------------------------------------------

#[test]
fn validate_warnings_do_not_block_render() {
    let engine = TemplateEngine::new();
    let info = movie_info();
    // Template missing year for movie -> should warn but render should still work
    let warnings = engine.validate("{title}.{ext}", &MediaType::Movie);
    assert!(!warnings.is_empty(), "expected warnings for missing year");
    // Rendering the same template should succeed
    let result = render(&engine, "{title}.{ext}", &info);
    assert!(
        result.is_ok(),
        "render should succeed despite validation warnings"
    );
}

// -----------------------------------------------------------------------
// Default template patterns from decisions D-01, D-02
// -----------------------------------------------------------------------

#[test]
fn render_default_series_template() {
    let engine = TemplateEngine::new();
    let info = series_info();
    // D-01 default: "{title}/Season {season:02}/{title} - S{season:02}E{episode:02}.{ext}"
    let result = render(&engine, "{title}/Season {season:02}/{title} - S{season:02}E{episode:02}.{ext}",
            &info,
        )
        .unwrap();
    let expected = PathBuf::from("The Office")
        .join("Season 02")
        .join("The Office - S02E03.mkv");
    assert_eq!(result, expected);
}

#[test]
fn render_default_movie_template() {
    let engine = TemplateEngine::new();
    let info = movie_info();
    // D-02 default: "{title} ({year})/{title} ({year}).{ext}"
    let result = render(&engine, "{title} ({year})/{title} ({year}).{ext}", &info)
        .unwrap();
    let expected = PathBuf::from("Inception (2010)").join("Inception (2010).mkv");
    assert_eq!(result, expected);
}

// -----------------------------------------------------------------------
// Edge cases
// -----------------------------------------------------------------------

#[test]
fn render_template_with_no_variables() {
    let engine = TemplateEngine::new();
    let info = movie_info();
    let result = render(&engine, "static-name.mkv", &info).unwrap();
    assert_eq!(result, PathBuf::from("static-name.mkv"));
}

#[test]
fn render_template_adjacent_variables() {
    let engine = TemplateEngine::new();
    let info = movie_info();
    let result = render(&engine, "{title}{year}.{ext}", &info).unwrap();
    assert_eq!(result, PathBuf::from("Inception2010.mkv"));
}

#[test]
fn render_season_none_produces_empty() {
    let engine = TemplateEngine::new();
    let mut info = movie_info();
    info.season = None;
    let result = render(&engine, "{title}.S{season}.{ext}", &info).unwrap();
    // season is None -> "S" then empty, so "Inception.S.mkv"
    // Since there's no dot-collapse issue here (S is not a dot), it stays
    assert_eq!(result, PathBuf::from("Inception.S.mkv"));
}

#[test]
fn render_episode_modifier_without_padding() {
    let engine = TemplateEngine::new();
    let info = series_info();
    // No modifier on episode
    let result = render(&engine, "E{episode}.{ext}", &info).unwrap();
    assert_eq!(result, PathBuf::from("E3.mkv"));
}

#[test]
fn render_rejects_path_traversal() {
    let engine = TemplateEngine::new();
    let info = MediaInfo {
        title: "..".to_string(),
        media_type: MediaType::Movie,
        year: Some(2024),
        season: None,
        episodes: vec![],
        resolution: None,
        video_codec: None,
        audio_codec: None,
        source: None,
        release_group: None,
        container: "mkv".to_string(),
        language: None,
        confidence: ParseConfidence::High,
    };
    let result = render(&engine, "{title}/{title}.{ext}", &info);
    assert!(result.is_err(), "Expected Err but got: {result:?}");
    let err = result.unwrap_err().message();
    assert!(
        err.contains("path traversal"),
        "Error should mention path traversal: {err}"
    );
}

// -----------------------------------------------------------------------
// {Title} variable: Title Case rendering
// -----------------------------------------------------------------------

#[test]
fn render_title_case_lowercase_input() {
    let engine = TemplateEngine::new();
    let mut info = series_info();
    info.title = "the office".to_string();
    let result = render(&engine, "{Title}.{ext}", &info).unwrap();
    assert_eq!(result, PathBuf::from("The Office.mkv"));
}

#[test]
fn render_title_case_uppercase_input() {
    let engine = TemplateEngine::new();
    let mut info = movie_info();
    info.title = "INCEPTION".to_string();
    let result = render(&engine, "{Title}.{ext}", &info).unwrap();
    assert_eq!(result, PathBuf::from("Inception.mkv"));
}

#[test]
fn render_title_case_already_correct() {
    let engine = TemplateEngine::new();
    let info = series_info(); // title is "The Office"
    let result = render(&engine, "{Title}.{ext}", &info).unwrap();
    assert_eq!(result, PathBuf::from("The Office.mkv"));
}

#[test]
fn render_title_lowercase_still_works() {
    // Backward compat: {title} unchanged
    let engine = TemplateEngine::new();
    let mut info = movie_info();
    info.title = "the office".to_string();
    let result = render(&engine, "{title}.{ext}", &info).unwrap();
    assert_eq!(result, PathBuf::from("the office.mkv"));
}

#[test]
fn validate_title_case_satisfies_movie_title_requirement() {
    let engine = TemplateEngine::new();
    let warnings = engine.validate("{Title} ({year}).{ext}", &MediaType::Movie);
    assert!(
        !warnings.iter().any(|w| w.variable == "title"),
        "expected no title warning when {{Title}} is used, got: {:?}",
        warnings
    );
}

#[test]
fn validate_title_case_satisfies_series_title_requirement() {
    let engine = TemplateEngine::new();
    let warnings = engine.validate(
        "{Title} - S{season:02}E{episode:02}.{ext}",
        &MediaType::Series,
    );
    assert!(
        !warnings.iter().any(|w| w.variable == "title"),
        "expected no title warning when {{Title}} is used, got: {:?}",
        warnings
    );
}

#[test]
fn render_default_movie_template_title_case() {
    let engine = TemplateEngine::new();
    let mut info = movie_info();
    info.title = "the dark knight".to_string();
    let result = render(&engine, "{Title} ({year})/{Title} ({year}).{ext}", &info)
        .unwrap();
    let expected = PathBuf::from("The Dark Knight (2010)")
        .join("The Dark Knight (2010).mkv");
    assert_eq!(result, expected);
}

#[test]
fn render_default_series_template_title_case() {
    let engine = TemplateEngine::new();
    let mut info = series_info();
    info.title = "the office".to_string();
    let result = render(&engine, "{Title}/{Title} - S{season:02}E{episode:02}.{ext}", &info)
        .unwrap();
    let expected = PathBuf::from("The Office")
        .join("The Office - S02E03.mkv");
    assert_eq!(result, expected);
}

#[test]
fn render_rejects_dot_component() {
    let engine = TemplateEngine::new();
    let info = MediaInfo {
        title: ".".to_string(),
        media_type: MediaType::Movie,
        year: Some(2024),
        season: None,
        episodes: vec![],
        resolution: None,
        video_codec: None,
        audio_codec: None,
        source: None,
        release_group: None,
        container: "mkv".to_string(),
        language: None,
        confidence: ParseConfidence::High,
    };
    let result = render(&engine, "{title}/{title}.{ext}", &info);
    assert!(result.is_err());
}

#[test]
fn render_removes_control_characters_and_trailing_dots_and_spaces() {
    let engine = TemplateEngine::new();
    let mut info = movie_info();
    info.title = "Bad\u{1}Na\u{85}me. ".to_string();
    let p = engine.render("{title}/{title}.{ext}", &info).unwrap();
    assert_eq!(p, "BadName/BadName. .mkv");
    for c in p.split('/') {
        assert!(!c.is_empty());
        assert!(!c.chars().any(|ch| ch.is_control()));
    }
}

#[test]
fn render_keeps_plain_components() {
    let engine = TemplateEngine::new();
    let p = engine.render("Movies/{title} ({year})/{title}.{ext}", &movie_info()).unwrap();
    assert_eq!(p, "Movies/Inception (2010)/Inception.mkv");
}
