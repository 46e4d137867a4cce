//! Application configuration: defaults, default file locations, and the
//! merge of per-watcher overrides onto the global settings.
//!
//! Reading and writing the TOML file is the caller's business; this module
//! holds the configuration as plain values.

use vstd::prelude::*;
use crate::error::MediError;
use crate::paths::{join_path, path_join};
use crate::template::TemplateEngine;
use crate::text::{join_with_seq, to_chars};
use crate::types::{MediaType, TemplateWarning};
use crate::types::{
    clone_opt, clone_strings, duplicate_watchers, opt_view, strings_view, watchers_view,
    ConflictStrategy, DiscoveryToggles, NonPreferredAction, RenameOperation, WatcherConfig,
    WatcherConfigV, WatcherSettingsV,
};

verus! {

/// Top-level configuration: general behaviour, naming templates, subtitle
/// handling and watched folders.
#[derive(Debug, Clone, PartialEq)]
pub struct Config {
    /// General settings.
    pub general: GeneralConfig,
    /// Naming templates per media type.
    pub templates: TemplateConfig,
    /// Subtitle discovery and handling.
    pub subtitles: SubtitleConfig,
    /// Watched folders.
    pub watchers: Vec<WatcherConfig>,
}

/// General settings.
#[derive(Debug, Clone, PartialEq)]
pub struct GeneralConfig {
    /// Output directory; `None` renames in place.
    pub output_dir: Option<String>,
    /// Move or copy.
    pub operation: RenameOperation,
    /// What to do when the target exists.
    pub conflict_strategy: ConflictStrategy,
    /// Whether missing target directories are created.
    pub create_directories: bool,
}

/// Naming templates per media type.
#[derive(Debug, Clone, PartialEq)]
pub struct TemplateConfig {
    /// Movie template.
    pub movie: String,
    /// Series template, also used for anime.
    pub series: String,
}

/// Subtitle settings.
#[derive(Debug, Clone, PartialEq)]
pub struct SubtitleConfig {
    /// Whether subtitle discovery is enabled at all.
    pub enabled: bool,
    /// Template for subtitle names.
    pub naming_pattern: String,
    /// Which discovery methods are active.
    pub discovery: DiscoveryToggles,
    /// Preferred ISO 639-1 codes, in priority order.
    pub preferred_languages: Vec<String>,
    /// What to do with subtitles in other languages.
    pub non_preferred_action: NonPreferredAction,
    /// Where non-preferred subtitles go when they are backed up.
    pub backup_path: Option<String>,
}

/// The view of a [`GeneralConfig`].
pub struct GeneralConfigV {
    pub output_dir: Option<Seq<char>>,
    pub operation: RenameOperation,
    pub conflict_strategy: ConflictStrategy,
    pub create_directories: bool,
}

/// The view of a [`TemplateConfig`].
pub struct TemplateConfigV {
    pub movie: Seq<char>,
    pub series: Seq<char>,
}

/// The view of a [`SubtitleConfig`].
pub struct SubtitleConfigV {
    pub enabled: bool,
    pub naming_pattern: Seq<char>,
    pub discovery: DiscoveryToggles,
    pub preferred_languages: Seq<Seq<char>>,
    pub non_preferred_action: NonPreferredAction,
    pub backup_path: Option<Seq<char>>,
}

/// The view of a [`Config`].
pub struct ConfigV {
    pub general: GeneralConfigV,
    pub templates: TemplateConfigV,
    pub subtitles: SubtitleConfigV,
    pub watchers: Seq<WatcherConfigV>,
}

impl View for GeneralConfig {
    type V = GeneralConfigV;

    open spec fn view(&self) -> GeneralConfigV {
        GeneralConfigV {
            output_dir: opt_view(self.output_dir),
            operation: self.operation,
            conflict_strategy: self.conflict_strategy,
            create_directories: self.create_directories,
        }
    }
}

impl View for TemplateConfig {
    type V = TemplateConfigV;

    open spec fn view(&self) -> TemplateConfigV {
        TemplateConfigV { movie: self.movie@, series: self.series@ }
    }
}

impl View for SubtitleConfig {
    type V = SubtitleConfigV;

    open spec fn view(&self) -> SubtitleConfigV {
        SubtitleConfigV {
            enabled: self.enabled,
            naming_pattern: self.naming_pattern@,
            discovery: self.discovery,
            preferred_languages: strings_view(self.preferred_languages@),
            non_preferred_action: self.non_preferred_action,
            backup_path: opt_view(self.backup_path),
        }
    }
}

impl View for Config {
    type V = ConfigV;

    open spec fn view(&self) -> ConfigV {
        ConfigV {
            general: self.general@,
            templates: self.templates@,
            subtitles: self.subtitles@,
            watchers: watchers_view(self.watchers@),
        }
    }
}

// ---------------------------------------------------------------------------
// Defaults
// ---------------------------------------------------------------------------

/// The default movie template.
pub open spec fn default_movie_template() -> Seq<char> {
    "{title} ({year})/{title} ({year}).{ext}"@
}

/// The default series template.
pub open spec fn default_series_template() -> Seq<char> {
    "{title}/{title} - S{season:02}E{episode:02}.{ext}"@
}

/// The default subtitle naming pattern.
pub open spec fn default_naming_pattern() -> Seq<char> {
    "{video_name}.{lang}.{type}.{ext}"@
}

impl Default for GeneralConfig {
    /// In-place moves that skip conflicts and create directories.
    fn default() -> (r: GeneralConfig)
        ensures
            r.output_dir is None,
            r.operation == RenameOperation::Move,
            r.conflict_strategy == ConflictStrategy::Skip,
            r.create_directories,
    {
        GeneralConfig {
            output_dir: None,
            operation: RenameOperation::Move,
            conflict_strategy: ConflictStrategy::Skip,
            create_directories: true,
        }
    }
}

impl Default for TemplateConfig {
    /// The default movie and series templates.
    fn default() -> (r: TemplateConfig)
        ensures
            r.movie@ == default_movie_template(),
            r.series@ == default_series_template(),
    {
        TemplateConfig {
            movie: String::from_str("{title} ({year})/{title} ({year}).{ext}"),
            series: String::from_str("{title}/{title} - S{season:02}E{episode:02}.{ext}"),
        }
    }
}

impl Default for SubtitleConfig {
    /// Subtitles enabled with every discovery method, no preferred
    /// language, other languages ignored, no backup path.
    fn default() -> (r: SubtitleConfig)
        ensures
            r.enabled,
            r.naming_pattern@ == default_naming_pattern(),
            r.discovery.sidecar && r.discovery.subs_subfolder && r.discovery.nested_language_folders
                && r.discovery.vobsub_pairs,
            r.preferred_languages@.len() == 0,
            r.non_preferred_action == NonPreferredAction::Ignore,
            r.backup_path is None,
    {
        SubtitleConfig {
            enabled: true,
            naming_pattern: String::from_str("{video_name}.{lang}.{type}.{ext}"),
            discovery: DiscoveryToggles::default(),
            preferred_languages: Vec::new(),
            non_preferred_action: NonPreferredAction::Ignore,
            backup_path: None,
        }
    }
}

/// The default configuration.
pub open spec fn default_config() -> ConfigV {
    ConfigV {
        general: GeneralConfigV {
            output_dir: None,
            operation: RenameOperation::Move,
            conflict_strategy: ConflictStrategy::Skip,
            create_directories: true,
        },
        templates: TemplateConfigV {
            movie: default_movie_template(),
            series: default_series_template(),
        },
        subtitles: SubtitleConfigV {
            enabled: true,
            naming_pattern: default_naming_pattern(),
            discovery: DiscoveryToggles {
                sidecar: true,
                subs_subfolder: true,
                nested_language_folders: true,
                vobsub_pairs: true,
            },
            preferred_languages: Seq::<Seq<char>>::empty(),
            non_preferred_action: NonPreferredAction::Ignore,
            backup_path: None,
        },
        watchers: Seq::<WatcherConfigV>::empty(),
    }
}

impl Default for Config {
    /// Default general, template and subtitle settings and no watchers.
    fn default() -> (r: Config)
        ensures
            r@ == default_config(),
    {
        let r = Config {
            general: GeneralConfig::default(),
            templates: TemplateConfig::default(),
            subtitles: SubtitleConfig::default(),
            watchers: Vec::new(),
        };
        assert(r.subtitles@.preferred_languages =~= Seq::<Seq<char>>::empty());
        assert(r@.watchers =~= Seq::<WatcherConfigV>::empty());
        r
    }
}

impl Config {
    /// A copy with the same view.
    pub fn duplicate(&self) -> (r: Config)
        ensures
            r@ == self@,
    {
        let langs = clone_strings(&self.subtitles.preferred_languages);
        assert(strings_view(langs@) =~= strings_view(self.subtitles.preferred_languages@));
        Config {
            general: GeneralConfig {
                output_dir: clone_opt(&self.general.output_dir),
                operation: self.general.operation,
                conflict_strategy: self.general.conflict_strategy,
                create_directories: self.general.create_directories,
            },
            templates: TemplateConfig {
                movie: self.templates.movie.clone(),
                series: self.templates.series.clone(),
            },
            subtitles: SubtitleConfig {
                enabled: self.subtitles.enabled,
                naming_pattern: self.subtitles.naming_pattern.clone(),
                discovery: self.subtitles.discovery,
                preferred_languages: langs,
                non_preferred_action: self.subtitles.non_preferred_action,
                backup_path: clone_opt(&self.subtitles.backup_path),
            },
            watchers: duplicate_watchers(&self.watchers),
        }
    }
}

// ---------------------------------------------------------------------------
// Default file locations
// ---------------------------------------------------------------------------

/// `dirs::config_dir`, converted to a string (lossily where the platform
/// path is not UTF-8). The result depends on the platform and the
/// environment, so nothing is stated of it.
#[verifier::external_body]
fn platform_config_dir() -> (r: Option<String>) {
    dirs::config_dir().map(|p| p.to_string_lossy().into_owned())
}

/// `dirs::data_dir`, converted to a string (lossily where the platform path
/// is not UTF-8). The result depends on the platform and the environment,
/// so nothing is stated of it.
#[verifier::external_body]
fn platform_data_dir() -> (r: Option<String>) {
    dirs::data_dir().map(|p| p.to_string_lossy().into_owned())
}

/// `base/mediarr/file`.
pub open spec fn app_file(base: Seq<char>, file: Seq<char>) -> Seq<char> {
    path_join(path_join(base, "mediarr"@), file)
}

/// The path of a file of the application under a platform directory;
/// without one the location is unavailable (the working directory is
/// never used instead).
pub fn app_file_under(base: Option<&str>, file: &str) -> (r: Result<String, MediError>)
    ensures
        match base {
            Some(b) => r matches Ok(p) && p@ == app_file(b@, file@),
            None => r matches Err(e) && e is ConfigPathUnavailable,
        },
{
    match base {
        Some(b) => {
            let dir = join_path(b, "mediarr");
            Ok(join_path(dir.as_str(), file))
        },
        None => Err(MediError::ConfigPathUnavailable),
    }
}

/// The configuration file: `mediarr/config.toml` under the platform
/// configuration directory, or `ConfigPathUnavailable` where the platform
/// has none.
pub fn default_config_path() -> (r: Result<String, MediError>)
    ensures
        match r {
            Ok(p) => exists|b: Seq<char>| p@ == app_file(b, "config.toml"@),
            Err(e) => e is ConfigPathUnavailable,
        },
{
    let base = platform_config_dir();
    let r = match &base {
        Some(b) => app_file_under(Some(b.as_str()), "config.toml"),
        None => app_file_under(None, "config.toml"),
    };
    proof {
        if let Some(b) = base {
            assert(r matches Ok(p) && p@ == app_file(b@, "config.toml"@));
        }
    }
    r
}

/// The history database: `mediarr/history.db` under the platform data
/// directory, or `ConfigPathUnavailable` where the platform has none.
pub fn default_data_path() -> (r: Result<String, MediError>)
    ensures
        match r {
            Ok(p) => exists|b: Seq<char>| p@ == app_file(b, "history.db"@),
            Err(e) => e is ConfigPathUnavailable,
        },
{
    let base = platform_data_dir();
    let r = match &base {
        Some(b) => app_file_under(Some(b.as_str()), "history.db"),
        None => app_file_under(None, "history.db"),
    };
    proof {
        if let Some(b) = base {
            assert(r matches Ok(p) && p@ == app_file(b@, "history.db"@));
        }
    }
    r
}

// ---------------------------------------------------------------------------
// Per-watcher resolution
// ---------------------------------------------------------------------------

/// No override is set.
pub open spec fn overrides_nothing(s: WatcherSettingsV) -> bool {
    &&& s.output_dir is None
    &&& s.operation is None
    &&& s.conflict_strategy is None
    &&& s.create_directories is None
    &&& s.movie_template is None
    &&& s.series_template is None
    &&& s.subtitles_enabled is None
    &&& s.preferred_languages is None
    &&& s.non_preferred_action is None
}

/// An override where one is set, else the global value.
pub open spec fn or_global<T>(o: Option<T>, global: T) -> T {
    match o {
        Some(v) => v,
        None => global,
    }
}

/// The configuration a watcher runs with: without overrides the global
/// one; else each overridable field takes the override where one is set
/// (an empty output directory meaning in place) and the global value
/// elsewhere. Subtitle naming, discovery, backup path and watchers always
/// come from the global configuration.
pub open spec fn resolved_config(settings: Option<WatcherSettingsV>, global: ConfigV) -> ConfigV {
    match settings {
        None => global,
        Some(s) => if overrides_nothing(s) {
            global
        } else {
            ConfigV {
                general: GeneralConfigV {
                    output_dir: match s.output_dir {
                        Some(d) => if d.len() == 0 {
                            None
                        } else {
                            Some(d)
                        },
                        None => global.general.output_dir,
                    },
                    operation: or_global(s.operation, global.general.operation),
                    conflict_strategy: or_global(
                        s.conflict_strategy,
                        global.general.conflict_strategy,
                    ),
                    create_directories: or_global(
                        s.create_directories,
                        global.general.create_directories,
                    ),
                },
                templates: TemplateConfigV {
                    movie: or_global(s.movie_template, global.templates.movie),
                    series: or_global(s.series_template, global.templates.series),
                },
                subtitles: SubtitleConfigV {
                    enabled: or_global(s.subtitles_enabled, global.subtitles.enabled),
                    naming_pattern: global.subtitles.naming_pattern,
                    discovery: global.subtitles.discovery,
                    preferred_languages: or_global(
                        s.preferred_languages,
                        global.subtitles.preferred_languages,
                    ),
                    non_preferred_action: or_global(
                        s.non_preferred_action,
                        global.subtitles.non_preferred_action,
                    ),
                    backup_path: global.subtitles.backup_path,
                },
                watchers: global.watchers,
            }
        },
    }
}

impl WatcherConfig {
    /// Merges this watcher's overrides onto the global configuration;
    /// fields without an override keep the global value.
    pub fn resolve_config(&self, global: &Config) -> (r: Config)
        ensures
            r@ == resolved_config(self@.settings, global@),
    {
        let s = match &self.settings {
            Some(s) => {
                if s.is_empty() {
                    return global.duplicate();
                }
                s
            },
            None => {
                return global.duplicate();
            },
        };
        let output_dir = match &s.output_dir {
            Some(dir) => {
                if dir.as_str().is_empty() {
                    None
                } else {
                    Some(dir.clone())
                }
            },
            None => clone_opt(&global.general.output_dir),
        };
        let movie = match &s.movie_template {
            Some(t) => t.clone(),
            None => global.templates.movie.clone(),
        };
        let series = match &s.series_template {
            Some(t) => t.clone(),
            None => global.templates.series.clone(),
        };
        let preferred_languages = match &s.preferred_languages {
            Some(v) => clone_strings(v),
            None => clone_strings(&global.subtitles.preferred_languages),
        };
        let r = Config {
            general: GeneralConfig {
                output_dir,
                operation: match s.operation {
                    Some(o) => o,
                    None => global.general.operation,
                },
                conflict_strategy: match s.conflict_strategy {
                    Some(c) => c,
                    None => global.general.conflict_strategy,
                },
                create_directories: match s.create_directories {
                    Some(c) => c,
                    None => global.general.create_directories,
                },
            },
            templates: TemplateConfig { movie, series },
            subtitles: SubtitleConfig {
                enabled: match s.subtitles_enabled {
                    Some(e) => e,
                    None => global.subtitles.enabled,
                },
                naming_pattern: global.subtitles.naming_pattern.clone(),
                discovery: global.subtitles.discovery,
                preferred_languages,
                non_preferred_action: match s.non_preferred_action {
                    Some(a) => a,
                    None => global.subtitles.non_preferred_action,
                },
                backup_path: clone_opt(&global.subtitles.backup_path),
            },
            watchers: duplicate_watchers(&global.watchers),
        };
        assert(r@.subtitles.preferred_languages =~= resolved_config(
            self@.settings,
            global@,
        ).subtitles.preferred_languages);
        r
    }
}

// ---------------------------------------------------------------------------
// Setting values by key
// ---------------------------------------------------------------------------

/// The last dot-separated segment of a key.
pub open spec fn key_leaf(key: Seq<char>) -> Seq<char> {
    key.subrange(crate::text::last_index_in(key, seq!['.']) + 1, key.len() as int)
}

/// The values allowed for a key with a fixed set of values, and the name
/// used in its error message.
pub open spec fn allowed_values(key: Seq<char>) -> Option<(Seq<char>, Seq<Seq<char>>)> {
    let leaf = key_leaf(key);
    if leaf == "operation"@ {
        Some(("operation"@, seq!["move"@, "copy"@]))
    } else if leaf == "conflict_strategy"@ {
        Some(("conflict_strategy"@, seq!["skip"@, "overwrite"@, "numericsuffix"@]))
    } else if leaf == "non_preferred_action"@ {
        Some(("non_preferred_action"@, seq!["ignore"@, "backup"@, "keepall"@, "review"@]))
    } else if leaf == "mode"@ && crate::text::contains_seq(key, "watchers"@) {
        Some(("watcher mode"@, seq!["auto"@, "review"@]))
    } else {
        None
    }
}

/// The template a key sets, by media type, if it sets one.
pub open spec fn template_key_type(key: Seq<char>) -> Option<MediaType> {
    if crate::text::starts_with(key, "templates."@) {
        if key_leaf(key) == "movie"@ {
            Some(MediaType::Movie)
        } else if key_leaf(key) == "series"@ {
            Some(MediaType::Series)
        } else {
            None
        }
    } else {
        None
    }
}

/// What setting `key` to `val` gives before it is written: an error for a
/// value outside a fixed set (compared in lowercase), else the template's
/// advisory warnings when a template is set.
pub open spec fn config_value_check(key: Seq<char>, val: Seq<char>) -> Result<
    Seq<(Seq<char>, Seq<char>)>,
    Seq<char>,
> {
    match allowed_values(key) {
        Some(a) if !a.1.contains(crate::unicode::lower_text(val)) => Err(
            "invalid "@ + a.0 + ": "@ + val + " (allowed: "@ + join_with_seq(a.1, ", "@) + ")"@,
        ),
        _ => match template_key_type(key) {
            Some(t) => Ok(crate::template::validation_warnings(val, t)),
            None => Ok(Seq::<(Seq<char>, Seq<char>)>::empty()),
        },
    }
}

/// Whether `v` is one of the strings.
fn one_of(v: &str, allowed: &Vec<String>) -> (r: bool)
    ensures
        r == strings_view(allowed@).contains(v@),
{
    crate::renamer::strings_contain(allowed, v)
}

/// Checks a value before it is set: a key with a fixed set of values
/// (`operation`, `conflict_strategy`, `non_preferred_action`, a watcher's
/// `mode`) must get one of them, in any case; a template key gets the
/// template's warnings.
pub fn check_config_value(key: &str, val: &str) -> (r: Result<Vec<TemplateWarning>, String>)
    ensures
        match r {
            Ok(w) => config_value_check(key@, val@) == Ok::<
                Seq<(Seq<char>, Seq<char>)>,
                Seq<char>,
            >(w@.map_values(|x: TemplateWarning| (x.variable@, x.message@))),
            Err(e) => config_value_check(key@, val@) == Err::<
                Seq<(Seq<char>, Seq<char>)>,
                Seq<char>,
            >(e@),
        },
{
    let kc = to_chars(key);
    proof {
        crate::text::lemma_last_index_bounds(kc@, seq!['.']);
    }
    let dot = crate::text::single('.');
    let leaf_chars = match crate::text::rfind_in(&kc, &dot) {
        Some(i) => {
            let n = kc.len();
            assert(i < n);
            crate::text::sub_vec(&kc, i + 1, n)
        },
        None => crate::text::sub_vec(&kc, 0, kc.len()),
    };
    assert(leaf_chars@ == key_leaf(key@));
    let mut allowed: Vec<String> = Vec::new();
    let name: &str;
    if crate::text::eq_str(&leaf_chars, "operation") {
        name = "operation";
        allowed.push(String::from_str("move"));
        allowed.push(String::from_str("copy"));
    } else if crate::text::eq_str(&leaf_chars, "conflict_strategy") {
        name = "conflict_strategy";
        allowed.push(String::from_str("skip"));
        allowed.push(String::from_str("overwrite"));
        allowed.push(String::from_str("numericsuffix"));
    } else if crate::text::eq_str(&leaf_chars, "non_preferred_action") {
        name = "non_preferred_action";
        allowed.push(String::from_str("ignore"));
        allowed.push(String::from_str("backup"));
        allowed.push(String::from_str("keepall"));
        allowed.push(String::from_str("review"));
    } else if crate::text::eq_str(&leaf_chars, "mode") && crate::text::has_substring(
        &kc,
        &to_chars("watchers"),
    ) {
        name = "watcher mode";
        allowed.push(String::from_str("auto"));
        allowed.push(String::from_str("review"));
    } else {
        name = "";
    }
    let ghost av = allowed_values(key@);
    assert(allowed@.len() > 0 <==> av is Some);
    assert(match av {
        Some(a) => strings_view(allowed@) =~= a.1 && name@ == a.0,
        None => true,
    });
    if allowed.len() > 0 {
        let lower = crate::unicode::str_to_lowercase(val);
        if !one_of(lower.as_str(), &allowed) {
            let list = crate::text::join_strings(&allowed, ", ");
            assert(allowed@.map_values(|p: String| p@) =~= strings_view(allowed@));
            let a = String::from_str("invalid ").concat(name);
            let b = a.concat(": ");
            let c = b.concat(val);
            let d = c.concat(" (allowed: ");
            let e = d.concat(list.as_str());
            return Err(e.concat(")"));
        }
    }
    let is_template_key = crate::text::has_prefix(&kc, &to_chars("templates."));
    let media_type = if is_template_key {
        if crate::text::eq_str(&leaf_chars, "movie") {
            Some(MediaType::Movie)
        } else if crate::text::eq_str(&leaf_chars, "series") {
            Some(MediaType::Series)
        } else {
            None
        }
    } else {
        None
    };
    assert(media_type == template_key_type(key@));
    match media_type {
        Some(mt) => {
            let engine = TemplateEngine::new();
            let w = engine.validate(val, &mt);
            assert(w@.map_values(|x: TemplateWarning| (x.variable@, x.message@))
                =~= crate::template::validation_warnings(val@, mt));
            Ok(w)
        },
        None => {
            let w: Vec<TemplateWarning> = Vec::new();
            assert(w@.map_values(|x: TemplateWarning| (x.variable@, x.message@))
                =~= Seq::<(Seq<char>, Seq<char>)>::empty());
            Ok(w)
        },
    }
}

// ---------------------------------------------------------------------------
// Laws
// ---------------------------------------------------------------------------

/// A watcher without overrides, or whose overrides are all unset, runs
/// with the global configuration unchanged.
pub proof fn law_resolve_without_overrides(settings: Option<WatcherSettingsV>, global: ConfigV)
    requires
        settings matches Some(s) ==> overrides_nothing(s),
    ensures
        resolved_config(settings, global) == global,
{
}

/// The subtitle naming pattern, the discovery methods, the backup path and
/// the list of watchers are never overridden per watcher; every other field
/// takes the watcher's override when it sets one and the global value when
/// it does not (an empty output directory meaning in place).
pub proof fn law_resolve_field_by_field(s: WatcherSettingsV, global: ConfigV)
    ensures
        ({
            let r = resolved_config(Some(s), global);
            &&& r.subtitles.naming_pattern == global.subtitles.naming_pattern
            &&& r.subtitles.discovery == global.subtitles.discovery
            &&& r.subtitles.backup_path == global.subtitles.backup_path
            &&& r.watchers == global.watchers
            &&& r.general.operation == or_global(s.operation, global.general.operation)
            &&& r.general.conflict_strategy == or_global(
                s.conflict_strategy,
                global.general.conflict_strategy,
            )
            &&& r.general.create_directories == or_global(
                s.create_directories,
                global.general.create_directories,
            )
            &&& r.templates.movie == or_global(s.movie_template, global.templates.movie)
            &&& r.templates.series == or_global(s.series_template, global.templates.series)
            &&& r.subtitles.enabled == or_global(s.subtitles_enabled, global.subtitles.enabled)
            &&& r.subtitles.preferred_languages == or_global(
                s.preferred_languages,
                global.subtitles.preferred_languages,
            )
            &&& r.subtitles.non_preferred_action == or_global(
                s.non_preferred_action,
                global.subtitles.non_preferred_action,
            )
            &&& r.general.output_dir == match s.output_dir {
                Some(d) => if d.len() == 0 {
                    None
                } else {
                    Some(d)
                },
                None => global.general.output_dir,
            }
        }),
{
}

} // verus!
