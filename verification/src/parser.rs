//! Filename parsing: the `hunch` crate extracts raw properties, and this
//! module maps them into [`MediaInfo`] with the library's own normalisation
//! (duplicate-year stripping, bare season tokens, season defaulting) and
//! merges folder-level context into file-level results.

use vstd::prelude::*;

use crate::error::{MediError, MediErrorV};
use crate::numeric::{all_digits, decimal, digit_char, digits_value, is_ascii_digit, parse_unsigned, zero_pad};
use crate::text::{
    contains_seq, ends_with, first_index_in, join_with, join_with_seq, last_index_in, starts_with,
    trim_end_in, trim_end_white, trim_white, words,
};
use crate::types::{
    FolderContext, MediaInfo, MediaInfoV, MediaType, ParseConfidence, opt_info_view,
};
use crate::unicode::{ascii_lower, eq_ignore_ascii_case, lower_text};

verus! {

// ---------------------------------------------------------------------------
// Small conversions
// ---------------------------------------------------------------------------

/// `u16::try_from(v).ok()` on an optional value.
pub open spec fn to_u16_spec(value: Option<i32>) -> Option<u16> {
    match value {
        Some(v) => if 0 <= v && v <= 65535 {
            Some(v as u16)
        } else {
            None
        },
        None => None,
    }
}

/// Converts an optional `i32` to `u16`, dropping values out of range.
/// `field_name` and `filename` describe the value for diagnostics only.
pub fn safe_i32_to_u16(value: Option<i32>, field_name: &str, filename: &str) -> (r: Option<u16>)
    ensures
        r == to_u16_spec(value),
{
    match value {
        Some(v) => if 0 <= v && v <= 65535 {
            Some(v as u16)
        } else {
            None
        },
        None => None,
    }
}

/// The media type inferred from which fields a parse found, with its confidence.
pub open spec fn infer_type_spec(has_season: bool, has_episode: bool, has_year: bool) -> (
    MediaType,
    ParseConfidence,
) {
    if has_season || has_episode {
        (MediaType::Series, ParseConfidence::Medium)
    } else if has_year {
        (MediaType::Movie, ParseConfidence::Medium)
    } else {
        (MediaType::Series, ParseConfidence::Low)
    }
}

/// Infers the media type when the parser gives none: season or episode
/// means a series, a year alone a movie (both medium confidence); otherwise
/// a series of low confidence.
pub fn infer_type_from_fields(has_season: bool, has_episode: bool, has_year: bool) -> (r: (
    MediaType,
    ParseConfidence,
))
    ensures
        r == infer_type_spec(has_season, has_episode, has_year),
{
    if has_season || has_episode {
        (MediaType::Series, ParseConfidence::Medium)
    } else if has_year {
        (MediaType::Movie, ParseConfidence::Medium)
    } else {
        (MediaType::Series, ParseConfidence::Low)
    }
}

/// Confidence levels reported by `hunch`.
#[derive(Debug, Clone, Copy, PartialEq, Eq, Structural)]
pub enum HunchConfidence {
    /// Few properties extracted.
    Low,
    /// Some ambiguity.
    Medium,
    /// Strong anchors.
    High,
}

/// The library's confidence for a parser confidence, one step lower (High
/// to Medium) when the media type had to be inferred.
pub open spec fn map_confidence_spec(c: HunchConfidence, type_was_inferred: bool) -> ParseConfidence {
    let base = match c {
        HunchConfidence::High => ParseConfidence::High,
        HunchConfidence::Medium => ParseConfidence::Medium,
        HunchConfidence::Low => ParseConfidence::Low,
    };
    if type_was_inferred && base == ParseConfidence::High {
        ParseConfidence::Medium
    } else {
        base
    }
}

/// Maps the parser's confidence, downgrading High to Medium when the type was inferred.
pub fn map_confidence(hunch_confidence: HunchConfidence, type_was_inferred: bool) -> (r:
    ParseConfidence)
    ensures
        r == map_confidence_spec(hunch_confidence, type_was_inferred),
{
    let base = match hunch_confidence {
        HunchConfidence::High => ParseConfidence::High,
        HunchConfidence::Medium => ParseConfidence::Medium,
        HunchConfidence::Low => ParseConfidence::Low,
    };
    if type_was_inferred && base == ParseConfidence::High {
        ParseConfidence::Medium
    } else {
        base
    }
}

/// The lowercased extension of the last path segment (separators `/` and
/// `\`), empty when it has no dot.
pub open spec fn extension_spec(filename: Seq<char>) -> Seq<char> {
    let cut = last_index_in(filename, seq!['/', '\\']);
    let base = filename.subrange(cut + 1, filename.len() as int);
    let dot = last_index_in(base, seq!['.']);
    if dot >= 0 {
        lower_text(base.subrange(dot + 1, base.len() as int))
    } else {
        Seq::<char>::empty()
    }
}

/// The lowercased file extension of `filename` (after stripping any
/// `/` or `\` path prefix), or the empty string.
pub fn extract_extension(filename: &str) -> (r: String)
    ensures
        r@ == extension_spec(filename@),
{
    let s = crate::text::to_chars(filename);
    let mut seps: Vec<char> = Vec::new();
    seps.push('/');
    seps.push('\\');
    assert(seps@ =~= seq!['/', '\\']);
    proof {
        crate::text::lemma_last_index_bounds(s@, seq!['/', '\\']);
    }
    let found = crate::text::rfind_in(s.as_slice(), seps.as_slice());
    let start: usize = match found {
        Some(i) => {
            assert(i < s@.len());
            i + 1
        },
        None => 0,
    };
    let base = crate::text::sub_vec(&s, start, s.len());
    let dot = crate::text::single('.');
    proof {
        crate::text::lemma_last_index_bounds(base@, seq!['.']);
    }
    match crate::text::rfind_in(&base, &dot) {
        Some(p) => {
            let ext = crate::text::sub_vec(&base, p + 1, base.len());
            crate::text::from_chars(&crate::unicode::lowercase_chars(&ext))
        },
        None => String::new(),
    }
}

// ---------------------------------------------------------------------------
// Duplicate year in the title
// ---------------------------------------------------------------------------

/// Characters that separate a trailing year token from the title.
pub open spec fn is_title_sep(c: char) -> bool {
    c == ' ' || c == '.' || c == '_' || c == '-'
}

/// `s` without the first of `cands` that is a suffix of it.
pub open spec fn strip_first_suffix(s: Seq<char>, cands: Seq<Seq<char>>) -> Option<Seq<char>>
    decreases cands.len(),
{
    if cands.len() == 0 {
        None
    } else if ends_with(s, cands[0]) {
        Some(s.subrange(0, s.len() - cands[0].len()))
    } else {
        strip_first_suffix(s, cands.drop_first())
    }
}

/// The title without a trailing copy of the parsed year (bare, or in `()`
/// or `[]`, preceded by a separator), or `None` when nothing changes or the
/// title would become empty.
pub open spec fn strip_year_spec(title: Seq<char>, year: Option<u16>) -> Option<Seq<char>> {
    match year {
        None => None,
        Some(y) => {
            let token = zero_pad(decimal(y as nat), 4);
            let trimmed = trim_end_white(title);
            let cands = seq![seq!['('] + token + seq![')'], seq!['['] + token + seq![']'], token];
            match strip_first_suffix(trimmed, cands) {
                None => None,
                Some(head) => if head.len() == 0 || !is_title_sep(head.last()) {
                    None
                } else {
                    let remainder = trim_white(trim_end_in(head, seq![' ', '.', '_', '-']));
                    if remainder.len() == 0 {
                        None
                    } else {
                        Some(remainder)
                    }
                },
            }
        },
    }
}

/// Drops a trailing year token from `title` when it repeats the parsed
/// `year` (`lioness 2016` with year 2016 gives `lioness`).
pub fn strip_duplicate_year_suffix(title: &str, year: Option<u16>) -> (r: Option<String>)
    ensures
        crate::types::opt_view(r) == strip_year_spec(title@, year),
{
    let y = match year {
        Some(y) => y,
        None => return None,
    };
    let digits = crate::numeric::to_decimal(y as u64);
    let token = crate::numeric::pad_zeros(&digits, 4);
    let t = crate::text::to_chars(title);
    let trimmed = crate::text::trim_end(&t);
    let c1 = crate::text::concat(&crate::text::concat(&crate::text::single('('), &token), &crate::text::single(')'));
    let c2 = crate::text::concat(&crate::text::concat(&crate::text::single('['), &token), &crate::text::single(']'));
    let ghost cands = seq![c1@, c2@, token@];
    assert(cands.drop_first() =~= seq![c2@, token@]);
    assert(cands.drop_first().drop_first() =~= seq![token@]);
    assert(cands.drop_first().drop_first().drop_first() =~= Seq::<Seq<char>>::empty());
    proof {
        reveal_with_fuel(strip_first_suffix, 4);
    }
    let head = if crate::text::has_suffix(&trimmed, &c1) {
        crate::text::sub_vec(&trimmed, 0, trimmed.len() - c1.len())
    } else if crate::text::has_suffix(&trimmed, &c2) {
        crate::text::sub_vec(&trimmed, 0, trimmed.len() - c2.len())
    } else if crate::text::has_suffix(&trimmed, &token) {
        crate::text::sub_vec(&trimmed, 0, trimmed.len() - token.len())
    } else {
        return None;
    };
    if head.len() == 0 {
        return None;
    }
    let boundary = head[head.len() - 1];
    if !(boundary == ' ' || boundary == '.' || boundary == '_' || boundary == '-') {
        return None;
    }
    let mut seps: Vec<char> = Vec::new();
    seps.push(' ');
    seps.push('.');
    seps.push('_');
    seps.push('-');
    assert(seps@ =~= seq![' ', '.', '_', '-']);
    let stripped = crate::text::trim_end_set(&head, &seps);
    let remainder = crate::text::trim(&stripped);
    if remainder.len() == 0 {
        return None;
    }
    Some(crate::text::from_chars(&remainder))
}

// ---------------------------------------------------------------------------
// Bare season token kept in the title
// ---------------------------------------------------------------------------

/// `s` from just after the first occurrence of `c` (requires one).
pub open spec fn after_first(s: Seq<char>, c: char) -> Seq<char> {
    s.subrange(first_index_in(s, seq![c]) + 1, s.len() as int)
}

/// `.` and `_` replaced by spaces.
pub open spec fn dots_to_spaces(s: Seq<char>) -> Seq<char> {
    s.map_values(|c: char| if c == '.' || c == '_' {
        ' '
    } else {
        c
    })
}

/// The filename region before a season token, normalised for comparison
/// with a title: trimmed, a leading `[...]` or `(...)` group dropped, `.`
/// and `_` turned into spaces, white space collapsed to single spaces.
pub open spec fn normalize_region_spec(region: Seq<char>) -> Seq<char> {
    let s = trim_white(region);
    let s2 = if s.len() > 0 && s[0] == '[' && s.drop_first().contains(']') {
        after_first(s.drop_first(), ']')
    } else if s.len() > 0 && s[0] == '(' && s.drop_first().contains(')') {
        after_first(s.drop_first(), ')')
    } else {
        s
    };
    join_with(words(dots_to_spaces(s2)), ' ')
}

/// Normalises the part of a filename before a candidate season token:
/// trims it, drops a leading bracketed or parenthesised group, turns `.`
/// and `_` into spaces and collapses white space.
pub fn normalize_title_region(region: &str) -> (r: String)
    ensures
        r@ == normalize_region_spec(region@),
{
    let t = crate::text::to_chars(region);
    let s = crate::text::trim(&t);
    let rest = if s.len() > 0 { crate::text::sub_vec(&s, 1, s.len()) } else { Vec::new() };
    assert(s@.len() > 0 ==> rest@ =~= s@.drop_first());
    let close_sq = crate::text::single(']');
    let close_par = crate::text::single(')');
    proof {
        crate::text::lemma_first_index_contains(rest@, ']');
        crate::text::lemma_first_index_contains(rest@, ')');
    }
    let sq = if s.len() > 0 && s[0] == '[' {
        crate::text::find_in(&rest, &close_sq)
    } else {
        None
    };
    let par = if s.len() > 0 && s[0] == '(' {
        crate::text::find_in(&rest, &close_par)
    } else {
        None
    };
    let s2: Vec<char> = match sq {
        Some(i) => crate::text::sub_vec(&rest, i + 1, rest.len()),
        None => match par {
            Some(i) => crate::text::sub_vec(&rest, i + 1, rest.len()),
            None => s,
        },
    };
    let mut replaced: Vec<char> = Vec::new();
    let mut k: usize = 0;
    while k < s2.len()
        invariant
            k <= s2@.len(),
            replaced@ == dots_to_spaces(s2@.subrange(0, k as int)),
        decreases s2.len() - k,
    {
        let c = s2[k];
        if c == '.' || c == '_' {
            replaced.push(' ');
        } else {
            replaced.push(c);
        }
        k = k + 1;
        assert(replaced@ =~= dots_to_spaces(s2@.subrange(0, k as int)));
    }
    assert(s2@.subrange(0, s2@.len() as int) =~= s2@);
    let ws = crate::text::split_words(&replaced);
    assert(ws@.map_values(|p: Vec<char>| p@) =~= words(replaced@));
    let joined = crate::text::join_chars(&ws, ' ');
    crate::text::from_chars(&joined)
}

/// Whether a bare `s<digit>` token stands at index `idx` of `original`:
/// an `s` or `S` at the start or after a separator, followed by exactly the
/// season digit, not followed by another digit nor by `e`/`x` and a digit.
pub open spec fn bare_token_at(original: Seq<char>, idx: int, digit: char) -> bool {
    let n = original.len();
    &&& 0 <= idx < n
    &&& ascii_lower(original[idx]) == 's'
    &&& (idx == 0 || is_title_sep(original[idx - 1]))
    &&& idx + 1 < n && original[idx + 1] == digit
    &&& !(idx + 2 < n && is_ascii_digit(original[idx + 2]))
    &&& !(idx + 2 < n && (original[idx + 2] == 'e' || original[idx + 2] == 'E' || original[idx + 2]
        == 'x' || original[idx + 2] == 'X') && idx + 3 < n && is_ascii_digit(original[idx + 3]))
}

/// Scanning from `idx`, the first bare token whose preceding region
/// normalises to the title (ignoring ASCII case) gives the title with the
/// token appended after a space.
pub open spec fn restore_from(title: Seq<char>, digit: char, original: Seq<char>, idx: int) -> Option<
    Seq<char>,
>
    decreases original.len() - idx,
{
    if idx < 0 || idx >= original.len() {
        None
    } else if bare_token_at(original, idx, digit) && eq_ignore_ascii_case(
        normalize_region_spec(original.subrange(0, idx)),
        title,
    ) {
        Some(title + seq![' '] + original.subrange(idx, idx + 2))
    } else {
        restore_from(title, digit, original, idx + 1)
    }
}

/// The title with a bare single-digit season token restored, for seasons 1 to 9.
pub open spec fn restore_spec(title: Seq<char>, season: Option<u16>, original: Seq<char>) -> Option<
    Seq<char>,
> {
    match season {
        Some(n) => if 1 <= n <= 9 {
            restore_from(title, digit_char(n as nat), original, 0)
        } else {
            None
        },
        None => None,
    }
}

/// Puts a bare single-digit season token (`Fire Country S2`) back into the
/// title; the caller then clears the season. Zero-padded, multi-digit and
/// episode-paired tokens are left as real seasons.
pub fn restore_bare_season_suffix(title: &str, season: Option<u16>, original: &str) -> (r: Option<
    String,
>)
    ensures
        crate::types::opt_view(r) == restore_spec(title@, season, original@),
{
    let n: u16 = match season {
        Some(n) => n,
        None => return None,
    };
    if n < 1 || n > 9 {
        return None;
    }
    let digit = crate::numeric::digit_to_char(n as u64);
    let o = crate::text::to_chars(original);
    let t = crate::text::to_chars(title);
    let mut idx: usize = 0;
    while idx < o.len()
        invariant
            o@ == original@,
            t@ == title@,
            digit == digit_char(n as nat),
            idx <= o@.len(),
            restore_spec(title@, season, original@) == restore_from(title@, digit, original@, idx as int),
            season == Some(n),
            1 <= n <= 9,
        decreases o.len() - idx,
    {
        let len = o.len();
        let is_token = crate::unicode::to_ascii_lower(o[idx]) == 's' && (idx == 0 || (o[idx - 1] == ' '
            || o[idx - 1] == '.' || o[idx - 1] == '_' || o[idx - 1] == '-')) && idx + 1 < len
            && o[idx + 1] == digit && !(idx + 2 < len && crate::numeric::char_is_digit(o[idx + 2]))
            && !(idx + 2 < len && (o[idx + 2] == 'e' || o[idx + 2] == 'E' || o[idx + 2] == 'x'
            || o[idx + 2] == 'X') && idx + 3 < len && crate::numeric::char_is_digit(o[idx + 3]));
        if is_token {
            let region = crate::text::sub_vec(&o, 0, idx);
            let norm = normalize_title_region(crate::text::from_chars(&region).as_str());
            let norm_chars = crate::text::to_chars(norm.as_str());
            if crate::unicode::chars_eq_ignore_ascii_case(&norm_chars, &t) {
                let tok = crate::text::sub_vec(&o, idx, idx + 2);
                let with_space = crate::text::concat(&t, &crate::text::single(' '));
                let out = crate::text::concat(&with_space, &tok);
                return Some(crate::text::from_chars(&out));
            }
        }
        idx = idx + 1;
    }
    None
}

// ---------------------------------------------------------------------------
// Folder context
// ---------------------------------------------------------------------------

/// A folder title that is only a season marker (`Season 02`).
pub open spec fn season_only_spec(title: Seq<char>) -> bool {
    let lower = lower_text(title);
    starts_with(lower, "season"@) && {
        let rest = trim_white(lower.subrange(6, lower.len() as int));
        rest.len() > 0 && all_digits(rest)
    }
}

/// Whether a folder title is just a season marker like `Season 02`.
pub fn is_season_only_title(title: &str) -> (r: bool)
    ensures
        r == season_only_spec(title@),
{
    let lower = crate::unicode::lowercase_chars(&crate::text::to_chars(title));
    let prefix = crate::text::to_chars("season");
    proof {
        reveal_strlit("season");
    }
    if !crate::text::has_prefix(&lower, &prefix) {
        return false;
    }
    let rest = crate::text::sub_vec(&lower, 6, lower.len());
    let trimmed = crate::text::trim(&rest);
    if trimmed.len() == 0 {
        return false;
    }
    assert(prefix@.len() == 6);
    let mut i: usize = 0;
    while i < trimmed.len()
        invariant
            lower@ == lower_text(title@),
            starts_with(lower@, "season"@),
            "season"@.len() == 6,
            trimmed@ == trim_white(lower@.subrange(6, lower@.len() as int)),
            trimmed@.len() > 0,
            i <= trimmed@.len(),
            forall|j: int| 0 <= j < i ==> is_ascii_digit(#[trigger] trimmed@[j]),
        decreases trimmed.len() - i,
    {
        if !crate::numeric::char_is_digit(trimmed[i]) {
            return false;
        }
        i = i + 1;
    }
    true
}

/// `o` when set, otherwise `fallback`.
pub open spec fn or_else<T>(o: Option<T>, fallback: Option<T>) -> Option<T> {
    match o {
        Some(x) => Some(x),
        None => fallback,
    }
}

/// Parent and grandparent folder parses merged: the parent wins field by
/// field, the grandparent fills gaps, and the grandparent title replaces a
/// parent title that is empty or only a season marker.
pub open spec fn merge_levels_spec(parent: Option<MediaInfoV>, grandparent: Option<MediaInfoV>) -> Option<
    MediaInfoV,
> {
    match (parent, grandparent) {
        (None, None) => None,
        (Some(p), None) => Some(p),
        (None, Some(g)) => Some(g),
        (Some(p), Some(g)) => Some(
            MediaInfoV {
                title: if g.title.len() > 0 && (season_only_spec(p.title) || p.title.len() == 0) {
                    g.title
                } else {
                    p.title
                },
                season: or_else(p.season, g.season),
                year: or_else(p.year, g.year),
                resolution: or_else(p.resolution, g.resolution),
                video_codec: or_else(p.video_codec, g.video_codec),
                audio_codec: or_else(p.audio_codec, g.audio_codec),
                source: or_else(p.source, g.source),
                release_group: or_else(p.release_group, g.release_group),
                language: or_else(p.language, g.language),
                ..p
            },
        ),
    }
}

/// Clones an optional string into `target` when `target` is unset.
fn fill_gap(target: &mut Option<String>, source: &Option<String>)
    ensures
        crate::types::opt_view(*final(target)) == or_else(
            crate::types::opt_view(*old(target)),
            crate::types::opt_view(*source),
        ),
{
    if target.is_none() {
        *target = crate::types::clone_opt(source);
    }
}

/// Merges parent and grandparent folder metadata into one view: parent
/// wins, grandparent fills gaps; a season-only or empty parent title gives
/// way to the grandparent title.
pub fn merge_folder_levels(parent: &Option<MediaInfo>, grandparent: &Option<MediaInfo>) -> (r: Option<
    MediaInfo,
>)
    ensures
        opt_info_view(r) == merge_levels_spec(opt_info_view(*parent), opt_info_view(*grandparent)),
{
    match (parent, grandparent) {
        (None, None) => None,
        (Some(p), None) => Some(p.duplicate()),
        (None, Some(g)) => Some(g.duplicate()),
        (Some(p), Some(g)) => {
            let mut merged = p.duplicate();
            if g.title.unicode_len() > 0 && (is_season_only_title(merged.title.as_str())
                || merged.title.unicode_len() == 0) {
                merged.title = g.title.clone();
            }
            if merged.season.is_none() {
                merged.season = g.season;
            }
            if merged.year.is_none() {
                merged.year = g.year;
            }
            fill_gap(&mut merged.resolution, &g.resolution);
            fill_gap(&mut merged.video_codec, &g.video_codec);
            fill_gap(&mut merged.audio_codec, &g.audio_codec);
            fill_gap(&mut merged.source, &g.source);
            fill_gap(&mut merged.release_group, &g.release_group);
            fill_gap(&mut merged.language, &g.language);
            Some(merged)
        },
    }
}


/// The reason recorded when a movie is promoted to a series.
pub open spec fn promoted_reason() -> Seq<char> {
    "media type promoted from Movie to Series (folder has season metadata)"@
}

/// The reason recorded when the season is inherited from the folder.
pub open spec fn inherited_reason(s: u16) -> Seq<char> {
    "season "@ + decimal(s as nat) + " inherited from folder"@
}

/// The reason recorded when the folder's season overrides the file's.
pub open spec fn overridden_reason(s: u16) -> Seq<char> {
    "season overridden to "@ + decimal(s as nat) + " from folder (higher confidence)"@
}

/// The reason recorded when a season came from the folder but no episode is known.
pub open spec fn episode_missing_reason() -> Seq<char> {
    "season inherited from folder, episode missing"@
}

/// Some reason mentions `season` or `promoted`.
pub open spec fn mentions_season(reasons: Seq<Seq<char>>) -> bool {
    exists|i: int|
        0 <= i < reasons.len() && (contains_seq(#[trigger] reasons[i], "season"@) || contains_seq(
            reasons[i],
            "promoted"@,
        ))
}

/// Folder context merged into a file parse (see [`merge_folder_context`]),
/// with the reasons joined by `"; "`, or `None` when there are none.
pub open spec fn merge_context_spec(
    file: MediaInfoV,
    parent: Option<MediaInfoV>,
    grandparent: Option<MediaInfoV>,
) -> (MediaInfoV, Option<Seq<char>>) {
    match merge_levels_spec(parent, grandparent) {
        None => (file, None),
        Some(folder) => {
            let promote = file.media_type == MediaType::Movie && folder.season is Some;
            let f1 = if promote {
                MediaInfoV { media_type: MediaType::Series, confidence: ParseConfidence::Medium, ..file }
            } else {
                file
            };
            let r1: Seq<Seq<char>> = if promote {
                seq![promoted_reason()]
            } else {
                Seq::<Seq<char>>::empty()
            };
            let higher = folder.confidence.rank() > f1.confidence.rank();
            let (f2, r2) = if f1.season is None {
                match folder.season {
                    Some(s) => (MediaInfoV { season: Some(s), ..f1 }, r1.push(inherited_reason(s))),
                    None => (f1, r1),
                }
            } else {
                match folder.season {
                    Some(fs) => if higher {
                        (MediaInfoV { season: Some(fs), ..f1 }, r1.push(overridden_reason(fs)))
                    } else {
                        (f1, r1)
                    },
                    None => (f1, r1),
                }
            };
            let f3 = if f2.title.len() == 0 {
                if folder.title.len() > 0 {
                    MediaInfoV { title: folder.title, ..f2 }
                } else {
                    f2
                }
            } else if folder.title.len() > 0 && higher {
                MediaInfoV { title: folder.title, ..f2 }
            } else {
                f2
            };
            let f4 = if f3.year is None {
                match folder.year {
                    Some(y) => MediaInfoV { year: Some(y), ..f3 },
                    None => f3,
                }
            } else if folder.year is Some && higher {
                MediaInfoV { year: folder.year, ..f3 }
            } else {
                f3
            };
            let f5 = match strip_year_spec(f4.title, f4.year) {
                Some(t) => MediaInfoV { title: t, ..f4 },
                None => f4,
            };
            let r3 = if f5.season is Some && f5.episodes.len() == 0 && f5.media_type
                == MediaType::Series && r2.len() > 0 && mentions_season(r2) {
                r2.push(episode_missing_reason())
            } else {
                r2
            };
            (f5, if r3.len() == 0 {
                None
            } else {
                Some(join_with_seq(r3, "; "@))
            })
        },
    }
}

/// `prefix`, the decimal `n`, then `suffix`.
fn reason_with_number(prefix: &str, n: u16, suffix: &str) -> (r: String)
    ensures
        r@ == prefix@ + decimal(n as nat) + suffix@,
{
    let a = String::from_str(prefix);
    let digits = crate::text::from_chars(&crate::numeric::to_decimal(n as u64));
    let b = a.concat(digits.as_str());
    b.concat(suffix)
}

/// Whether some reason mentions `season` or `promoted`.
fn any_mentions_season(reasons: &Vec<String>) -> (r: bool)
    ensures
        r == mentions_season(reasons@.map_values(|p: String| p@)),
{
    let ghost rv = reasons@.map_values(|p: String| p@);
    let season = crate::text::to_chars("season");
    let promoted = crate::text::to_chars("promoted");
    let mut i: usize = 0;
    while i < reasons.len()
        invariant
            rv == reasons@.map_values(|p: String| p@),
            season@ == "season"@,
            promoted@ == "promoted"@,
            i <= reasons@.len(),
            forall|j: int|
                0 <= j < i ==> !(contains_seq(#[trigger] rv[j], "season"@) || contains_seq(
                    rv[j],
                    "promoted"@,
                )),
        decreases reasons.len() - i,
    {
        let c = crate::text::to_chars(reasons[i].as_str());
        if crate::text::has_substring(&c, &season) || crate::text::has_substring(&c, &promoted) {
            assert(rv[i as int] == c@);
            return true;
        }
        i = i + 1;
    }
    false
}

/// Merges folder-level metadata into a file-level parse.
///
/// A movie is promoted to a series when the folder has a season. Season,
/// title and year fill gaps from the folder, and override the file's values
/// only when the folder's confidence is strictly higher (the file wins
/// ties). The duplicate-year strip runs again afterwards. Returns the merged
/// metadata and the reasons for any change, joined by `"; "`.
pub fn merge_folder_context(file_info: MediaInfo, ctx: &FolderContext) -> (r: (
    MediaInfo,
    Option<String>,
))
    ensures
        (r.0@, crate::types::opt_view(r.1)) == merge_context_spec(
            file_info@,
            opt_info_view(ctx.parent),
            opt_info_view(ctx.grandparent),
        ),
{
    let mut file_info = file_info;
    let ghost file0 = file_info@;
    let mut reasons: Vec<String> = Vec::new();
    let folder = match merge_folder_levels(&ctx.parent, &ctx.grandparent) {
        Some(f) => f,
        None => return (file_info, None),
    };
    let ghost fv = folder@;
    // promotion
    let promote = file_info.media_type == MediaType::Movie && folder.season.is_some();
    if promote {
        file_info.media_type = MediaType::Series;
        file_info.confidence = ParseConfidence::Medium;
        reasons.push(
            String::from_str("media type promoted from Movie to Series (folder has season metadata)"),
        );
    }
    let ghost f1 = file_info@;
    assert(reasons@.map_values(|p: String| p@) =~= (if promote {
        seq![promoted_reason()]
    } else {
        Seq::<Seq<char>>::empty()
    }));
    let higher = folder.confidence.is_higher_than(&file_info.confidence);
    // season
    if file_info.season.is_none() {
        if let Some(s) = folder.season {
            file_info.season = Some(s);
            let ghost before = reasons@.map_values(|p: String| p@);
            reasons.push(reason_with_number("season ", s, " inherited from folder"));
            assert(reasons@.map_values(|p: String| p@) =~= before.push(inherited_reason(s)));
        }
    } else if let Some(fs) = folder.season {
        if higher {
            file_info.season = Some(fs);
            let ghost before = reasons@.map_values(|p: String| p@);
            reasons.push(reason_with_number("season overridden to ", fs, " from folder (higher confidence)"));
            assert(reasons@.map_values(|p: String| p@) =~= before.push(overridden_reason(fs)));
        }
    }
    let ghost r2 = reasons@.map_values(|p: String| p@);
    // title
    let file_title_len = file_info.title.unicode_len();
    let folder_title_len = folder.title.unicode_len();
    if file_title_len == 0 {
        if folder_title_len > 0 {
            file_info.title = folder.title.clone();
        }
    } else if folder_title_len > 0 && higher {
        file_info.title = folder.title.clone();
    }
    // year
    if file_info.year.is_none() {
        if let Some(y) = folder.year {
            file_info.year = Some(y);
        }
    } else if folder.year.is_some() && higher {
        file_info.year = folder.year;
    }
    // duplicate year strip
    if let Some(stripped) = strip_duplicate_year_suffix(file_info.title.as_str(), file_info.year) {
        file_info.title = stripped;
    }
    // missing episode
    if file_info.season.is_some() && file_info.episodes.len() == 0 && file_info.media_type
        == MediaType::Series && reasons.len() > 0 {
        if any_mentions_season(&reasons) {
            let ghost before = reasons@.map_values(|p: String| p@);
            reasons.push(String::from_str("season inherited from folder, episode missing"));
            assert(reasons@.map_values(|p: String| p@) =~= before.push(episode_missing_reason()));
        }
    }
    let ambiguity = if reasons.len() == 0 {
        None
    } else {
        Some(crate::text::join_strings(&reasons, "; "))
    };
    (file_info, ambiguity)
}


// ---------------------------------------------------------------------------
// Mapping the parser's properties into MediaInfo
// ---------------------------------------------------------------------------

/// Media kinds reported by `hunch` in its `media_type` property.
#[derive(Debug, Clone, Copy, PartialEq, Eq, Structural)]
pub enum HunchKind {
    /// A movie.
    Movie,
    /// A series episode.
    Episode,
    /// Bonus content (openings, specials, ...).
    Extra,
}

/// What `hunch` extracted from a filename: its confidence and every
/// property name with its values, in the order `hunch` keeps them.
#[derive(Debug, Clone)]
pub struct HunchOutput {
    /// Overall confidence.
    pub confidence: HunchConfidence,
    /// Property name (`title`, `season`, ...) and its values.
    pub properties: Vec<(String, Vec<String>)>,
}

/// The view of [`HunchOutput`].
pub struct HunchOutputV {
    pub confidence: HunchConfidence,
    pub properties: Seq<(Seq<char>, Seq<Seq<char>>)>,
}

/// The views of a property list.
pub open spec fn props_view(p: Seq<(String, Vec<String>)>) -> Seq<(Seq<char>, Seq<Seq<char>>)> {
    p.map_values(|e: (String, Vec<String>)| (e.0@, e.1@.map_values(|v: String| v@)))
}

impl View for HunchOutput {
    type V = HunchOutputV;

    open spec fn view(&self) -> HunchOutputV {
        HunchOutputV { confidence: self.confidence, properties: props_view(self.properties@) }
    }
}

/// What `hunch::hunch_with_context` extracts from `filename` with these
/// sibling filenames (with no siblings it behaves as `hunch::hunch`).
pub uninterp spec fn hunch_output(filename: Seq<char>, siblings: Seq<Seq<char>>) -> HunchOutputV;

/// The views of a list of string slices.
pub open spec fn strs_view(v: Seq<&str>) -> Seq<Seq<char>> {
    v.map_values(|s: &str| s@)
}

/// Runs `hunch::hunch_with_context` and copies out its confidence and its
/// property map (`HunchResult::properties`, property names as
/// `Property`'s display names). The result is named `hunch_output` of the
/// arguments; nothing more is stated of it.
#[verifier::external_body]
fn run_hunch(filename: &str, siblings: &[&str]) -> (r: HunchOutput)
    ensures
        r@ == hunch_output(filename@, strs_view(siblings@)),
{
    let result = hunch::hunch_with_context(filename, siblings);
    let confidence = match result.confidence() {
        hunch::Confidence::Low => HunchConfidence::Low,
        hunch::Confidence::High => HunchConfidence::High,
        _ => HunchConfidence::Medium,
    };
    let properties = result.properties().iter().map(|(k, v)| (k.to_string(), v.clone())).collect();
    HunchOutput { confidence, properties }
}

/// The values of the first property named `key`, or none.
pub open spec fn prop_values(props: Seq<(Seq<char>, Seq<Seq<char>>)>, key: Seq<char>) -> Seq<
    Seq<char>,
>
    decreases props.len(),
{
    if props.len() == 0 {
        Seq::<Seq<char>>::empty()
    } else if props[0].0 == key {
        props[0].1
    } else {
        prop_values(props.drop_first(), key)
    }
}

/// The first value of property `key` (`HunchResult::first`).
pub open spec fn first_value(props: Seq<(Seq<char>, Seq<Seq<char>>)>, key: Seq<char>) -> Option<
    Seq<char>,
> {
    let v = prop_values(props, key);
    if v.len() > 0 {
        Some(v[0])
    } else {
        None
    }
}

/// `s.parse::<i32>().ok()`: an optional sign, then one or more ASCII digits,
/// within the range of `i32`.
pub open spec fn parse_i32_spec(s: Seq<char>) -> Option<i32> {
    if s.len() > 0 && s[0] == '-' {
        let d = s.drop_first();
        if d.len() > 0 && all_digits(d) && digits_value(d) <= 2147483648 {
            Some((0 - digits_value(d)) as i32)
        } else {
            None
        }
    } else {
        match parse_unsigned(s) {
            Some(v) => if v <= 2147483647 {
                Some(v as i32)
            } else {
                None
            },
            None => None,
        }
    }
}

/// `s.parse::<u16>().ok()`.
pub open spec fn parse_u16_spec(s: Seq<char>) -> Option<u16> {
    match parse_unsigned(s) {
        Some(v) => if v <= 65535 {
            Some(v as u16)
        } else {
            None
        },
        None => None,
    }
}

/// The first value of a numeric property parsed as `i32`.
pub open spec fn first_i32(props: Seq<(Seq<char>, Seq<Seq<char>>)>, key: Seq<char>) -> Option<i32> {
    match first_value(props, key) {
        Some(v) => parse_i32_spec(v),
        None => None,
    }
}

/// The media kind, from the lowercased first `type` value.
pub open spec fn hunch_kind(props: Seq<(Seq<char>, Seq<Seq<char>>)>) -> Option<HunchKind> {
    match first_value(props, "type"@) {
        None => None,
        Some(v) => {
            let l = lower_text(v);
            if l == "movie"@ {
                Some(HunchKind::Movie)
            } else if l == "episode"@ {
                Some(HunchKind::Episode)
            } else if l == "extra"@ {
                Some(HunchKind::Extra)
            } else {
                None
            }
        },
    }
}

/// The values that parse as `u16`, in order.
pub open spec fn u16_values(vals: Seq<Seq<char>>) -> Seq<u16>
    decreases vals.len(),
{
    if vals.len() == 0 {
        Seq::<u16>::empty()
    } else {
        match parse_u16_spec(vals.last()) {
            Some(n) => u16_values(vals.drop_last()).push(n),
            None => u16_values(vals.drop_last()),
        }
    }
}

/// The episode numbers: every `episode` value that parses as `u16`, or,
/// when there is none, the first value parsed as `i32` if it fits in `u16`.
pub open spec fn episodes_of(props: Seq<(Seq<char>, Seq<Seq<char>>)>) -> Seq<u16> {
    let e = u16_values(prop_values(props, "episode"@));
    if e.len() > 0 {
        e
    } else {
        match to_u16_spec(first_i32(props, "episode"@)) {
            Some(ep) => seq![ep],
            None => Seq::<u16>::empty(),
        }
    }
}

/// The view of a metadata result.
pub open spec fn info_result_view(r: Result<MediaInfo, MediError>) -> Result<MediaInfoV, MediErrorV> {
    match r {
        Ok(m) => Ok(m@),
        Err(e) => Err(e@),
    }
}

/// The metadata the library derives from the parser's output for `filename`.
pub open spec fn map_hunch_spec(out: HunchOutputV, filename: Seq<char>) -> Result<MediaInfoV, MediErrorV> {
    let props = out.properties;
    match first_value(props, "title"@) {
        None => Err(MediErrorV::NoTitle { filename }),
        Some(title0) => {
            let season0 = to_u16_spec(first_i32(props, "season"@));
            let episodes = episodes_of(props);
            let year = to_u16_spec(first_i32(props, "year"@));
            let title1 = match strip_year_spec(title0, year) {
                Some(t) => t,
                None => title0,
            };
            let (media_type, inferred) = match hunch_kind(props) {
                Some(HunchKind::Movie) => (MediaType::Movie, false),
                Some(_) => (MediaType::Series, false),
                None => (infer_type_spec(season0 is Some, episodes.len() > 0, year is Some).0, true),
            };
            let confidence = map_confidence_spec(out.confidence, inferred);
            let container = match first_value(props, "container"@) {
                Some(c) => c,
                None => extension_spec(filename),
            };
            let (title2, season1) = match restore_spec(title1, season0, filename) {
                Some(t) => (t, None),
                None => (title1, season0),
            };
            let season = if media_type == MediaType::Series && season1 is None && episodes.len() > 0 {
                Some(1u16)
            } else {
                season1
            };
            Ok(
                MediaInfoV {
                    title: title2,
                    media_type,
                    year,
                    season,
                    episodes,
                    resolution: first_value(props, "screen_size"@),
                    video_codec: first_value(props, "video_codec"@),
                    audio_codec: first_value(props, "audio_codec"@),
                    source: first_value(props, "source"@),
                    release_group: first_value(props, "release_group"@),
                    container,
                    language: first_value(props, "language"@),
                    confidence,
                },
            )
        },
    }
}

/// The values of the first property named `key`.
fn prop_values_exec(props: &Vec<(String, Vec<String>)>, key: &str) -> (r: Vec<String>)
    ensures
        r@.map_values(|v: String| v@) == prop_values(props_view(props@), key@),
{
    let k = crate::text::to_chars(key);
    let mut i: usize = 0;
    assert(props_view(props@).subrange(0, props@.len() as int) =~= props_view(props@));
    while i < props.len()
        invariant
            k@ == key@,
            i <= props@.len(),
            prop_values(props_view(props@), key@) == prop_values(
                props_view(props@).subrange(i as int, props@.len() as int),
                key@,
            ),
        decreases props.len() - i,
    {
        let ghost rest = props_view(props@).subrange(i as int, props@.len() as int);
        assert(rest.drop_first() =~= props_view(props@).subrange(i + 1, props@.len() as int));
        let name = crate::text::to_chars(props[i].0.as_str());
        if crate::text::chars_eq(&name, &k) {
            let vals = crate::types::clone_strings(&props[i].1);
            assert(vals@.map_values(|v: String| v@) =~= props[i as int].1@.map_values(|v: String| v@));
            return vals;
        }
        i = i + 1;
    }
    let r: Vec<String> = Vec::new();
    assert(r@.map_values(|v: String| v@) =~= Seq::<Seq<char>>::empty());
    r
}

/// The first value of the property named `key`.
fn first_value_exec(props: &Vec<(String, Vec<String>)>, key: &str) -> (r: Option<String>)
    ensures
        crate::types::opt_view(r) == first_value(props_view(props@), key@),
{
    let vals = prop_values_exec(props, key);
    if vals.len() > 0 {
        assert(vals@.map_values(|v: String| v@)[0] == vals@[0]@);
        Some(vals[0].clone())
    } else {
        None
    }
}

/// `s.parse::<i32>().ok()`.
pub fn parse_i32(s: &[char]) -> (r: Option<i32>)
    ensures
        r == parse_i32_spec(s@),
{
    if s.len() > 0 && s[0] == '-' {
        let d = crate::text::sub_vec(s, 1, s.len());
        assert(d@ =~= s@.drop_first());
        if d.len() == 0 || d[0] == '+' {
            proof {
                if d@.len() > 0 {
                    assert(!crate::numeric::is_ascii_digit(d@[0]));
                }
            }
            return None;
        }
        match crate::numeric::parse_u64(&d) {
            Some(v) => {
                if v <= 2147483648 {
                    let neg: i64 = 0 - (v as i64);
                    Some(neg as i32)
                } else {
                    None
                }
            },
            None => {
                proof {
                    if all_digits(d@) {
                        assert(crate::numeric::parse_unsigned(d@) == Some(digits_value(d@)));
                    }
                }
                None
            },
        }
    } else {
        match crate::numeric::parse_u64(s) {
            Some(v) => if v <= 2147483647 {
                Some(v as i32)
            } else {
                None
            },
            None => None,
        }
    }
}

/// `s.parse::<u16>().ok()`.
fn parse_u16(s: &[char]) -> (r: Option<u16>)
    ensures
        r == parse_u16_spec(s@),
{
    match crate::numeric::parse_u64(s) {
        Some(v) => if v <= 65535 {
            Some(v as u16)
        } else {
            None
        },
        None => None,
    }
}

/// The first value of a numeric property parsed as `i32`.
fn first_i32_exec(props: &Vec<(String, Vec<String>)>, key: &str) -> (r: Option<i32>)
    ensures
        r == first_i32(props_view(props@), key@),
{
    match first_value_exec(props, key) {
        Some(v) => parse_i32(&crate::text::to_chars(v.as_str())),
        None => None,
    }
}

/// The media kind from the `type` property.
fn hunch_kind_exec(props: &Vec<(String, Vec<String>)>) -> (r: Option<HunchKind>)
    ensures
        r == hunch_kind(props_view(props@)),
{
    match first_value_exec(props, "type") {
        None => None,
        Some(v) => {
            let l = crate::unicode::lowercase_chars(&crate::text::to_chars(v.as_str()));
            if crate::text::eq_str(&l, "movie") {
                Some(HunchKind::Movie)
            } else if crate::text::eq_str(&l, "episode") {
                Some(HunchKind::Episode)
            } else if crate::text::eq_str(&l, "extra") {
                Some(HunchKind::Extra)
            } else {
                None
            }
        },
    }
}

/// The episode numbers of the parser output.
fn episodes_exec(props: &Vec<(String, Vec<String>)>, filename: &str) -> (r: Vec<u16>)
    ensures
        r@ == episodes_of(props_view(props@)),
{
    let vals = prop_values_exec(props, "episode");
    let ghost vv = vals@.map_values(|v: String| v@);
    let mut eps: Vec<u16> = Vec::new();
    let mut i: usize = 0;
    while i < vals.len()
        invariant
            vv == vals@.map_values(|v: String| v@),
            i <= vals@.len(),
            eps@ == u16_values(vv.subrange(0, i as int)),
        decreases vals.len() - i,
    {
        assert(vv.subrange(0, i + 1).drop_last() =~= vv.subrange(0, i as int));
        assert(vv.subrange(0, i + 1).last() == vals@[i as int]@);
        if let Some(n) = parse_u16(&crate::text::to_chars(vals[i].as_str())) {
            eps.push(n);
        }
        i = i + 1;
    }
    assert(vv.subrange(0, vals@.len() as int) =~= vv);
    if eps.len() == 0 {
        if let Some(ep) = safe_i32_to_u16(first_i32_exec(props, "episode"), "episode", filename) {
            eps.push(ep);
            assert(eps@ =~= seq![ep]);
        }
    }
    eps
}

/// Maps the parser's output for `filename` into [`MediaInfo`]: a title is
/// required; numbers out of `u16` range are dropped; a title ending in a
/// copy of the year loses it; the media type comes from the parser (anime
/// and extras count as series) or is inferred, which lowers High confidence
/// to Medium; the container falls back to the file extension; a bare
/// single-digit season token is put back into the title; a series with
/// episodes but no season gets season 1.
pub fn map_hunch_result(result: &HunchOutput, original_filename: &str) -> (r: Result<
    MediaInfo,
    MediError,
>)
    ensures
        info_result_view(r) == map_hunch_spec(result@, original_filename@),
{
    let props = &result.properties;
    let title0 = match first_value_exec(props, "title") {
        Some(t) => t,
        None => return Err(MediError::NoTitle { filename: String::from_str(original_filename) }),
    };
    let season0 = safe_i32_to_u16(first_i32_exec(props, "season"), "season", original_filename);
    let episodes = episodes_exec(props, original_filename);
    let year = safe_i32_to_u16(first_i32_exec(props, "year"), "year", original_filename);
    let title1 = match strip_duplicate_year_suffix(title0.as_str(), year) {
        Some(t) => t,
        None => title0,
    };
    let release_group = first_value_exec(props, "release_group");
    let (media_type, type_was_inferred) = match hunch_kind_exec(props) {
        Some(HunchKind::Movie) => (MediaType::Movie, false),
        Some(HunchKind::Episode) => (MediaType::Series, false),
        Some(HunchKind::Extra) => (MediaType::Series, false),
        None => {
            let (inferred, _) = infer_type_from_fields(
                season0.is_some(),
                episodes.len() > 0,
                year.is_some(),
            );
            (inferred, true)
        },
    };
    let confidence = map_confidence(result.confidence, type_was_inferred);
    let resolution = first_value_exec(props, "screen_size");
    let video_codec = first_value_exec(props, "video_codec");
    let audio_codec = first_value_exec(props, "audio_codec");
    let source = first_value_exec(props, "source");
    let language = first_value_exec(props, "language");
    let container = match first_value_exec(props, "container") {
        Some(c) => c,
        None => extract_extension(original_filename),
    };
    let (title, season) = match restore_bare_season_suffix(title1.as_str(), season0, original_filename) {
        Some(restored) => (restored, None),
        None => (title1, season0),
    };
    let season = if media_type == MediaType::Series && season.is_none() && episodes.len() > 0 {
        Some(1u16)
    } else {
        season
    };
    Ok(
        MediaInfo {
            title,
            media_type,
            year,
            season,
            episodes,
            resolution,
            video_codec,
            audio_codec,
            source,
            release_group,
            container,
            language,
            confidence,
        },
    )
}

/// Parses one filename into [`MediaInfo`] with `hunch`, then maps the
/// result with [`map_hunch_result`].
pub fn parse_filename(filename: &str) -> (r: Result<MediaInfo, MediError>)
    ensures
        info_result_view(r) == map_hunch_spec(
            hunch_output(filename@, Seq::<Seq<char>>::empty()),
            filename@,
        ),
{
    let none: Vec<&str> = Vec::new();
    let out = run_hunch(filename, none.as_slice());
    assert(strs_view(none@) =~= Seq::<Seq<char>>::empty());
    map_hunch_result(&out, filename)
}

/// Parses a filename with the names of sibling files, which lets the parser
/// find the title as the text all of them share.
pub fn parse_with_context(filename: &str, siblings: &[&str]) -> (r: Result<MediaInfo, MediError>)
    ensures
        info_result_view(r) == map_hunch_spec(hunch_output(filename@, strs_view(siblings@)), filename@),
{
    let out = run_hunch(filename, siblings);
    map_hunch_result(&out, filename)
}

// ---------------------------------------------------------------------------
// Laws
// ---------------------------------------------------------------------------

/// Without folder context a file's parse is kept as it is, with no reason.
pub proof fn law_no_context_keeps_file(file: MediaInfoV)
    ensures
        merge_context_spec(file, None, None) == (file, None::<Seq<char>>),
{
}

/// The file wins ties: when the folders' parse is not more confident than
/// the series file's own, a season or year the file has is kept.
pub proof fn law_file_wins_ties(
    file: MediaInfoV,
    parent: Option<MediaInfoV>,
    grandparent: Option<MediaInfoV>,
)
    requires
        file.media_type == MediaType::Series,
        merge_levels_spec(parent, grandparent) matches Some(folder) && folder.confidence.rank()
            <= file.confidence.rank(),
    ensures
        file.season is Some ==> merge_context_spec(file, parent, grandparent).0.season
            == file.season,
        file.year is Some ==> merge_context_spec(file, parent, grandparent).0.year == file.year,
{
}

/// The more confident side wins the title and the year. With folder
/// context, a folder title that is not empty replaces the file's title
/// when the file has none or the folders' parse is strictly more confident
/// than the file's (a movie file promoted to a series by a folder season
/// counts as `Medium`); a duplicate year at the end of it is then
/// stripped. Otherwise the file keeps its title up to that strip. Likewise
/// a folder year replaces the file's year when the file has none or the
/// folders are strictly more confident; otherwise the file keeps its year.
/// The season follows the same rule, and a movie file becomes a series
/// exactly when the folders name a season.
pub proof fn law_more_confident_wins(file: MediaInfoV, parent: Option<MediaInfoV>, grandparent: Option<MediaInfoV>)
    requires
        merge_levels_spec(parent, grandparent) is Some,
    ensures
        ({
            let folder = merge_levels_spec(parent, grandparent)->Some_0;
            let m = merge_context_spec(file, parent, grandparent).0;
            let file_conf = if file.media_type == MediaType::Movie && folder.season is Some {
                ParseConfidence::Medium
            } else {
                file.confidence
            };
            let higher = folder.confidence.rank() > file_conf.rank();
            let title_from_folder = folder.title.len() > 0 && (file.title.len() == 0 || higher);
            let before_strip = if title_from_folder { folder.title } else { file.title };
            &&& m.title == (match strip_year_spec(before_strip, m.year) {
                Some(t) => t,
                None => before_strip,
            })
            &&& (folder.year is Some && (file.year is None || higher)) ==> m.year == folder.year
            &&& !(folder.year is Some && (file.year is None || higher)) ==> m.year == file.year
            &&& (folder.season is Some && (file.season is None || higher)) ==> m.season
                == folder.season
            &&& !(folder.season is Some && (file.season is None || higher)) ==> m.season
                == file.season
            &&& (file.media_type == MediaType::Movie && folder.season is Some) ==> m.media_type
                == MediaType::Series
            &&& !(file.media_type == MediaType::Movie && folder.season is Some) ==> m.media_type
                == file.media_type
        }),
{
}

} // verus!
