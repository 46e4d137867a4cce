//! Subtitle discovery, language and type detection, and output paths.
//!
//! Subtitles follow the video they belong to. They are found in four ways
//! (sidecar files, a `Subs`-like folder, language-named folders, VobSub
//! pairs), classified by language and type, and given a path next to the
//! video's new name. Directory contents are handed in as listings; nothing
//! here reads the disk.

use vstd::prelude::*;
use crate::paths::{dir_name, file_extension, file_stem, name_part, parent_part, path_join, join_path, split_file_name, split_path};
use crate::template::{collapse_dot_runs, collapse_runs};
use crate::text::{concat, contains_seq, eq_str, has_substring, last_index_in, lemma_last_index_bounds, rfind_in, single, split_chars, split_on, starts_with, sub_vec, to_chars, from_chars, has_prefix};
use crate::types::{opt_view, subtitle_type_label, DiscoveryMethod, DiscoveryToggles, SubtitleMatch, SubtitleMatchV, SubtitleType};
use crate::unicode::{alpha_runs, lower_text, lowercase_chars, split_alpha_runs, str_to_lowercase};

verus! {

// ---------------------------------------------------------------------------
// Languages
// ---------------------------------------------------------------------------

/// What the library reads of an `isolang::Language`: its ISO 639-3 code and,
/// for the common languages that have one, its ISO 639-1 code.
pub struct LanguageCodes {
    /// Three-letter code.
    pub part3: String,
    /// Two-letter code, if the language has one.
    pub part1: Option<String>,
}

/// The codes of a language as plain values.
pub open spec fn codes_view(c: LanguageCodes) -> (Seq<char>, Option<Seq<char>>) {
    (c.part3@, opt_view(c.part1))
}

/// The codes of an optional language.
pub open spec fn opt_codes_view(c: Option<LanguageCodes>) -> Option<(Seq<char>, Option<Seq<char>>)> {
    match c {
        Some(l) => Some(codes_view(l)),
        None => None,
    }
}

/// The codes of the language that `isolang::Language::from_639_1` finds for
/// a string.
pub uninterp spec fn iso_639_1_language(code: Seq<char>) -> Option<(Seq<char>, Option<Seq<char>>)>;

/// The codes of the language that `isolang::Language::from_639_3` finds for
/// a string.
pub uninterp spec fn iso_639_3_language(code: Seq<char>) -> Option<(Seq<char>, Option<Seq<char>>)>;

/// The codes of the language that `isolang::Language::from_name_lowercase`
/// finds for a lowercase English name.
pub uninterp spec fn english_name_language(name: Seq<char>) -> Option<(Seq<char>, Option<Seq<char>>)>;

/// `isolang::Language::from_639_1`, with the language found given by its
/// codes (`to_639_3`, `to_639_1`); the contract only ties the result to
/// the name `iso_639_1_language`.
#[verifier::external_body]
fn lookup_639_1(code: &str) -> (r: Option<LanguageCodes>)
    ensures
        opt_codes_view(r) == iso_639_1_language(code@),
{
    match isolang::Language::from_639_1(code) {
        Some(l) => Some(LanguageCodes {
            part3: l.to_639_3().to_string(),
            part1: l.to_639_1().map(|c| c.to_string()),
        }),
        None => None,
    }
}

/// `isolang::Language::from_639_3`, with the language found given by its
/// codes; the contract only ties the result to the name
/// `iso_639_3_language`.
#[verifier::external_body]
fn lookup_639_3(code: &str) -> (r: Option<LanguageCodes>)
    ensures
        opt_codes_view(r) == iso_639_3_language(code@),
{
    match isolang::Language::from_639_3(code) {
        Some(l) => Some(LanguageCodes {
            part3: l.to_639_3().to_string(),
            part1: l.to_639_1().map(|c| c.to_string()),
        }),
        None => None,
    }
}

/// `isolang::Language::from_name_lowercase`, with the language found given
/// by its codes; the contract only ties the result to the name
/// `english_name_language`.
#[verifier::external_body]
fn lookup_english_name(name: &str) -> (r: Option<LanguageCodes>)
    ensures
        opt_codes_view(r) == english_name_language(name@),
{
    match isolang::Language::from_name_lowercase(name) {
        Some(l) => Some(LanguageCodes {
            part3: l.to_639_3().to_string(),
            part1: l.to_639_1().map(|c| c.to_string()),
        }),
        None => None,
    }
}

/// The number of bytes UTF-8 takes for a character.
pub open spec fn utf8_width(c: char) -> nat {
    if (c as u32) < 0x80 {
        1
    } else if (c as u32) < 0x800 {
        2
    } else if (c as u32) < 0x10000 {
        3
    } else {
        4
    }
}

/// Length of a string in UTF-8 bytes (`str::len`).
pub open spec fn byte_len(s: Seq<char>) -> nat
    decreases s.len(),
{
    if s.len() == 0 {
        0
    } else {
        byte_len(s.drop_last()) + utf8_width(s.last())
    }
}

/// The UTF-8 length of a string.
fn utf8_len(s: &[char]) -> (r: u128)
    ensures
        r == byte_len(s@),
{
    let mut total: u128 = 0;
    let mut i: usize = 0;
    while i < s.len()
        invariant
            i <= s@.len(),
            total == byte_len(s@.subrange(0, i as int)),
            total <= 4 * i,
        decreases s.len() - i,
    {
        assert(s@.subrange(0, i + 1).drop_last() =~= s@.subrange(0, i as int));
        let c = s[i];
        let code: u32 = c as u32;
        let w: u128 = if code < 0x80 {
            1
        } else if code < 0x800 {
            2
        } else if code < 0x10000 {
            3
        } else {
            4
        };
        total = total + w;
        i = i + 1;
    }
    assert(s@.subrange(0, s@.len() as int) =~= s@);
    total
}

/// The code reported for a language: ISO 639-1 where it has one, else
/// ISO 639-3.
pub open spec fn preferred_code(c: (Seq<char>, Option<Seq<char>>)) -> Seq<char> {
    match c.1 {
        Some(two) => two,
        None => c.0,
    }
}

/// The language named by one lowercased word of a free-form string: a
/// two-letter code with an ISO 639-1 code of its own, a three-letter code,
/// or an English language name.
pub open spec fn word_language(lower: Seq<char>) -> Option<Seq<char>> {
    let by_two = if byte_len(lower) == 2 {
        match iso_639_1_language(lower) {
            Some(c) => c.1,
            None => None,
        }
    } else {
        None
    };
    if by_two is Some {
        by_two
    } else if byte_len(lower) == 3 && iso_639_3_language(lower) is Some {
        Some(preferred_code(iso_639_3_language(lower)->0))
    } else {
        match english_name_language(lower) {
            Some(c) => Some(preferred_code(c)),
            None => None,
        }
    }
}

/// The language of the first word, in order, that names one.
pub open spec fn first_word_language(ws: Seq<Seq<char>>) -> Option<Seq<char>>
    decreases ws.len(),
{
    if ws.len() == 0 {
        None
    } else {
        match word_language(lower_text(ws[0])) {
            Some(l) => Some(l),
            None => first_word_language(ws.drop_first()),
        }
    }
}

/// The language a free-form string (a folder name) names: its alphabetic
/// words are tried in order.
pub open spec fn string_language(s: Seq<char>) -> Option<Seq<char>> {
    first_word_language(alpha_runs(s))
}

/// The code the library reports for a language record.
fn preferred(c: LanguageCodes) -> (r: String)
    ensures
        r@ == preferred_code(codes_view(c)),
{
    match c.part1 {
        Some(two) => two,
        None => c.part3,
    }
}

/// The language one lowercased word names, if any.
fn word_language_exec(lower: &str) -> (r: Option<String>)
    ensures
        opt_view(r) == word_language(lower@),
{
    let lower_chars = to_chars(lower);
    let n = utf8_len(&lower_chars);
    if n == 2 {
        match lookup_639_1(lower) {
            Some(c) => match c.part1 {
                Some(two) => {
                    return Some(two);
                },
                None => {},
            },
            None => {},
        }
    }
    if n == 3 {
        match lookup_639_3(lower) {
            Some(c) => {
                return Some(preferred(c));
            },
            None => {},
        }
    }
    match lookup_english_name(lower) {
        Some(c) => Some(preferred(c)),
        None => None,
    }
}

/// Detects a language in an arbitrary string such as a folder name.
///
/// The string is split into its runs of alphabetic characters; each run,
/// lowercased, is tried as an ISO 639-1 code, an ISO 639-3 code and an
/// English language name. The ISO 639-1 code is returned where the
/// language has one, else the ISO 639-3 code.
pub fn detect_language_from_string(s: &str) -> (r: Option<String>)
    ensures
        opt_view(r) == string_language(s@),
{
    let chars = to_chars(s);
    let runs = split_alpha_runs(&chars);
    let ghost ws = alpha_runs(s@);
    assert(ws.subrange(0, ws.len() as int) =~= ws);
    let mut i: usize = 0;
    while i < runs.len()
        invariant
            runs@.len() == ws.len(),
            forall|k: int| 0 <= k < runs@.len() ==> (#[trigger] runs@[k])@ == ws[k],
            ws == alpha_runs(s@),
            i <= runs@.len(),
            string_language(s@) == first_word_language(ws.subrange(i as int, ws.len() as int)),
        decreases runs.len() - i,
    {
        let ghost rest = ws.subrange(i as int, ws.len() as int);
        assert(rest.drop_first() =~= ws.subrange(i + 1, ws.len() as int));
        assert(rest[0] == runs@[i as int]@);
        let word = from_chars(&runs[i]);
        let lower = str_to_lowercase(word.as_str());
        match word_language_exec(lower.as_str()) {
            Some(l) => {
                return Some(l);
            },
            None => {},
        }
        i = i + 1;
    }
    None
}

/// The five markers of a subtitle type, which are never taken for a
/// language.
pub open spec fn is_type_indicator(w: Seq<char>) -> bool {
    w == "forced"@ || w == "sdh"@ || w == "hi"@ || w == "hearing.impaired"@ || w == "commentary"@
}

/// The language one lowercased dot-separated part of a file name names:
/// a type marker names none; else an ISO 639-1 code with a two-letter code
/// of its own, else an ISO 639-3 code.
pub open spec fn segment_language(lower: Seq<char>) -> Option<Seq<char>> {
    if is_type_indicator(lower) {
        None
    } else {
        let by_one = match iso_639_1_language(lower) {
            Some(c) => c.1,
            None => None,
        };
        if by_one is Some {
            by_one
        } else {
            match iso_639_3_language(lower) {
                Some(c) => Some(preferred_code(c)),
                None => None,
            }
        }
    }
}

/// The language of the first part, in order, that names one.
pub open spec fn first_segment_language(segs: Seq<Seq<char>>) -> Option<Seq<char>>
    decreases segs.len(),
{
    if segs.len() == 0 {
        None
    } else {
        match segment_language(lower_text(segs[0])) {
            Some(l) => Some(l),
            None => first_segment_language(segs.drop_first()),
        }
    }
}

/// A file name without its last `.`-extension.
pub open spec fn without_extension(f: Seq<char>) -> Seq<char> {
    let i = last_index_in(f, seq!['.']);
    if i >= 0 {
        f.subrange(0, i)
    } else {
        f
    }
}

/// The language of a subtitle file: the first dot-separated part of its
/// name (extension dropped, first part skipped) that names one, else the
/// language its parent folder names, else `und`.
pub open spec fn file_language(filename: Seq<char>, parent: Option<Seq<char>>) -> Seq<char> {
    match first_segment_language(split_on(without_extension(filename), '.').drop_first()) {
        Some(l) => l,
        None => match parent {
            Some(p) => match string_language(p) {
                Some(l) => l,
                None => "und"@,
            },
            None => "und"@,
        },
    }
}

/// Whether a lowercased part is one of the type markers.
fn is_type_indicator_exec(w: &[char]) -> (r: bool)
    ensures
        r == is_type_indicator(w@),
{
    eq_str(w, "forced") || eq_str(w, "sdh") || eq_str(w, "hi") || eq_str(w, "hearing.impaired")
        || eq_str(w, "commentary")
}

/// The language one lowercased file-name part names, if any.
fn segment_language_exec(lower: &[char]) -> (r: Option<String>)
    ensures
        opt_view(r) == segment_language(lower@),
{
    if is_type_indicator_exec(lower) {
        return None;
    }
    let s = from_chars(lower);
    match lookup_639_1(s.as_str()) {
        Some(c) => match c.part1 {
            Some(two) => {
                return Some(two);
            },
            None => {},
        },
        None => {},
    }
    match lookup_639_3(s.as_str()) {
        Some(c) => Some(preferred(c)),
        None => None,
    }
}

/// The language of a subtitle file, from its name and the name of the
/// folder it is in.
///
/// The name's extension is dropped and the rest split on dots; every part
/// after the first, lowercased, is tried in order (type markers such as
/// `forced` are skipped) as an ISO 639-1 code, then an ISO 639-3 code.
/// Failing that the folder name is tried as with
/// [`detect_language_from_string`]; failing that the result is `und`.
pub fn detect_language(filename: &str, parent_folder: Option<&str>) -> (r: String)
    ensures
        r@ == file_language(
            filename@,
            match parent_folder {
                Some(p) => Some(p@),
                None => None,
            },
        ),
{
    let chars = to_chars(filename);
    let dot = single('.');
    proof {
        lemma_last_index_bounds(chars@, seq!['.']);
    }
    let base = match rfind_in(&chars, &dot) {
        Some(i) => sub_vec(&chars, 0, i),
        None => chars,
    };
    assert(base@ == without_extension(filename@));
    let segs = split_chars(&base, '.');
    let ghost all = split_on(base@, '.');
    proof {
        crate::text::lemma_split_nonempty(base@, '.');
    }
    let ghost ss = all.drop_first();
    assert(ss.subrange(0, ss.len() as int) =~= ss);
    let mut i: usize = 1;
    while i < segs.len()
        invariant
            segs@.len() == all.len(),
            all == split_on(base@, '.'),
            base@ == without_extension(filename@),
            all.len() >= 1,
            ss == all.drop_first(),
            forall|k: int| 0 <= k < segs@.len() ==> (#[trigger] segs@[k])@ == all[k],
            1 <= i <= segs@.len(),
            first_segment_language(ss) == first_segment_language(
                ss.subrange(i - 1, ss.len() as int),
            ),
        decreases segs.len() - i,
    {
        let ghost rest = ss.subrange(i - 1, ss.len() as int);
        assert(rest.drop_first() =~= ss.subrange(i as int, ss.len() as int));
        assert(rest[0] == segs@[i as int]@);
        let lower = lowercase_chars(&segs[i]);
        match segment_language_exec(&lower) {
            Some(l) => {
                assert(first_segment_language(rest) == Some(l@));
                return l;
            },
            None => {},
        }
        i = i + 1;
    }
    assert(ss.subrange(i - 1, ss.len() as int).len() == 0);
    match parent_folder {
        Some(p) => match detect_language_from_string(p) {
            Some(l) => l,
            None => String::from_str("und"),
        },
        None => String::from_str("und"),
    }
}

// ---------------------------------------------------------------------------
// Subtitle types
// ---------------------------------------------------------------------------

/// The type one dot-separated part names exactly.
pub open spec fn marker_type(w: Seq<char>) -> Option<SubtitleType> {
    if w == "forced"@ {
        Some(SubtitleType::Forced)
    } else if w == "sdh"@ {
        Some(SubtitleType::Sdh)
    } else if w == "hi"@ || w == "hearing.impaired"@ {
        Some(SubtitleType::Hi)
    } else if w == "commentary"@ {
        Some(SubtitleType::Commentary)
    } else {
        None
    }
}

/// The type named by the first part, in order, that is a marker.
pub open spec fn first_marker_type(segs: Seq<Seq<char>>) -> Option<SubtitleType>
    decreases segs.len(),
{
    if segs.len() == 0 {
        None
    } else {
        match marker_type(segs[0]) {
            Some(t) => Some(t),
            None => first_marker_type(segs.drop_first()),
        }
    }
}

/// Whether the parts hold `hearing` directly followed by `impaired` (the
/// marker `hearing.impaired`, which spans two dot-separated parts).
pub open spec fn has_hearing_impaired(segs: Seq<Seq<char>>) -> bool {
    exists|k: int| 0 <= k < segs.len() - 1 && #[trigger] segs[k] == "hearing"@ && segs[k + 1] == "impaired"@
}

/// The type of a subtitle file: the file name is lowercased and split
/// at dots; the first part that is a marker decides, else the parts
/// `hearing` then `impaired` make it `Hi`. Markers inside longer parts do
/// not count.
pub open spec fn file_subtitle_type(filename: Seq<char>) -> Option<SubtitleType> {
    let segs = split_on(lower_text(filename), '.');
    match first_marker_type(segs) {
        Some(t) => Some(t),
        None => if has_hearing_impaired(segs) {
            Some(SubtitleType::Hi)
        } else {
            None
        },
    }
}

/// The type one part names exactly.
fn marker_type_exec(w: &[char]) -> (r: Option<SubtitleType>)
    ensures
        r == marker_type(w@),
{
    if eq_str(w, "forced") {
        Some(SubtitleType::Forced)
    } else if eq_str(w, "sdh") {
        Some(SubtitleType::Sdh)
    } else if eq_str(w, "hi") || eq_str(w, "hearing.impaired") {
        Some(SubtitleType::Hi)
    } else if eq_str(w, "commentary") {
        Some(SubtitleType::Commentary)
    } else {
        None
    }
}

/// Detects the subtitle type from markers in a file name (`forced`, `sdh`,
/// `hi`, `hearing.impaired`, `commentary`), case-insensitively; a marker
/// counts only as whole dot-separated parts.
pub fn detect_subtitle_type(filename: &str) -> (r: Option<SubtitleType>)
    ensures
        r == file_subtitle_type(filename@),
{
    let lower_s = str_to_lowercase(filename);
    let lower = to_chars(lower_s.as_str());
    let segs = split_chars(&lower, '.');
    let ghost all = split_on(lower@, '.');
    assert(all.subrange(0, all.len() as int) =~= all);
    let mut i: usize = 0;
    while i < segs.len()
        invariant
            segs@.len() == all.len(),
            all == split_on(lower@, '.'),
            lower@ == lower_text(filename@),
            forall|k: int| 0 <= k < segs@.len() ==> (#[trigger] segs@[k])@ == all[k],
            i <= segs@.len(),
            first_marker_type(all) == first_marker_type(all.subrange(i as int, all.len() as int)),
        decreases segs.len() - i,
    {
        let ghost rest = all.subrange(i as int, all.len() as int);
        assert(rest.drop_first() =~= all.subrange(i + 1, all.len() as int));
        assert(rest[0] == segs@[i as int]@);
        match marker_type_exec(&segs[i]) {
            Some(t) => {
                assert(first_marker_type(rest) == Some(t));
                return Some(t);
            },
            None => {},
        }
        i = i + 1;
    }
    assert(all.subrange(all.len() as int, all.len() as int) =~= Seq::<Seq<char>>::empty());
    assert(first_marker_type(all) is None);
    let mut k: usize = 0;
    while k < segs.len()
        invariant
            k <= segs@.len(),
            first_marker_type(all) is None,
            all == split_on(lower@, '.'),
            lower@ == lower_text(filename@),
            segs@.len() == all.len(),
            forall|j: int| 0 <= j < segs@.len() ==> (#[trigger] segs@[j])@ == all[j],
            forall|j: int| 0 <= j < k && j < all.len() - 1 ==> !(#[trigger] all[j] == "hearing"@ && all[j + 1] == "impaired"@),
        decreases segs.len() - k,
    {
        if k + 1 < segs.len() && eq_str(&segs[k], "hearing") && eq_str(&segs[k + 1], "impaired") {
            assert(all[k as int] == "hearing"@ && all[k + 1] == "impaired"@);
            return Some(SubtitleType::Hi);
        }
        k = k + 1;
    }
    proof {
        if has_hearing_impaired(all) {
            let j = choose|j: int| 0 <= j < all.len() - 1 && #[trigger] all[j] == "hearing"@ && all[j + 1] == "impaired"@;
            assert(j < k);
        }
    }
    None
}

// ---------------------------------------------------------------------------
// Output paths
// ---------------------------------------------------------------------------

/// The file name of a subtitle: `{stem}.{language}[.{type}].{extension}`
/// with every run of dots collapsed to one.
pub open spec fn subtitle_file_name(
    stem: Seq<char>,
    language: Seq<char>,
    sub_type: Option<SubtitleType>,
    extension: Seq<char>,
) -> Seq<char> {
    let with_type = match sub_type {
        Some(t) => stem + seq!['.'] + language + seq!['.'] + subtitle_type_label(t),
        None => stem + seq!['.'] + language,
    };
    collapse_dot_runs(with_type + seq!['.'] + extension)
}

/// Builds the proposed path of a subtitle: the video's output directory
/// joined with `{stem}.{language}.{type}.{extension}` (the type part only
/// when there is a type), runs of dots collapsed. An empty directory gives
/// the bare file name.
pub fn generate_proposed_path(
    video_output_dir: &str,
    video_proposed_stem: &str,
    language: &str,
    sub_type: Option<&SubtitleType>,
    extension: &str,
) -> (r: String)
    ensures
        r@ == path_join(
            video_output_dir@,
            subtitle_file_name(
                video_proposed_stem@,
                language@,
                match sub_type {
                    Some(t) => Some(*t),
                    None => None,
                },
                extension@,
            ),
        ),
{
    let dot = single('.');
    let stem = to_chars(video_proposed_stem);
    let lang = to_chars(language);
    let a = concat(&stem, &dot);
    let mut name = concat(&a, &lang);
    match sub_type {
        Some(t) => {
            let label_s = t.label();
            let label = to_chars(label_s.as_str());
            let b = concat(&name, &dot);
            name = concat(&b, &label);
        },
        None => {},
    }
    let ext = to_chars(extension);
    let c = concat(&name, &dot);
    let full = concat(&c, &ext);
    let collapsed = collapse_runs(&full);
    let file = from_chars(&collapsed);
    join_path(video_output_dir, file.as_str())
}

// ---------------------------------------------------------------------------
// Discovery
// ---------------------------------------------------------------------------

/// One entry of a directory listing.
#[derive(Debug, Clone)]
pub struct FileEntry {
    /// The entry's file name.
    pub name: String,
    /// Whether it is a regular file (symbolic links followed).
    pub is_file: bool,
    /// Whether it is a directory (symbolic links followed).
    pub is_dir: bool,
}

/// The listing of one sub-directory of the video's directory.
#[derive(Debug, Clone)]
pub struct SubfolderListing {
    /// The sub-directory's name.
    pub name: String,
    /// Its entries.
    pub entries: Vec<FileEntry>,
}

/// What discovery reads of the disk: the entries of the video's directory
/// and, for each of its sub-directories in listing order, that
/// sub-directory's entries. A directory that cannot be read lists nothing.
#[derive(Debug, Clone)]
pub struct FolderListing {
    /// Entries of the video's directory.
    pub entries: Vec<FileEntry>,
    /// Sub-directories of the video's directory with their entries.
    pub subfolders: Vec<SubfolderListing>,
}

/// A subtitle file found by discovery, before classification.
pub struct FoundSubtitle {
    /// Directory holding the file.
    pub dir: Seq<char>,
    /// File name.
    pub name: Seq<char>,
    /// How it was found.
    pub method: DiscoveryMethod,
    /// Language given by the folder it was found in.
    pub language: Option<Seq<char>>,
}

/// The extensions of subtitle files.
pub open spec fn is_subtitle_extension(e: Seq<char>) -> bool {
    e == "srt"@ || e == "ass"@ || e == "ssa"@ || e == "sub"@ || e == "idx"@ || e == "sup"@
        || e == "vtt"@
}

/// A regular file whose extension, lowercased, is a subtitle extension.
pub open spec fn is_subtitle_file(e: FileEntry) -> bool {
    e.is_file && match file_extension(e.name@) {
        Some(x) => is_subtitle_extension(lower_text(x)),
        None => false,
    }
}

/// A file name that starts with the video's stem, directly followed by a
/// dot when `need_dot` is set.
pub open spec fn stem_matches(name: Seq<char>, stem: Seq<char>, need_dot: bool) -> bool {
    starts_with(name, stem) && (!need_dot || (name.len() > stem.len() && name[stem.len() as int]
        == '.'))
}

/// The subtitle files of a listing, in order, whose names match the stem;
/// with `skip_vobsub`, those with extension `idx` or `sub` are left out.
pub open spec fn listed_matches(
    entries: Seq<FileEntry>,
    dir: Seq<char>,
    stem: Seq<char>,
    method: DiscoveryMethod,
    language: Option<Seq<char>>,
    need_dot: bool,
    skip_vobsub: bool,
) -> Seq<FoundSubtitle>
    decreases entries.len(),
{
    if entries.len() == 0 {
        Seq::<FoundSubtitle>::empty()
    } else {
        let prev = listed_matches(
            entries.drop_last(),
            dir,
            stem,
            method,
            language,
            need_dot,
            skip_vobsub,
        );
        let e = entries.last();
        let ext = file_extension(e.name@);
        if is_subtitle_file(e) && stem_matches(e.name@, stem, need_dot) && !(skip_vobsub && (ext
            == Some("idx"@) || ext == Some("sub"@))) {
            prev.push(FoundSubtitle { dir, name: e.name@, method, language })
        } else {
            prev
        }
    }
}

/// A folder named `subs`, `subtitles` or `sub`, in any case.
pub open spec fn is_subs_folder_name(name: Seq<char>) -> bool {
    let l = lower_text(name);
    l == "subs"@ || l == "subtitles"@ || l == "sub"@
}

/// Subtitles in `Subs`-like sub-directories whose names start with the
/// stem and a dot.
pub open spec fn subfolder_matches(
    subs: Seq<SubfolderListing>,
    dir: Seq<char>,
    stem: Seq<char>,
) -> Seq<FoundSubtitle>
    decreases subs.len(),
{
    if subs.len() == 0 {
        Seq::<FoundSubtitle>::empty()
    } else {
        let f = subs.last();
        subfolder_matches(subs.drop_last(), dir, stem) + if is_subs_folder_name(f.name@) {
            listed_matches(
                f.entries@,
                path_join(dir, f.name@),
                stem,
                DiscoveryMethod::SubsSubfolder,
                None,
                true,
                false,
            )
        } else {
            Seq::<FoundSubtitle>::empty()
        }
    }
}

/// Subtitles in language-named sub-directories (not `Subs`-like ones)
/// whose names start with the stem; their language is the folder's.
pub open spec fn nested_matches(
    subs: Seq<SubfolderListing>,
    dir: Seq<char>,
    stem: Seq<char>,
) -> Seq<FoundSubtitle>
    decreases subs.len(),
{
    if subs.len() == 0 {
        Seq::<FoundSubtitle>::empty()
    } else {
        let f = subs.last();
        nested_matches(subs.drop_last(), dir, stem) + if !is_subs_folder_name(f.name@)
            && string_language(f.name@) is Some {
            listed_matches(
                f.entries@,
                path_join(dir, f.name@),
                stem,
                DiscoveryMethod::NestedLanguage,
                string_language(f.name@),
                false,
                false,
            )
        } else {
            Seq::<FoundSubtitle>::empty()
        }
    }
}

/// Whether a listing has an entry with this name.
pub open spec fn has_entry(entries: Seq<FileEntry>, name: Seq<char>) -> bool {
    exists|k: int| 0 <= k < entries.len() && (#[trigger] entries[k]).name@ == name
}

/// `.idx` files whose stem starts with the video's stem and whose `.sub`
/// companion is listed too.
pub open spec fn vobsub_matches(
    entries: Seq<FileEntry>,
    all: Seq<FileEntry>,
    dir: Seq<char>,
    stem: Seq<char>,
) -> Seq<FoundSubtitle>
    decreases entries.len(),
{
    if entries.len() == 0 {
        Seq::<FoundSubtitle>::empty()
    } else {
        let prev = vobsub_matches(entries.drop_last(), all, dir, stem);
        let e = entries.last();
        if e.is_file && file_extension(e.name@) == Some("idx"@) && starts_with(
            file_stem(e.name@),
            stem,
        ) && has_entry(all, file_stem(e.name@) + ".sub"@) {
            prev.push(
                FoundSubtitle {
                    dir,
                    name: e.name@,
                    method: DiscoveryMethod::VobSub,
                    language: None,
                },
            )
        } else {
            prev
        }
    }
}

/// Everything discovery finds for a video, in the order sidecar, `Subs`
/// folders, language folders, VobSub pairs (each only when enabled).
pub open spec fn found_for_video(
    toggles: DiscoveryToggles,
    video_path: Seq<char>,
    entries: Seq<FileEntry>,
    subfolders: Seq<SubfolderListing>,
) -> Seq<FoundSubtitle> {
    let dir = parent_part(video_path);
    let name = name_part(video_path);
    let stem = file_stem(name);
    if name.len() == 0 || name == seq!['.', '.'] {
        Seq::<FoundSubtitle>::empty()
    } else {
        (if toggles.sidecar {
            listed_matches(
                entries,
                dir,
                stem,
                DiscoveryMethod::Sidecar,
                None,
                true,
                true,
            )
        } else {
            Seq::<FoundSubtitle>::empty()
        }) + (if toggles.subs_subfolder {
            subfolder_matches(subfolders, dir, stem)
        } else {
            Seq::<FoundSubtitle>::empty()
        }) + (if toggles.nested_language_folders {
            nested_matches(subfolders, dir, stem)
        } else {
            Seq::<FoundSubtitle>::empty()
        }) + (if toggles.vobsub_pairs {
            vobsub_matches(entries, entries, dir, stem)
        } else {
            Seq::<FoundSubtitle>::empty()
        })
    }
}

/// The companion of a VobSub file: the same stem with the other of the
/// extensions `idx` and `sub`.
pub open spec fn companion_of(f: FoundSubtitle) -> Option<Seq<char>> {
    if f.method == DiscoveryMethod::VobSub {
        let other = if file_extension(f.name) == Some("idx"@) {
            "sub"@
        } else {
            "idx"@
        };
        Some(path_join(f.dir, file_stem(f.name) + seq!['.'] + other))
    } else {
        None
    }
}

/// A found subtitle classified and given its proposed path.
pub open spec fn classified(f: FoundSubtitle, stem: Seq<char>, out_dir: Seq<char>) -> SubtitleMatchV {
    let language = match f.language {
        Some(l) => l,
        None => file_language(f.name, dir_name(f.dir)),
    };
    let t = file_subtitle_type(f.name);
    let ext = match file_extension(f.name) {
        Some(e) => e,
        None => "srt"@,
    };
    SubtitleMatchV {
        source_path: path_join(f.dir, f.name),
        proposed_path: path_join(out_dir, subtitle_file_name(stem, language, t, ext)),
        language,
        subtitle_type: t,
        discovery_method: f.method,
        is_vobsub_pair: f.method == DiscoveryMethod::VobSub,
        companion_path: companion_of(f),
    }
}

/// A discovered subtitle before classification.
struct RawSubtitle {
    dir: String,
    name: String,
    method: DiscoveryMethod,
    pre_language: Option<String>,
}

spec fn raw_found(r: RawSubtitle) -> FoundSubtitle {
    FoundSubtitle { dir: r.dir@, name: r.name@, method: r.method, language: opt_view(r.pre_language) }
}

spec fn raws_found(v: Seq<RawSubtitle>) -> Seq<FoundSubtitle> {
    v.map_values(|r: RawSubtitle| raw_found(r))
}

/// Whether a lowercased extension is a subtitle extension.
fn is_subtitle_extension_exec(e: &[char]) -> (r: bool)
    ensures
        r == is_subtitle_extension(e@),
{
    eq_str(e, "srt") || eq_str(e, "ass") || eq_str(e, "ssa") || eq_str(e, "sub") || eq_str(e, "idx")
        || eq_str(e, "sup") || eq_str(e, "vtt")
}

/// Whether an entry is a subtitle file.
fn is_subtitle_file_exec(e: &FileEntry) -> (r: bool)
    ensures
        r == is_subtitle_file(*e),
{
    if !e.is_file {
        return false;
    }
    let (_stem, ext) = split_file_name(e.name.as_str());
    match ext {
        Some(x) => {
            let l = str_to_lowercase(x.as_str());
            let lc = to_chars(l.as_str());
            is_subtitle_extension_exec(&lc)
        },
        None => false,
    }
}

/// Whether a name matches the stem.
fn stem_matches_exec(name: &[char], stem: &[char], need_dot: bool) -> (r: bool)
    ensures
        r == stem_matches(name@, stem@, need_dot),
{
    if !has_prefix(name, stem) {
        return false;
    }
    if !need_dot {
        return true;
    }
    name.len() > stem.len() && name[stem.len()] == '.'
}

/// Whether an optional extension is `idx` or `sub`.
fn is_vobsub_extension(ext: &Option<String>) -> (r: bool)
    ensures
        r == (opt_view(*ext) == Some("idx"@) || opt_view(*ext) == Some("sub"@)),
{
    match ext {
        Some(x) => {
            let xc = to_chars(x.as_str());
            eq_str(&xc, "idx") || eq_str(&xc, "sub")
        },
        None => false,
    }
}

/// Appends the matching subtitle files of a listing.
fn collect_matches(
    entries: &Vec<FileEntry>,
    dir: &str,
    stem: &[char],
    method: DiscoveryMethod,
    language: &Option<String>,
    need_dot: bool,
    skip_vobsub: bool,
    out: &mut Vec<RawSubtitle>,
)
    ensures
        raws_found(final(out)@) == raws_found(old(out)@) + listed_matches(
            entries@,
            dir@,
            stem@,
            method,
            opt_view(*language),
            need_dot,
            skip_vobsub,
        ),
{
    let ghost start = raws_found(out@);
    let mut i: usize = 0;
    while i < entries.len()
        invariant
            i <= entries@.len(),
            raws_found(out@) == start + listed_matches(
                entries@.subrange(0, i as int),
                dir@,
                stem@,
                method,
                opt_view(*language),
                need_dot,
                skip_vobsub,
            ),
        decreases entries.len() - i,
    {
        let ghost before = entries@.subrange(0, i as int);
        assert(entries@.subrange(0, i + 1).drop_last() =~= before);
        let e = &entries[i];
        let name = to_chars(e.name.as_str());
        let (_stem, ext) = split_file_name(e.name.as_str());
        let keep = is_subtitle_file_exec(e) && stem_matches_exec(&name, stem, need_dot) && !(
        skip_vobsub && is_vobsub_extension(&ext));
        if keep {
            let lang = crate::types::clone_opt(language);
            let ghost prev = out@;
            out.push(
                RawSubtitle {
                    dir: String::from_str(dir),
                    name: e.name.clone(),
                    method,
                    pre_language: lang,
                },
            );
            assert(raws_found(out@) =~= raws_found(prev).push(raw_found(out@.last())));
        }
        i = i + 1;
    }
    assert(entries@.subrange(0, entries@.len() as int) =~= entries@);
}

/// Whether a listing has an entry with this name.
fn has_entry_exec(entries: &Vec<FileEntry>, name: &[char]) -> (r: bool)
    ensures
        r == has_entry(entries@, name@),
{
    let mut i: usize = 0;
    while i < entries.len()
        invariant
            i <= entries@.len(),
            forall|k: int| 0 <= k < i ==> (#[trigger] entries@[k]).name@ != name@,
        decreases entries.len() - i,
    {
        let n = to_chars(entries[i].name.as_str());
        if crate::text::chars_eq(&n, name) {
            return true;
        }
        i = i + 1;
    }
    false
}

/// Appends the VobSub `.idx` files whose `.sub` companion is listed.
fn collect_vobsub(entries: &Vec<FileEntry>, dir: &str, stem: &[char], out: &mut Vec<RawSubtitle>)
    ensures
        raws_found(final(out)@) == raws_found(old(out)@) + vobsub_matches(
            entries@,
            entries@,
            dir@,
            stem@,
        ),
{
    let ghost start = raws_found(out@);
    let sub_ext = to_chars(".sub");
    let mut i: usize = 0;
    while i < entries.len()
        invariant
            i <= entries@.len(),
            sub_ext@ == ".sub"@,
            raws_found(out@) == start + vobsub_matches(
                entries@.subrange(0, i as int),
                entries@,
                dir@,
                stem@,
            ),
        decreases entries.len() - i,
    {
        let ghost before = entries@.subrange(0, i as int);
        assert(entries@.subrange(0, i + 1).drop_last() =~= before);
        let e = &entries[i];
        let (file_stem_s, ext) = split_file_name(e.name.as_str());
        let is_idx = match &ext {
            Some(x) => {
                let xc = to_chars(x.as_str());
                eq_str(&xc, "idx")
            },
            None => false,
        };
        if e.is_file && is_idx {
            let st = to_chars(file_stem_s.as_str());
            if has_prefix(&st, stem) {
                let companion = concat(&st, &sub_ext);
                if has_entry_exec(entries, &companion) {
                    let ghost prev = out@;
                    out.push(
                        RawSubtitle {
                            dir: String::from_str(dir),
                            name: e.name.clone(),
                            method: DiscoveryMethod::VobSub,
                            pre_language: None,
                        },
                    );
                    assert(raws_found(out@) =~= raws_found(prev).push(raw_found(out@.last())));
                }
            }
        }
        i = i + 1;
    }
    assert(entries@.subrange(0, entries@.len() as int) =~= entries@);
}

/// Whether a folder name is `subs`, `subtitles` or `sub` in any case.
fn is_subs_folder_name_exec(name: &str) -> (r: bool)
    ensures
        r == is_subs_folder_name(name@),
{
    let l = str_to_lowercase(name);
    let lc = to_chars(l.as_str());
    eq_str(&lc, "subs") || eq_str(&lc, "subtitles") || eq_str(&lc, "sub")
}

/// Appends the subtitles of `Subs`-like sub-directories.
fn collect_subfolders(
    subs: &Vec<SubfolderListing>,
    dir: &str,
    stem: &[char],
    out: &mut Vec<RawSubtitle>,
)
    ensures
        raws_found(final(out)@) == raws_found(old(out)@) + subfolder_matches(subs@, dir@, stem@),
{
    let ghost start = raws_found(out@);
    let mut i: usize = 0;
    while i < subs.len()
        invariant
            i <= subs@.len(),
            raws_found(out@) == start + subfolder_matches(subs@.subrange(0, i as int), dir@, stem@),
        decreases subs.len() - i,
    {
        let ghost before = subs@.subrange(0, i as int);
        assert(subs@.subrange(0, i + 1).drop_last() =~= before);
        let f = &subs[i];
        if is_subs_folder_name_exec(f.name.as_str()) {
            let path = join_path(dir, f.name.as_str());
            collect_matches(
                &f.entries,
                path.as_str(),
                stem,
                DiscoveryMethod::SubsSubfolder,
                &None,
                true,
                false,
                out,
            );
        } else {
            assert(raws_found(out@) =~= raws_found(out@) + Seq::<FoundSubtitle>::empty());
        }
        i = i + 1;
    }
    assert(subs@.subrange(0, subs@.len() as int) =~= subs@);
}

/// Appends the subtitles of language-named sub-directories.
fn collect_nested(
    subs: &Vec<SubfolderListing>,
    dir: &str,
    stem: &[char],
    out: &mut Vec<RawSubtitle>,
)
    ensures
        raws_found(final(out)@) == raws_found(old(out)@) + nested_matches(subs@, dir@, stem@),
{
    let ghost start = raws_found(out@);
    let mut i: usize = 0;
    while i < subs.len()
        invariant
            i <= subs@.len(),
            raws_found(out@) == start + nested_matches(subs@.subrange(0, i as int), dir@, stem@),
        decreases subs.len() - i,
    {
        let ghost before = subs@.subrange(0, i as int);
        assert(subs@.subrange(0, i + 1).drop_last() =~= before);
        let f = &subs[i];
        if !is_subs_folder_name_exec(f.name.as_str()) {
            match detect_language_from_string(f.name.as_str()) {
                Some(lang) => {
                    let path = join_path(dir, f.name.as_str());
                    collect_matches(
                        &f.entries,
                        path.as_str(),
                        stem,
                        DiscoveryMethod::NestedLanguage,
                        &Some(lang),
                        false,
                        false,
                        out,
                    );
                },
                None => {
                    assert(raws_found(out@) =~= raws_found(out@) + Seq::<FoundSubtitle>::empty());
                },
            }
        } else {
            assert(raws_found(out@) =~= raws_found(out@) + Seq::<FoundSubtitle>::empty());
        }
        i = i + 1;
    }
    assert(subs@.subrange(0, subs@.len() as int) =~= subs@);
}

/// Classifies a discovered subtitle and gives it its proposed path.
fn enrich(raw: &RawSubtitle, video_proposed_stem: &str, video_output_dir: &str) -> (r:
    SubtitleMatch)
    ensures
        r@ == classified(raw_found(*raw), video_proposed_stem@, video_output_dir@),
{
    let source_path = join_path(raw.dir.as_str(), raw.name.as_str());
    let (_dir_parent, folder) = split_path(raw.dir.as_str());
    let parent_folder: Option<&str> = if folder.as_str().is_empty() {
        None
    } else {
        Some(folder.as_str())
    };
    let is_vobsub = raw.method == DiscoveryMethod::VobSub;
    let language = match &raw.pre_language {
        Some(l) => l.clone(),
        None => detect_language(raw.name.as_str(), parent_folder),
    };
    let subtitle_type = detect_subtitle_type(raw.name.as_str());
    let (stem, ext) = split_file_name(raw.name.as_str());
    let extension = match &ext {
        Some(e) => e.clone(),
        None => String::from_str("srt"),
    };
    let type_ref: Option<&SubtitleType> = match &subtitle_type {
        Some(t) => Some(t),
        None => None,
    };
    let proposed_path = generate_proposed_path(
        video_output_dir,
        video_proposed_stem,
        language.as_str(),
        type_ref,
        extension.as_str(),
    );
    let companion_path = if is_vobsub {
        let other = if is_idx_extension(&ext) {
            String::from_str(".sub")
        } else {
            String::from_str(".idx")
        };
        let st = to_chars(stem.as_str());
        let oc = to_chars(other.as_str());
        let file = from_chars(&concat(&st, &oc));
        assert(oc@ =~= seq!['.'] + (if file_extension(raw.name@) == Some("idx"@) {
            "sub"@
        } else {
            "idx"@
        })) by {
            reveal_strlit(".sub");
            reveal_strlit(".idx");
            reveal_strlit("sub");
            reveal_strlit("idx");
        }
        Some(join_path(raw.dir.as_str(), file.as_str()))
    } else {
        None
    };
    let ghost f = raw_found(*raw);
    assert(source_path@ == path_join(f.dir, f.name));
    assert(language@ == match f.language {
        Some(l) => l,
        None => file_language(f.name, dir_name(f.dir)),
    });
    assert(subtitle_type == file_subtitle_type(f.name));
    assert(extension@ == match file_extension(f.name) {
        Some(e) => e,
        None => "srt"@,
    });
    assert(opt_view(companion_path) == companion_of(f));
    SubtitleMatch {
        source_path,
        proposed_path,
        language,
        subtitle_type,
        discovery_method: raw.method,
        is_vobsub_pair: is_vobsub,
        companion_path,
    }
}

/// Whether an optional extension is `idx`.
fn is_idx_extension(ext: &Option<String>) -> (r: bool)
    ensures
        r == (opt_view(*ext) == Some("idx"@)),
{
    match ext {
        Some(x) => {
            let xc = to_chars(x.as_str());
            eq_str(&xc, "idx")
        },
        None => false,
    }
}

/// Finds, classifies and places the subtitles of video files.
pub struct SubtitleDiscovery {
    toggles: DiscoveryToggles,
    preferred_languages: Vec<String>,
}

impl SubtitleDiscovery {
    /// The discovery methods that are enabled.
    pub closed spec fn toggles_spec(&self) -> DiscoveryToggles {
        self.toggles
    }

    /// The preferred languages, in priority order.
    pub closed spec fn preferred_spec(&self) -> Seq<Seq<char>> {
        self.preferred_languages@.map_values(|s: String| s@)
    }

    /// Creates a discovery instance: `toggles` says which methods are
    /// active, `preferred_languages` lists ISO 639-1 codes in priority
    /// order.
    pub fn new(toggles: DiscoveryToggles, preferred_languages: Vec<String>) -> (r: Self)
        ensures
            r.toggles_spec() == toggles,
            r.preferred_spec() == preferred_languages@.map_values(|s: String| s@),
    {
        SubtitleDiscovery { toggles, preferred_languages }
    }

    /// The preferred languages of this instance.
    pub fn preferred_languages(&self) -> (r: &[String])
        ensures
            r@.map_values(|s: String| s@) == self.preferred_spec(),
    {
        self.preferred_languages.as_slice()
    }

    /// Discovers the subtitles of a video file.
    ///
    /// `video_path` is the video's current path, `listing` what its
    /// directory holds. Each subtitle found gets a proposed path in
    /// `video_output_dir` named after `video_proposed_stem`, the stem the
    /// video is renamed to.
    pub fn discover_for_video(
        &self,
        video_path: &str,
        video_proposed_stem: &str,
        video_output_dir: &str,
        listing: &FolderListing,
    ) -> (r: Vec<SubtitleMatch>)
        ensures
            r@.len() == found_for_video(self.toggles_spec(), video_path@, listing.entries@, listing.subfolders@).len(),
            forall|k: int|
                0 <= k < r@.len() ==> (#[trigger] r@[k])@ == classified(
                    found_for_video(self.toggles_spec(), video_path@, listing.entries@, listing.subfolders@)[k],
                    video_proposed_stem@,
                    video_output_dir@,
                ),
    {
        let (dir, name) = split_path(video_path);
        let name_chars = to_chars(name.as_str());
        let is_dotdot = name_chars.len() == 2 && name_chars[0] == '.' && name_chars[1] == '.';
        if name_chars.len() == 0 || is_dotdot {
            proof {
                if is_dotdot {
                    assert(name_chars@ =~= seq!['.', '.']);
                }
            }
            return Vec::new();
        }
        assert(name@ != seq!['.', '.']);
        let (stem_s, _ext) = split_file_name(name.as_str());
        let stem = to_chars(stem_s.as_str());
        let mut raw: Vec<RawSubtitle> = Vec::new();
        let ghost e = Seq::<FoundSubtitle>::empty();
        assert(raws_found(raw@) =~= e);
        if self.toggles.sidecar {
            collect_matches(
                &listing.entries,
                dir.as_str(),
                &stem,
                DiscoveryMethod::Sidecar,
                &None,
                true,
                true,
                &mut raw,
            );
        }
        let ghost a = raws_found(raw@);
        if self.toggles.subs_subfolder {
            collect_subfolders(&listing.subfolders, dir.as_str(), &stem, &mut raw);
        }
        let ghost b = raws_found(raw@);
        if self.toggles.nested_language_folders {
            collect_nested(&listing.subfolders, dir.as_str(), &stem, &mut raw);
        }
        let ghost c = raws_found(raw@);
        if self.toggles.vobsub_pairs {
            collect_vobsub(&listing.entries, dir.as_str(), &stem, &mut raw);
        }
        let ghost found = found_for_video(
            self.toggles,
            video_path@,
            listing.entries@,
            listing.subfolders@,
        );
        assert(raws_found(raw@) =~= found);
        let mut result: Vec<SubtitleMatch> = Vec::new();
        let mut i: usize = 0;
        while i < raw.len()
            invariant
                raws_found(raw@) == found,
                i <= raw@.len(),
                result@.len() == i,
                forall|k: int|
                    0 <= k < i ==> (#[trigger] result@[k])@ == classified(
                        found[k],
                        video_proposed_stem@,
                        video_output_dir@,
                    ),
            decreases raw.len() - i,
        {
            assert(raws_found(raw@)[i as int] == raw_found(raw@[i as int]));
            let m = enrich(&raw[i], video_proposed_stem, video_output_dir);
            result.push(m);
            i = i + 1;
        }
        result
    }
}

// ---------------------------------------------------------------------------
// Laws
// ---------------------------------------------------------------------------

/// Collapsing leaves no two adjacent dots.
pub proof fn lemma_collapsed_no_double_dot(s: Seq<char>)
    ensures
        forall|i: int|
            0 <= i < collapse_dot_runs(s).len() - 1 ==> !(#[trigger] collapse_dot_runs(s)[i] == '.'
                && collapse_dot_runs(s)[i + 1] == '.'),
    decreases s.len(),
{
    if s.len() > 0 {
        lemma_collapsed_no_double_dot(s.drop_last());
        lemma_collapse_last(s.drop_last());
    }
}

/// The last character of a collapsed sequence is the last one of the
/// input, and the collapse is empty only for an empty input.
proof fn lemma_collapse_last(s: Seq<char>)
    ensures
        (collapse_dot_runs(s).len() == 0) == (s.len() == 0),
        s.len() > 0 ==> collapse_dot_runs(s).last() == s.last(),
    decreases s.len(),
{
    if s.len() > 0 {
        lemma_collapse_last(s.drop_last());
        if s.last() == '.' && s.len() >= 2 && s[s.len() - 2] == '.' {
            assert(s.drop_last().last() == s[s.len() - 2]);
        }
    }
}

/// A subtitle's file name never holds two adjacent dots, whatever the
/// stem, language, type and extension (an empty part does not leave `..`).
pub proof fn law_subtitle_name_no_double_dot(
    stem: Seq<char>,
    language: Seq<char>,
    sub_type: Option<SubtitleType>,
    extension: Seq<char>,
)
    ensures
        !contains_seq(subtitle_file_name(stem, language, sub_type, extension), seq!['.', '.']),
{
    let with_type = match sub_type {
        Some(t) => stem + seq!['.'] + language + seq!['.'] + subtitle_type_label(t),
        None => stem + seq!['.'] + language,
    };
    let full = with_type + seq!['.'] + extension;
    let n = subtitle_file_name(stem, language, sub_type, extension);
    assert(n == collapse_dot_runs(full));
    lemma_collapsed_no_double_dot(full);
    if contains_seq(n, seq!['.', '.']) {
        let i = choose|i: int| crate::text::occurs_at(n, seq!['.', '.'], i);
        assert(n.subrange(i, i + 2) == seq!['.', '.']);
        assert(n[i] == n.subrange(i, i + 2)[0]);
        assert(n[i + 1] == n.subrange(i, i + 2)[1]);
    }
}

/// Collapsing dot runs is monotone: what a text collapses to begins what
/// any extension of it collapses to.
proof fn lemma_collapse_prefix(s: Seq<char>, t: Seq<char>)
    ensures
        collapse_dot_runs(s).is_prefix_of(collapse_dot_runs(s + t)),
    decreases t.len(),
{
    if t.len() == 0 {
        assert(s + t =~= s);
    } else {
        lemma_collapse_prefix(s, t.drop_last());
        assert((s + t).drop_last() =~= s + t.drop_last());
    }
}

/// A text without two adjacent dots collapses to itself.
proof fn lemma_collapse_identity(s: Seq<char>)
    requires
        forall|i: int| 0 <= i < s.len() - 1 ==> !(#[trigger] s[i] == '.' && s[i + 1] == '.'),
    ensures
        collapse_dot_runs(s) == s,
    decreases s.len(),
{
    if s.len() > 0 {
        let p = s.drop_last();
        assert forall|i: int| 0 <= i < p.len() - 1 implies !(#[trigger] p[i] == '.' && p[i + 1]
            == '.') by {
            assert(p[i] == s[i] && p[i + 1] == s[i + 1]);
        }
        lemma_collapse_identity(p);
        if s.len() >= 2 {
            assert(s[s.len() - 2] == '.' ==> s.last() != '.');
        }
        assert(p.push(s.last()) =~= s);
    }
}

/// A subtitle follows its video: its file name begins with the video's new
/// stem and a dot (dot runs collapsed, as in the whole name); a stem
/// without two adjacent dots that does not end in a dot begins the name
/// unchanged.
pub proof fn law_subtitle_name_follows_stem(
    stem: Seq<char>,
    language: Seq<char>,
    sub_type: Option<SubtitleType>,
    extension: Seq<char>,
)
    ensures
        collapse_dot_runs(stem.push('.')).is_prefix_of(
            subtitle_file_name(stem, language, sub_type, extension),
        ),
        (forall|i: int| 0 <= i < stem.len() - 1 ==> !(#[trigger] stem[i] == '.' && stem[i + 1] == '.'))
            && (stem.len() == 0 || stem.last() != '.') ==> stem.push('.').is_prefix_of(
            subtitle_file_name(stem, language, sub_type, extension),
        ),
{
    let rest = match sub_type {
        Some(t) => language + seq!['.'] + subtitle_type_label(t) + seq!['.'] + extension,
        None => language + seq!['.'] + extension,
    };
    let full = match sub_type {
        Some(t) => stem + seq!['.'] + language + seq!['.'] + subtitle_type_label(t) + seq!['.']
            + extension,
        None => stem + seq!['.'] + language + seq!['.'] + extension,
    };
    assert(full =~= stem.push('.') + rest);
    assert(subtitle_file_name(stem, language, sub_type, extension) == collapse_dot_runs(full));
    lemma_collapse_prefix(stem.push('.'), rest);
    let d = stem.push('.');
    if (forall|i: int| 0 <= i < stem.len() - 1 ==> !(#[trigger] stem[i] == '.' && stem[i + 1] == '.'))
        && (stem.len() == 0 || stem.last() != '.') {
        assert forall|i: int| 0 <= i < d.len() - 1 implies !(#[trigger] d[i] == '.' && d[i + 1]
            == '.') by {
            if i < stem.len() - 1 {
                assert(d[i] == stem[i] && d[i + 1] == stem[i + 1]);
            } else {
                assert(d[i] == stem.last());
            }
        }
        lemma_collapse_identity(d);
    }
}

/// Every subtitle of a listing is found with the method asked for.
proof fn lemma_listed_method(
    entries: Seq<FileEntry>,
    dir: Seq<char>,
    stem: Seq<char>,
    method: DiscoveryMethod,
    language: Option<Seq<char>>,
    need_dot: bool,
    skip_vobsub: bool,
)
    ensures
        forall|k: int|
            0 <= k < listed_matches(entries, dir, stem, method, language, need_dot, skip_vobsub).len()
                ==> (#[trigger] listed_matches(
                entries,
                dir,
                stem,
                method,
                language,
                need_dot,
                skip_vobsub,
            )[k]).method == method,
    decreases entries.len(),
{
    if entries.len() > 0 {
        lemma_listed_method(entries.drop_last(), dir, stem, method, language, need_dot, skip_vobsub);
    }
}

/// Everything found in `Subs`-like folders is found that way.
proof fn lemma_subfolder_method(subs: Seq<SubfolderListing>, dir: Seq<char>, stem: Seq<char>)
    ensures
        forall|k: int|
            0 <= k < subfolder_matches(subs, dir, stem).len() ==> (#[trigger] subfolder_matches(
                subs,
                dir,
                stem,
            )[k]).method == DiscoveryMethod::SubsSubfolder,
    decreases subs.len(),
{
    if subs.len() > 0 {
        lemma_subfolder_method(subs.drop_last(), dir, stem);
        let f = subs.last();
        lemma_listed_method(
            f.entries@,
            path_join(dir, f.name@),
            stem,
            DiscoveryMethod::SubsSubfolder,
            None,
            true,
            false,
        );
    }
}

/// Everything found in language folders is found that way.
proof fn lemma_nested_method(subs: Seq<SubfolderListing>, dir: Seq<char>, stem: Seq<char>)
    ensures
        forall|k: int|
            0 <= k < nested_matches(subs, dir, stem).len() ==> (#[trigger] nested_matches(
                subs,
                dir,
                stem,
            )[k]).method == DiscoveryMethod::NestedLanguage,
    decreases subs.len(),
{
    if subs.len() > 0 {
        lemma_nested_method(subs.drop_last(), dir, stem);
        let f = subs.last();
        lemma_listed_method(
            f.entries@,
            path_join(dir, f.name@),
            stem,
            DiscoveryMethod::NestedLanguage,
            string_language(f.name@),
            false,
            false,
        );
    }
}

/// Everything found as a VobSub pair is found that way.
proof fn lemma_vobsub_method(
    entries: Seq<FileEntry>,
    all: Seq<FileEntry>,
    dir: Seq<char>,
    stem: Seq<char>,
)
    ensures
        forall|k: int|
            0 <= k < vobsub_matches(entries, all, dir, stem).len() ==> (#[trigger] vobsub_matches(
                entries,
                all,
                dir,
                stem,
            )[k]).method == DiscoveryMethod::VobSub,
    decreases entries.len(),
{
    if entries.len() > 0 {
        lemma_vobsub_method(entries.drop_last(), all, dir, stem);
    }
}

/// Discovery only uses the methods that are enabled: a subtitle is never
/// reported as found by a disabled method.
pub proof fn law_only_enabled_methods(
    toggles: DiscoveryToggles,
    video_path: Seq<char>,
    entries: Seq<FileEntry>,
    subfolders: Seq<SubfolderListing>,
)
    ensures
        forall|k: int|
            0 <= k < found_for_video(toggles, video_path, entries, subfolders).len() ==> match (
            #[trigger] found_for_video(toggles, video_path, entries, subfolders)[k]).method {
                DiscoveryMethod::Sidecar => toggles.sidecar,
                DiscoveryMethod::SubsSubfolder => toggles.subs_subfolder,
                DiscoveryMethod::NestedLanguage => toggles.nested_language_folders,
                DiscoveryMethod::VobSub => toggles.vobsub_pairs,
            },
{
    let dir = parent_part(video_path);
    let stem = file_stem(name_part(video_path));
    lemma_listed_method(entries, dir, stem, DiscoveryMethod::Sidecar, None, true, true);
    lemma_subfolder_method(subfolders, dir, stem);
    lemma_nested_method(subfolders, dir, stem);
    lemma_vobsub_method(entries, entries, dir, stem);
    let found = found_for_video(toggles, video_path, entries, subfolders);
    let a = if toggles.sidecar {
        listed_matches(entries, dir, stem, DiscoveryMethod::Sidecar, None, true, true)
    } else {
        Seq::<FoundSubtitle>::empty()
    };
    let b = if toggles.subs_subfolder {
        subfolder_matches(subfolders, dir, stem)
    } else {
        Seq::<FoundSubtitle>::empty()
    };
    let c = if toggles.nested_language_folders {
        nested_matches(subfolders, dir, stem)
    } else {
        Seq::<FoundSubtitle>::empty()
    };
    let d = if toggles.vobsub_pairs {
        vobsub_matches(entries, entries, dir, stem)
    } else {
        Seq::<FoundSubtitle>::empty()
    };
    assert forall|k: int| 0 <= k < found.len() implies match (#[trigger] found[k]).method {
        DiscoveryMethod::Sidecar => toggles.sidecar,
        DiscoveryMethod::SubsSubfolder => toggles.subs_subfolder,
        DiscoveryMethod::NestedLanguage => toggles.nested_language_folders,
        DiscoveryMethod::VobSub => toggles.vobsub_pairs,
    } by {
        let name = name_part(video_path);
        if !(name.len() == 0 || name == seq!['.', '.']) {
            assert(found == a + b + c + d);
            if k < a.len() {
                assert(found[k] == a[k]);
            } else if k < a.len() + b.len() {
                assert(found[k] == b[k - a.len()]);
            } else if k < a.len() + b.len() + c.len() {
                assert(found[k] == c[k - a.len() - b.len()]);
            } else {
                assert(found[k] == d[k - a.len() - b.len() - c.len()]);
            }
        }
    }
}

/// A part of a file name: not empty, ASCII, without dots.
pub open spec fn plain_part(s: Seq<char>) -> bool {
    s.len() > 0 && forall|i: int|
        0 <= i < s.len() ==> crate::unicode::is_ascii(#[trigger] s[i]) && s[i] != '.'
}

/// A text in ASCII lower case.
pub open spec fn ascii_lowered(s: Seq<char>) -> Seq<char> {
    s.map_values(|c: char| crate::unicode::ascii_lower(c))
}

/// No two adjacent dots.
spec fn no_double_dot(s: Seq<char>) -> bool {
    forall|i: int| 0 <= i < s.len() - 1 ==> !(#[trigger] s[i] == '.' && s[i + 1] == '.')
}

/// Appending a dot and a plain part keeps a text free of adjacent dots and
/// of a trailing dot, and ASCII.
proof fn lemma_dot_join(a: Seq<char>, b: Seq<char>)
    requires
        a.len() > 0,
        a.last() != '.',
        no_double_dot(a),
        crate::unicode::ascii_text(a),
        plain_part(b),
    ensures
        no_double_dot(a + seq!['.'] + b),
        (a + seq!['.'] + b).last() != '.',
        crate::unicode::ascii_text(a + seq!['.'] + b),
        ascii_lowered(a + seq!['.'] + b) == ascii_lowered(a) + seq!['.'] + ascii_lowered(b),
{
    let w = a + seq!['.'] + b;
    let n = a.len() as int;
    assert forall|i: int| 0 <= i < w.len() - 1 implies !(#[trigger] w[i] == '.' && w[i + 1] == '.') by {
        if i < n - 1 {
            assert(w[i] == a[i] && w[i + 1] == a[i + 1]);
        } else if i == n - 1 {
            assert(w[i] == a.last());
        } else if i == n {
            assert(w[i + 1] == b[0]);
        } else {
            assert(w[i] == b[i - n - 1]);
        }
    }
    assert(w.last() == b[b.len() - 1]);
    assert forall|i: int| 0 <= i < w.len() implies crate::unicode::is_ascii(#[trigger] w[i]) by {
        if i < n {
            assert(w[i] == a[i]);
        } else if i > n {
            assert(w[i] == b[i - n - 1]);
        }
    }
    assert(ascii_lowered(w) =~= ascii_lowered(a) + seq!['.'] + ascii_lowered(b));
}

/// Lowercasing a plain part keeps it without dots.
proof fn lemma_lowered_free(s: Seq<char>)
    requires
        plain_part(s),
    ensures
        !ascii_lowered(s).contains('.'),
        ascii_lowered(s).len() == s.len(),
{
    if ascii_lowered(s).contains('.') {
        let j = choose|j: int| 0 <= j < ascii_lowered(s).len() && ascii_lowered(s)[j] == '.';
        assert(s[j] != '.');
    }
}

/// The marker a type is written with, a plain lower-case part that names
/// that type.
proof fn lemma_label_marker(t: SubtitleType)
    ensures
        plain_part(subtitle_type_label(t)),
        ascii_lowered(subtitle_type_label(t)) == subtitle_type_label(t),
        marker_type(subtitle_type_label(t)) == Some(t),
{
    reveal_strlit("forced");
    reveal_strlit("sdh");
    reveal_strlit("hi");
    reveal_strlit("hearing.impaired");
    reveal_strlit("commentary");
    let l = subtitle_type_label(t);
    assert(ascii_lowered(l) =~= l);
}

/// A subtitle's type survives its naming: the name built for a type, from
/// a stem and a language that are plain parts and not themselves type
/// markers and a plain extension, is detected as that same type. So the
/// names built for different types of one language differ, and differ
/// from the name without a type.
pub proof fn law_subtitle_type_survives_naming(
    stem: Seq<char>,
    language: Seq<char>,
    t: SubtitleType,
    extension: Seq<char>,
)
    requires
        plain_part(stem),
        plain_part(language),
        plain_part(extension),
        marker_type(ascii_lowered(stem)) is None,
        marker_type(ascii_lowered(language)) is None,
    ensures
        file_subtitle_type(subtitle_file_name(stem, language, Some(t), extension)) == Some(t),
{
    let label = subtitle_type_label(t);
    lemma_label_marker(t);
    assert(no_double_dot(stem)) by {
        assert forall|i: int| 0 <= i < stem.len() - 1 implies !(#[trigger] stem[i] == '.' && stem[i + 1]
            == '.') by {}
    }
    assert(stem.last() == stem[stem.len() - 1]);
    assert(crate::unicode::ascii_text(stem));
    let y = stem + seq!['.'] + language;
    lemma_dot_join(stem, language);
    let x = y + seq!['.'] + label;
    lemma_dot_join(y, label);
    let w = x + seq!['.'] + extension;
    lemma_dot_join(x, extension);
    assert(subtitle_file_name(stem, language, Some(t), extension) == collapse_dot_runs(w));
    lemma_collapse_identity(w);
    let ls = ascii_lowered(stem);
    let ll = ascii_lowered(language);
    let le = ascii_lowered(extension);
    assert(lower_text(w) == ascii_lowered(w));
    assert(ascii_lowered(w) == ls + seq!['.'] + ll + seq!['.'] + label + seq!['.'] + le);
    lemma_lowered_free(stem);
    lemma_lowered_free(language);
    lemma_lowered_free(extension);
    assert(!label.contains('.')) by {
        if label.contains('.') {
            let j = choose|j: int| 0 <= j < label.len() && label[j] == '.';
        }
    }
    crate::text::lemma_split_free(ls, '.');
    crate::text::lemma_split_free(ll, '.');
    crate::text::lemma_split_free(label, '.');
    crate::text::lemma_split_free(le, '.');
    crate::text::lemma_split_concat(ls, ll, '.');
    crate::text::lemma_split_concat(ls + seq!['.'] + ll, label, '.');
    crate::text::lemma_split_concat(ls + seq!['.'] + ll + seq!['.'] + label, le, '.');
    let segs = split_on(lower_text(w), '.');
    assert(segs =~= seq![ls, ll, label, le]);
    assert(segs.drop_first() =~= seq![ll, label, le]);
    assert(segs.drop_first().drop_first() =~= seq![label, le]);
    assert(first_marker_type(segs.drop_first().drop_first()) == Some(t));
    assert(first_marker_type(segs.drop_first()) == Some(t));
    assert(first_marker_type(segs) == Some(t));
}

} // verus!
