//! Naming templates: `{variable}` / `{variable:modifier}` placeholders
//! rendered against parsed media metadata into a relative output path.
//!
//! A placeholder is `{`, one or more word characters (the name), optionally
//! `:` and one or more word characters (the modifier), then `}`. Placeholders
//! are found left to right without overlapping; all other text is copied.
//! The rendered text is split on `/` into path components, each of which is
//! sanitised for cross-platform use.

use vstd::prelude::*;

use crate::error::{MediError, MediErrorV};
use crate::numeric::{decimal, parse_u64_spec, parse_usize_spec, zero_pad};
use crate::text::{
    join_with, split_on, trim_end_in, trim_start_in, trim_white, words,
};
use crate::types::{MediaInfo, MediaInfoV, MediaType, TemplateWarning};
use crate::unicode::{lower_text, upper_char, is_word};

verus! {

// ---------------------------------------------------------------------------
// Placeholder grammar
// ---------------------------------------------------------------------------

/// Number of consecutive word characters of `t` from index `i`.
pub open spec fn word_run(t: Seq<char>, i: int) -> int
    decreases t.len() - i,
{
    if 0 <= i < t.len() && is_word(t[i]) {
        1 + word_run(t, i + 1)
    } else {
        0
    }
}

/// A placeholder found in a template: the name is `t[start + 1 .. name_end]`,
/// the modifier `t[m.0 .. m.1]`, and the placeholder ends before `end`.
pub struct PlaceholderSpan {
    pub name_end: int,
    pub modifier: Option<(int, int)>,
    pub end: int,
}

/// The placeholder starting at index `i`, if one does.
pub open spec fn placeholder_at(t: Seq<char>, i: int) -> Option<PlaceholderSpan> {
    if 0 <= i < t.len() && t[i] == '{' {
        let n = word_run(t, i + 1);
        let j = i + 1 + n;
        if n >= 1 && j < t.len() {
            if t[j] == '}' {
                Some(PlaceholderSpan { name_end: j, modifier: None, end: j + 1 })
            } else if t[j] == ':' {
                let m = word_run(t, j + 1);
                let k = j + 1 + m;
                if m >= 1 && k < t.len() && t[k] == '}' {
                    Some(PlaceholderSpan { name_end: j, modifier: Some((j + 1, k)), end: k + 1 })
                } else {
                    None
                }
            } else {
                None
            }
        } else {
            None
        }
    } else {
        None
    }
}

/// The names of all placeholders of `t` from index `p` on, left to right.
pub open spec fn placeholder_names(t: Seq<char>, p: int) -> Seq<Seq<char>>
    decreases t.len() - p,
{
    if p < 0 || p >= t.len() {
        Seq::<Seq<char>>::empty()
    } else {
        match placeholder_at(t, p) {
            Some(ph) => if ph.end > p {
                seq![t.subrange(p + 1, ph.name_end)] + placeholder_names(t, ph.end)
            } else {
                Seq::<Seq<char>>::empty()
            },
            None => placeholder_names(t, p + 1),
        }
    }
}

// ---------------------------------------------------------------------------
// Variables
// ---------------------------------------------------------------------------

/// The variables a template may use.
pub open spec fn known_variable(name: Seq<char>) -> bool {
    name == "title"@ || name == "Title"@ || name == "year"@ || name == "season"@ || name
        == "episode"@ || name == "ext"@ || name == "resolution"@ || name == "video_codec"@ || name
        == "audio_codec"@ || name == "source"@ || name == "release_group"@ || name == "language"@
}

/// A word with its first character uppercased and the rest lowercased.
pub open spec fn title_word(w: Seq<char>) -> Seq<char> {
    if w.len() == 0 {
        Seq::<char>::empty()
    } else {
        upper_char(w[0]) + lower_text(w.drop_first())
    }
}

/// Title Case: every white-space separated word capitalised, words joined
/// by single spaces.
pub open spec fn title_case(s: Seq<char>) -> Seq<char> {
    join_with(words(s).map_values(|w: Seq<char>| title_word(w)), ' ')
}

/// An optional number as text (empty when absent).
pub open spec fn opt_number(o: Option<u16>) -> Seq<char> {
    match o {
        Some(n) => decimal(n as nat),
        None => Seq::<char>::empty(),
    }
}

/// An optional text (empty when absent).
pub open spec fn opt_text(o: Option<Seq<char>>) -> Seq<char> {
    match o {
        Some(s) => s,
        None => Seq::<char>::empty(),
    }
}

/// The variable table of `info`, in order: every known variable but
/// `episode`, with its value.
pub open spec fn vars_of(info: MediaInfoV) -> Seq<(Seq<char>, Seq<char>)> {
    seq![
        ("title"@, info.title),
        ("Title"@, title_case(info.title)),
        ("year"@, opt_number(info.year)),
        ("season"@, opt_number(info.season)),
        ("ext"@, info.container),
        ("resolution"@, opt_text(info.resolution)),
        ("video_codec"@, opt_text(info.video_codec)),
        ("audio_codec"@, opt_text(info.audio_codec)),
        ("source"@, opt_text(info.source)),
        ("release_group"@, opt_text(info.release_group)),
        ("language"@, opt_text(info.language)),
    ]
}

/// The value bound to `name` by the first matching entry of `vars`, or the
/// empty text when there is none.
pub open spec fn lookup_var(vars: Seq<(Seq<char>, Seq<char>)>, name: Seq<char>) -> Seq<char>
    decreases vars.len(),
{
    if vars.len() == 0 {
        Seq::<char>::empty()
    } else if vars[0].0 == name {
        vars[0].1
    } else {
        lookup_var(vars.drop_first(), name)
    }
}

/// The result of applying a format modifier to a value: `0` followed by a
/// width pads a numeric value with zeros to that width and leaves any other
/// value unchanged; every other modifier is an error.
pub open spec fn modifier_result(value: Seq<char>, modifier: Seq<char>) -> Result<
    Seq<char>,
    MediErrorV,
> {
    if modifier.len() > 0 && modifier[0] == '0' {
        match parse_usize_spec(modifier.drop_first()) {
            None => Err(MediErrorV::InvalidModifier { modifier }),
            Some(w) => match parse_u64_spec(value) {
                Some(n) => Ok(zero_pad(decimal(n as nat), w as nat)),
                None => Ok(value),
            },
        }
    } else {
        Err(MediErrorV::InvalidModifier { modifier })
    }
}

/// One episode number, formatted with the optional modifier.
pub open spec fn episode_text(ep: u16, modifier: Option<Seq<char>>) -> Result<
    Seq<char>,
    MediErrorV,
> {
    match modifier {
        Some(m) => modifier_result(decimal(ep as nat), m),
        None => Ok(decimal(ep as nat)),
    }
}

/// The `{episode}` value: empty without episodes, otherwise every episode
/// formatted with the modifier and joined by `E` (`[5, 6]` with `02` gives
/// `05E06`).
pub open spec fn episodes_text(eps: Seq<u16>, modifier: Option<Seq<char>>) -> Result<
    Seq<char>,
    MediErrorV,
>
    decreases eps.len(),
{
    if eps.len() == 0 {
        Ok(Seq::<char>::empty())
    } else if eps.len() == 1 {
        episode_text(eps[0], modifier)
    } else {
        match episodes_text(eps.drop_last(), modifier) {
            Err(e) => Err(e),
            Ok(prefix) => match episode_text(eps.last(), modifier) {
                Err(e) => Err(e),
                Ok(s) => Ok(prefix + seq!['E'] + s),
            },
        }
    }
}

/// What a placeholder renders to.
pub open spec fn placeholder_value(
    name: Seq<char>,
    modifier: Option<Seq<char>>,
    info: MediaInfoV,
) -> Result<Seq<char>, MediErrorV> {
    if !known_variable(name) {
        Err(MediErrorV::UnknownVariable { name })
    } else if name == "episode"@ {
        episodes_text(info.episodes, modifier)
    } else {
        let v = lookup_var(vars_of(info), name);
        match modifier {
            Some(m) => modifier_result(v, m),
            None => Ok(v),
        }
    }
}

/// The modifier text of a placeholder.
pub open spec fn span_modifier(t: Seq<char>, ph: PlaceholderSpan) -> Option<Seq<char>> {
    match ph.modifier {
        Some((a, b)) => Some(t.subrange(a, b)),
        None => None,
    }
}

/// `out` followed by the text of `r`, errors passed through.
pub open spec fn prepend(out: Seq<char>, r: Result<Seq<char>, MediErrorV>) -> Result<
    Seq<char>,
    MediErrorV,
> {
    match r {
        Ok(x) => Ok(out + x),
        Err(e) => Err(e),
    }
}

/// The template text from index `p` on with every placeholder replaced by
/// its value; the first failing placeholder (left to right) gives the error.
pub open spec fn expand(t: Seq<char>, p: int, info: MediaInfoV) -> Result<Seq<char>, MediErrorV>
    decreases t.len() - p,
{
    if p < 0 || p >= t.len() {
        Ok(Seq::<char>::empty())
    } else {
        match placeholder_at(t, p) {
            Some(ph) => if ph.end > p {
                match placeholder_value(t.subrange(p + 1, ph.name_end), span_modifier(t, ph), info) {
                    Err(e) => Err(e),
                    Ok(v) => prepend(v, expand(t, ph.end, info)),
                }
            } else {
                Ok(Seq::<char>::empty())
            },
            None => prepend(seq![t[p]], expand(t, p + 1, info)),
        }
    }
}

// ---------------------------------------------------------------------------
// Path post-processing
// ---------------------------------------------------------------------------

/// A component that is `.` or `..` once surrounding white space is trimmed.
pub open spec fn is_traversal(c: Seq<char>) -> bool {
    let t = trim_white(c);
    t == seq!['.'] || t == seq!['.', '.']
}

/// Some `/`-separated component of `s` is a traversal component.
pub open spec fn has_traversal(s: Seq<char>) -> bool {
    exists|k: int| 0 <= k < split_on(s, '/').len() && is_traversal(#[trigger] split_on(s, '/')[k])
}

/// `s` with every run of consecutive dots replaced by a single dot.
pub open spec fn collapse_dot_runs(s: Seq<char>) -> Seq<char>
    decreases s.len(),
{
    if s.len() == 0 {
        Seq::<char>::empty()
    } else if s.last() == '.' && s.len() >= 2 && s[s.len() - 2] == '.' {
        collapse_dot_runs(s.drop_last())
    } else {
        collapse_dot_runs(s.drop_last()).push(s.last())
    }
}

/// A component without leading and trailing dots.
pub open spec fn strip_dots(c: Seq<char>) -> Seq<char> {
    trim_end_in(trim_start_in(c, seq!['.']), seq!['.'])
}

/// Dot runs collapsed, then every `/`-separated component stripped of
/// leading and trailing dots.
pub open spec fn collapse_dots_spec(s: Seq<char>) -> Seq<char> {
    join_with(split_on(collapse_dot_runs(s), '/').map_values(|c: Seq<char>| strip_dots(c)), '/')
}

/// What `sanitize_filename::sanitize_with_options` returns for a component,
/// with `windows: true`, `truncate: true` and an empty replacement.
pub uninterp spec fn sanitized_name(s: Seq<char>) -> Seq<char>;

/// Characters that are illegal in file names on some platform.
pub open spec fn is_illegal_char(c: char) -> bool {
    c == '/' || c == '?' || c == '<' || c == '>' || c == '\\' || c == ':' || c == '*' || c == '|'
        || c == '"'
}

/// Whether a name begins with a name Windows reserves (`con`, `prn`,
/// `aux`, `nul`, `com`, `lpt`, in any case).
pub open spec fn reserved_start(s: Seq<char>) -> bool {
    s.len() >= 3 && {
        let t = seq![
            crate::unicode::ascii_lower(s[0]),
            crate::unicode::ascii_lower(s[1]),
            crate::unicode::ascii_lower(s[2]),
        ];
        t == "con"@ || t == "prn"@ || t == "aux"@ || t == "nul"@ || t == "com"@ || t == "lpt"@
    }
}

/// A name the sanitiser leaves as it is: printable ASCII without illegal
/// characters, at most 255 characters, not starting with a reserved
/// Windows name and not ending in a dot or a space.
pub open spec fn plain_name(s: Seq<char>) -> bool {
    &&& forall|i: int|
        0 <= i < s.len() ==> crate::unicode::is_ascii(#[trigger] s[i]) && s[i] >= ' '
            && !is_illegal_char(s[i])
    &&& s.len() <= 255
    &&& !reserved_start(s)
    &&& (s.len() == 0 || (s.last() != '.' && s.last() != ' '))
}

/// C0 and C1 control characters (U+0000 to U+001F, U+0080 to U+009F).
pub open spec fn is_control_char(c: char) -> bool {
    (c as u32) <= 0x1f || (0x80 <= (c as u32) && (c as u32) <= 0x9f)
}

/// A name that does not end in a dot or a space.
pub open spec fn ends_clean(s: Seq<char>) -> bool {
    s.len() == 0 || (s.last() != '.' && s.last() != ' ')
}

/// A name the sanitiser does not truncate: at most 255 bytes in UTF-8.
pub open spec fn within_name_limit(s: Seq<char>) -> bool {
    vstd::utf8::encode_utf8(s).len() <= 255
}

/// What the sanitiser returns: a plain name as it is, any other name as
/// the crate computes it (`sanitized_name`).
pub open spec fn sanitized(s: Seq<char>) -> Seq<char> {
    if plain_name(s) {
        s
    } else {
        sanitized_name(s)
    }
}

/// `sanitize_filename::sanitize_with_options(component, Options { truncate:
/// true, windows: true, replacement: "" })`. A plain name comes out
/// unchanged: none of the crate's patterns (illegal and control
/// characters, a name of dots only, a reserved Windows name, trailing dots
/// and spaces) matches it and it is within the length limit. Any other
/// result is named `sanitized_name`, and three facts are stated of it. No
/// illegal character and no C0 or C1 control character survives: the crate
/// removes them all in its first two steps, and its later steps only
/// remove characters or truncate. A name within 255 bytes is not
/// truncated, so it keeps the last step's removal of trailing dots and
/// spaces (a name of dots only becomes empty before that).
#[verifier::external_body]
fn sanitize_windows(component: &str) -> (r: String)
    ensures
        r@ == (if plain_name(component@) {
            component@
        } else {
            sanitized_name(component@)
        }),
        forall|i: int|
            0 <= i < r@.len() ==> !is_illegal_char(#[trigger] r@[i]) && !is_control_char(r@[i]),
        within_name_limit(component@) ==> ends_clean(r@),
{
    let opts = sanitize_filename::Options { truncate: true, windows: true, replacement: "" };
    sanitize_filename::sanitize_with_options(component, opts)
}

/// A sanitised component, without trailing dots and then trailing spaces.
pub open spec fn sanitize_component_spec(c: Seq<char>) -> Seq<char> {
    trim_end_in(trim_end_in(sanitized(c), seq!['.']), seq![' '])
}

/// The non-empty members of `parts`, in order.
pub open spec fn non_empty(parts: Seq<Seq<char>>) -> Seq<Seq<char>>
    decreases parts.len(),
{
    if parts.len() == 0 {
        Seq::<Seq<char>>::empty()
    } else if parts.last().len() == 0 {
        non_empty(parts.drop_last())
    } else {
        non_empty(parts.drop_last()).push(parts.last())
    }
}

/// The path components made from expanded template text.
pub open spec fn path_components(raw: Seq<char>) -> Seq<Seq<char>> {
    non_empty(
        split_on(collapse_dots_spec(raw), '/').map_values(|c: Seq<char>| sanitize_component_spec(c)),
    )
}

/// The message of the traversal error.
pub open spec fn traversal_message() -> Seq<char> {
    "template produces path traversal component ('.' or '..')"@
}

/// The rendered relative path of `template` for `info`, components joined by `/`.
pub open spec fn render_spec(template: Seq<char>, info: MediaInfoV) -> Result<
    Seq<char>,
    MediErrorV,
> {
    match expand(template, 0, info) {
        Err(e) => Err(e),
        Ok(raw) => if has_traversal(raw) {
            Err(MediErrorV::InvalidTemplate(traversal_message()))
        } else {
            Ok(join_with(path_components(raw), '/'))
        },
    }
}

/// The view of a text result.
pub open spec fn text_result_view(r: Result<String, MediError>) -> Result<Seq<char>, MediErrorV> {
    match r {
        Ok(s) => Ok(s@),
        Err(e) => Err(e@),
    }
}

// ---------------------------------------------------------------------------
// Validation
// ---------------------------------------------------------------------------

/// The variables a template for `media_type` should use, each with its
/// warning message.
pub open spec fn required_variables(media_type: MediaType) -> Seq<(Seq<char>, Seq<char>)> {
    match media_type {
        MediaType::Movie => seq![
            ("title"@, "Movie templates should include {title}"@),
            ("year"@, "Movie templates should include {year}"@),
            ("ext"@, "Templates should include {ext} for file extension"@),
        ],
        MediaType::Series => seq![
            ("title"@, "Series templates should include {title}"@),
            ("season"@, "Series templates should include {season}"@),
            ("episode"@, "Series templates should include {episode}"@),
            ("ext"@, "Templates should include {ext} for file extension"@),
        ],
    }
}

/// Whether the placeholder names satisfy a required variable (`{Title}`
/// satisfies `title`).
pub open spec fn requirement_met(present: Seq<Seq<char>>, var: Seq<char>) -> bool {
    if var == "title"@ {
        present.contains("title"@) || present.contains("Title"@)
    } else {
        present.contains(var)
    }
}

/// The required variables that `present` does not satisfy, in order.
pub open spec fn missing_requirements(
    req: Seq<(Seq<char>, Seq<char>)>,
    present: Seq<Seq<char>>,
) -> Seq<(Seq<char>, Seq<char>)>
    decreases req.len(),
{
    if req.len() == 0 {
        Seq::<(Seq<char>, Seq<char>)>::empty()
    } else if requirement_met(present, req.last().0) {
        missing_requirements(req.drop_last(), present)
    } else {
        missing_requirements(req.drop_last(), present).push(req.last())
    }
}

/// The warnings `validate` gives for `template` and `media_type`.
pub open spec fn validation_warnings(template: Seq<char>, media_type: MediaType) -> Seq<
    (Seq<char>, Seq<char>),
> {
    missing_requirements(required_variables(media_type), placeholder_names(template, 0))
}


// ---------------------------------------------------------------------------
// Executable code
// ---------------------------------------------------------------------------

/// The views of a variable table.
pub open spec fn vars_view(v: Seq<(String, String)>) -> Seq<(Seq<char>, Seq<char>)> {
    v.map_values(|p: (String, String)| (p.0@, p.1@))
}

/// Number of consecutive word characters of `t` from index `i`.
fn word_run_exec(t: &[char], i: usize) -> (n: usize)
    requires
        i <= t@.len(),
    ensures
        n as int == word_run(t@, i as int),
        i + n <= t@.len(),
{
    let mut k = i;
    while k < t.len() && crate::unicode::char_is_word(t[k])
        invariant
            i <= k <= t@.len(),
            word_run(t@, i as int) == (k - i) + word_run(t@, k as int),
        decreases t.len() - k,
    {
        k = k + 1;
    }
    k - i
}

/// The placeholder starting at index `i`: name end, modifier range and end.
fn find_placeholder(t: &[char], i: usize) -> (r: Option<(usize, Option<(usize, usize)>, usize)>)
    requires
        i < t@.len(),
    ensures
        match placeholder_at(t@, i as int) {
            Some(ph) => r matches Some((ne, m, e)) && ne as int == ph.name_end && e as int == ph.end
                && match ph.modifier {
                Some((a, b)) => m matches Some((x, y)) && x as int == a && y as int == b,
                None => m is None,
            },
            None => r is None,
        },
        r matches Some((ne, m, e)) ==> i + 1 <= ne < e <= t@.len() && (m matches Some((x, y))
            ==> ne < x <= y < e),
{
    if t[i] != '{' {
        return None;
    }
    let n = word_run_exec(t, i + 1);
    let j = i + 1 + n;
    if n >= 1 && j < t.len() {
        if t[j] == '}' {
            Some((j, None, j + 1))
        } else if t[j] == ':' {
            let m = word_run_exec(t, j + 1);
            let k = j + 1 + m;
            if m >= 1 && k < t.len() && t[k] == '}' {
                Some((j, Some((j + 1, k)), k + 1))
            } else {
                None
            }
        } else {
            None
        }
    } else {
        None
    }
}

/// Whether `name` is one of the known template variables.
fn is_known_variable(name: &[char]) -> (r: bool)
    ensures
        r == known_variable(name@),
{
    crate::text::eq_str(name, "title") || crate::text::eq_str(name, "Title")
        || crate::text::eq_str(name, "year") || crate::text::eq_str(name, "season")
        || crate::text::eq_str(name, "episode") || crate::text::eq_str(name, "ext")
        || crate::text::eq_str(name, "resolution") || crate::text::eq_str(name, "video_codec")
        || crate::text::eq_str(name, "audio_codec") || crate::text::eq_str(name, "source")
        || crate::text::eq_str(name, "release_group") || crate::text::eq_str(name, "language")
}

/// Converts a string to Title Case: the first character of every
/// white-space separated word uppercased, the rest lowercased, words joined
/// by single spaces.
pub fn to_title_case(s: &str) -> (r: String)
    ensures
        r@ == title_case(s@),
{
    let chars = crate::text::to_chars(s);
    let ws = crate::text::split_words(&chars);
    let ghost wv = words(s@);
    let mut out: Vec<Vec<char>> = Vec::new();
    let mut i: usize = 0;
    while i < ws.len()
        invariant
            wv == words(s@),
            ws@.len() == wv.len(),
            forall|k: int| 0 <= k < ws@.len() ==> (#[trigger] ws@[k])@ == wv[k],
            i <= ws@.len(),
            out@.len() == i,
            forall|k: int| 0 <= k < i ==> (#[trigger] out@[k])@ == title_word(wv[k]),
        decreases ws.len() - i,
    {
        let w = &ws[i];
        let mut tw: Vec<char> = Vec::new();
        if w.len() > 0 {
            let up = crate::unicode::char_to_uppercase(w[0]);
            let up_chars = crate::text::to_chars(up.as_str());
            let rest = crate::text::sub_vec(w, 1, w.len());
            let low = crate::unicode::lowercase_chars(&rest);
            tw = crate::text::concat(&up_chars, &low);
            assert(rest@ =~= w@.drop_first());
        } else {
            assert(tw@ =~= Seq::<char>::empty());
        }
        out.push(tw);
        i = i + 1;
    }
    let joined = crate::text::join_chars(&out, ' ');
    assert(out@.map_values(|p: Vec<char>| p@) =~= wv.map_values(|w: Seq<char>| title_word(w)));
    crate::text::from_chars(&joined)
}

/// An optional number as text.
fn opt_number_text(o: Option<u16>) -> (r: String)
    ensures
        r@ == opt_number(o),
{
    match o {
        Some(n) => crate::text::from_chars(&crate::numeric::to_decimal(n as u64)),
        None => String::new(),
    }
}

/// An optional text, empty when absent.
fn opt_text_value(o: &Option<String>) -> (r: String)
    ensures
        r@ == opt_text(crate::types::opt_view(*o)),
{
    match o {
        Some(s) => s.clone(),
        None => String::new(),
    }
}

/// The variable table for `info` (every known variable except `episode`,
/// which is rendered separately).
pub fn build_vars(info: &MediaInfo) -> (r: Vec<(String, String)>)
    ensures
        vars_view(r@) == vars_of(info@),
{
    let mut v: Vec<(String, String)> = Vec::new();
    v.push((String::from_str("title"), info.title.clone()));
    v.push((String::from_str("Title"), to_title_case(info.title.as_str())));
    v.push((String::from_str("year"), opt_number_text(info.year)));
    v.push((String::from_str("season"), opt_number_text(info.season)));
    v.push((String::from_str("ext"), info.container.clone()));
    v.push((String::from_str("resolution"), opt_text_value(&info.resolution)));
    v.push((String::from_str("video_codec"), opt_text_value(&info.video_codec)));
    v.push((String::from_str("audio_codec"), opt_text_value(&info.audio_codec)));
    v.push((String::from_str("source"), opt_text_value(&info.source)));
    v.push((String::from_str("release_group"), opt_text_value(&info.release_group)));
    v.push((String::from_str("language"), opt_text_value(&info.language)));
    assert(vars_view(v@) =~= vars_of(info@));
    v
}

/// The value of `name` in the table (empty when absent).
fn lookup_value(vars: &Vec<(String, String)>, name: &[char]) -> (r: Vec<char>)
    ensures
        r@ == lookup_var(vars_view(vars@), name@),
{
    let mut i: usize = 0;
    assert(vars_view(vars@).subrange(0, vars@.len() as int) =~= vars_view(vars@));
    while i < vars.len()
        invariant
            i <= vars@.len(),
            lookup_var(vars_view(vars@), name@) == lookup_var(
                vars_view(vars@).subrange(i as int, vars@.len() as int),
                name@,
            ),
        decreases vars.len() - i,
    {
        let ghost rest = vars_view(vars@).subrange(i as int, vars@.len() as int);
        assert(rest.drop_first() =~= vars_view(vars@).subrange(i + 1, vars@.len() as int));
        let key = crate::text::to_chars(vars[i].0.as_str());
        if crate::text::chars_eq(&key, name) {
            return crate::text::to_chars(vars[i].1.as_str());
        }
        i = i + 1;
    }
    Vec::new()
}

/// The error for an unsupported modifier.
fn invalid_modifier(modifier: &str) -> (e: MediError)
    ensures
        e@ == (MediErrorV::InvalidModifier { modifier: modifier@ }),
{
    MediError::InvalidModifier { modifier: String::from_str(modifier) }
}

/// Applies a format modifier: `0` followed by a width zero-pads a numeric
/// value to that width (a non-numeric value is returned unchanged); any
/// other modifier is an error.
pub fn apply_modifier(value: &str, modifier: &str) -> (r: Result<String, MediError>)
    ensures
        text_result_view(r) == modifier_result(value@, modifier@),
{
    let m = crate::text::to_chars(modifier);
    if m.len() > 0 && m[0] == '0' {
        let width_str = crate::text::sub_vec(&m, 1, m.len());
        assert(width_str@ =~= modifier@.drop_first());
        match crate::numeric::parse_usize(&width_str) {
            None => Err(invalid_modifier(modifier)),
            Some(width) => {
                let v = crate::text::to_chars(value);
                match crate::numeric::parse_u64(&v) {
                    Some(num) => {
                        let digits = crate::numeric::to_decimal(num);
                        let padded = crate::numeric::pad_zeros(&digits, width);
                        Ok(crate::text::from_chars(&padded))
                    },
                    None => Ok(String::from_str(value)),
                }
            },
        }
    } else {
        Err(invalid_modifier(modifier))
    }
}

/// One episode number formatted with the optional modifier.
fn format_episode(ep: u16, modifier: Option<&str>) -> (r: Result<String, MediError>)
    ensures
        text_result_view(r) == episode_text(
            ep,
            match modifier {
                Some(m) => Some(m@),
                None => None,
            },
        ),
{
    let raw = crate::text::from_chars(&crate::numeric::to_decimal(ep as u64));
    match modifier {
        Some(m) => apply_modifier(raw.as_str(), m),
        None => Ok(raw),
    }
}

/// Renders `{episode}`: empty without episodes; otherwise the first episode
/// formatted with the modifier, then every further one prefixed with `E`.
pub fn resolve_episode(episodes: &[u16], modifier: Option<&str>) -> (r: Result<String, MediError>)
    ensures
        text_result_view(r) == episodes_text(
            episodes@,
            match modifier {
                Some(m) => Some(m@),
                None => None,
            },
        ),
{
    let ghost mv = match modifier {
        Some(m) => Some(m@),
        None => None,
    };
    if episodes.len() == 0 {
        return Ok(String::new());
    }
    let first = format_episode(episodes[0], modifier);
    let mut result = match first {
        Ok(s) => s,
        Err(e) => {
            assert(episodes@.subrange(0, 1).len() == 1);
            proof {
                lemma_episodes_prefix_error(episodes@, 1, mv);
            }
            return Err(e);
        },
    };
    assert(episodes@.subrange(0, 1) =~= seq![episodes@[0]]);
    let mut i: usize = 1;
    while i < episodes.len()
        invariant
            1 <= i <= episodes@.len(),
            mv == (match modifier {
                Some(m) => Some(m@),
                None => None,
            }),
            episodes_text(episodes@.subrange(0, i as int), mv) == Ok::<Seq<char>, MediErrorV>(
                result@,
            ),
        decreases episodes.len() - i,
    {
        let ghost pre = episodes@.subrange(0, i as int);
        let ghost post = episodes@.subrange(0, i + 1);
        assert(post.drop_last() =~= pre);
        assert(post.last() == episodes@[i as int]);
        match format_episode(episodes[i], modifier) {
            Ok(s) => {
                let ghost old_r = result@;
                push_char(&mut result, 'E');
                result = result.concat(s.as_str());
                assert(episode_text(episodes@[i as int], mv) == Ok::<Seq<char>, MediErrorV>(s@));
                assert(result@ =~= old_r + seq!['E'] + s@);
            },
            Err(e) => {
                proof {
                    lemma_episodes_prefix_error(episodes@, i + 1, mv);
                }
                return Err(e);
            },
        }
        i = i + 1;
    }
    assert(episodes@.subrange(0, episodes@.len() as int) =~= episodes@);
    Ok(result)
}

/// An error on a prefix of the episodes is the error of the whole list.
proof fn lemma_episodes_prefix_error(eps: Seq<u16>, n: int, m: Option<Seq<char>>)
    requires
        1 <= n <= eps.len(),
        episodes_text(eps.subrange(0, n), m) is Err,
    ensures
        episodes_text(eps, m) == episodes_text(eps.subrange(0, n), m),
    decreases eps.len() - n,
{
    if n < eps.len() {
        let bigger = eps.subrange(0, n + 1);
        assert(bigger.drop_last() =~= eps.subrange(0, n));
        lemma_episodes_prefix_error(eps, n + 1, m);
    } else {
        assert(eps.subrange(0, n) =~= eps);
    }
}

use crate::text::push_char;

/// Replaces every run of consecutive dots with a single dot.
pub fn collapse_runs(s: &[char]) -> (r: Vec<char>)
    ensures
        r@ == collapse_dot_runs(s@),
{
    let mut collapsed: Vec<char> = Vec::new();
    let mut last_was_dot = false;
    let mut i: usize = 0;
    while i < s.len()
        invariant
            i <= s@.len(),
            collapsed@ == collapse_dot_runs(s@.subrange(0, i as int)),
            last_was_dot == (i > 0 && s@[i - 1] == '.'),
        decreases s.len() - i,
    {
        let ghost pre = s@.subrange(0, i as int);
        let ghost post = s@.subrange(0, i + 1);
        assert(post.drop_last() =~= pre);
        if s[i] == '.' {
            if !last_was_dot {
                collapsed.push('.');
            }
            last_was_dot = true;
        } else {
            last_was_dot = false;
            collapsed.push(s[i]);
        }
        i = i + 1;
    }
    assert(s@.subrange(0, s@.len() as int) =~= s@);
    collapsed
}

/// Collapses runs of dots into single dots, then strips leading and
/// trailing dots from every `/`-separated component.
pub fn collapse_dots(input: &str) -> (r: String)
    ensures
        r@ == collapse_dots_spec(input@),
{
    let s = crate::text::to_chars(input);
    let collapsed = collapse_runs(&s);
    let pieces = crate::text::split_chars(&collapsed, '/');
    let dot = crate::text::single('.');
    let mut stripped: Vec<Vec<char>> = Vec::new();
    let ghost sp = split_on(collapsed@, '/');
    let mut k: usize = 0;
    while k < pieces.len()
        invariant
            sp == split_on(collapsed@, '/'),
            pieces@.len() == sp.len(),
            forall|j: int| 0 <= j < pieces@.len() ==> (#[trigger] pieces@[j])@ == sp[j],
            dot@ == seq!['.'],
            k <= pieces@.len(),
            stripped@.len() == k,
            forall|j: int| 0 <= j < k ==> (#[trigger] stripped@[j])@ == strip_dots(sp[j]),
        decreases pieces.len() - k,
    {
        let a = crate::text::trim_start_set(&pieces[k], &dot);
        let b = crate::text::trim_end_set(&a, &dot);
        stripped.push(b);
        k = k + 1;
    }
    assert(stripped@.map_values(|p: Vec<char>| p@) =~= sp.map_values(|c: Seq<char>| strip_dots(c)));
    let joined = crate::text::join_chars(&stripped, '/');
    crate::text::from_chars(&joined)
}

/// Sanitises one path component for cross-platform use: illegal and
/// control characters, Windows reserved names and trailing dots / spaces are
/// removed by `sanitize_filename`, then trailing dots and then trailing
/// spaces are trimmed.
pub fn sanitize_component(component: &str) -> (r: String)
    ensures
        r@ == sanitize_component_spec(component@),
        all_legal(r@),
        plain_name(component@) ==> r@ == component@,
        within_name_limit(component@) ==> ends_clean(r@),
{
    let sanitized = sanitize_windows(component);
    let chars = crate::text::to_chars(sanitized.as_str());
    let dot = crate::text::single('.');
    let space = crate::text::single(' ');
    let a = crate::text::trim_end_set(&chars, &dot);
    let b = crate::text::trim_end_set(&a, &space);
    proof {
        lemma_trim_end_in_prefix(chars@, seq!['.']);
        lemma_trim_end_in_prefix(a@, seq![' ']);
        assert forall|i: int| 0 <= i < b@.len() implies !is_illegal_char(#[trigger] b@[i])
            && !is_control_char(b@[i]) by {
            assert(b@[i] == a@[i]);
            assert(a@[i] == chars@[i]);
        }
        if within_name_limit(component@) && chars@.len() > 0 {
            assert(!seq!['.'].contains(chars@.last())) by {
                if seq!['.'].contains(chars@.last()) {
                    let k = choose|k: int| 0 <= k < 1 && seq!['.'][k] == chars@.last();
                }
            }
            assert(!seq![' '].contains(chars@.last())) by {
                if seq![' '].contains(chars@.last()) {
                    let k = choose|k: int| 0 <= k < 1 && seq![' '][k] == chars@.last();
                }
            }
            assert(a@ == chars@);
            assert(b@ == chars@);
        }
        if plain_name(component@) {
            let c = component@;
            if c.len() > 0 {
                assert(!seq!['.'].contains(c.last())) by {
                    if seq!['.'].contains(c.last()) {
                        let k = choose|k: int| 0 <= k < 1 && seq!['.'][k] == c.last();
                    }
                }
                assert(!seq![' '].contains(c.last())) by {
                    if seq![' '].contains(c.last()) {
                        let k = choose|k: int| 0 <= k < 1 && seq![' '][k] == c.last();
                    }
                }
            }
            assert(a@ == c);
            assert(b@ == c);
        }
    }
    crate::text::from_chars(&b)
}

/// Trimming the end keeps a prefix.
proof fn lemma_trim_end_in_prefix(s: Seq<char>, set: Seq<char>)
    ensures
        trim_end_in(s, set).len() <= s.len(),
        trim_end_in(s, set) == s.subrange(0, trim_end_in(s, set).len() as int),
    decreases s.len(),
{
    if s.len() > 0 && set.contains(s.last()) {
        lemma_trim_end_in_prefix(s.drop_last(), set);
        assert(s.drop_last().subrange(0, trim_end_in(s, set).len() as int) =~= s.subrange(
            0,
            trim_end_in(s, set).len() as int,
        ));
    } else {
        assert(s.subrange(0, s.len() as int) =~= s);
    }
}


/// `prepend` composes.
proof fn lemma_prepend_assoc(a: Seq<char>, b: Seq<char>, r: Result<Seq<char>, MediErrorV>)
    ensures
        prepend(a, prepend(b, r)) == prepend(a + b, r),
{
    match r {
        Ok(x) => {
            assert(a + (b + x) =~= (a + b) + x);
        },
        Err(e) => {},
    }
}

/// The value of one placeholder.
fn placeholder_value_exec(
    name: &[char],
    modifier: Option<&str>,
    info: &MediaInfo,
    vars: &Vec<(String, String)>,
) -> (r: Result<String, MediError>)
    requires
        vars_view(vars@) == vars_of(info@),
    ensures
        text_result_view(r) == placeholder_value(
            name@,
            match modifier {
                Some(m) => Some(m@),
                None => None,
            },
            info@,
        ),
{
    if !is_known_variable(name) {
        return Err(MediError::UnknownVariable { name: crate::text::from_chars(name) });
    }
    if crate::text::eq_str(name, "episode") {
        return resolve_episode(info.episodes.as_slice(), modifier);
    }
    let v = lookup_value(vars, name);
    let vs = crate::text::from_chars(&v);
    match modifier {
        Some(m) => apply_modifier(vs.as_str(), m),
        None => Ok(vs),
    }
}

/// Whether some `/`-separated component of `raw` is `.` or `..` after trimming.
fn find_traversal(raw: &[char]) -> (r: bool)
    ensures
        r == has_traversal(raw@),
{
    let pieces = crate::text::split_chars(raw, '/');
    let one = crate::text::single('.');
    let two = crate::text::concat(&one, &one);
    assert(two@ =~= seq!['.', '.']);
    let mut i: usize = 0;
    while i < pieces.len()
        invariant
            pieces@.len() == split_on(raw@, '/').len(),
            forall|k: int| 0 <= k < pieces@.len() ==> (#[trigger] pieces@[k])@ == split_on(raw@, '/')[k],
            one@ == seq!['.'],
            two@ == seq!['.', '.'],
            i <= pieces@.len(),
            forall|k: int| 0 <= k < i ==> !is_traversal(#[trigger] split_on(raw@, '/')[k]),
        decreases pieces.len() - i,
    {
        let t = crate::text::trim(&pieces[i]);
        if crate::text::chars_eq(&t, &one) || crate::text::chars_eq(&t, &two) {
            assert(is_traversal(split_on(raw@, '/')[i as int]));
            return true;
        }
        i = i + 1;
    }
    false
}

/// The sanitised, non-empty path components of expanded template text.
fn build_components(raw: &[char]) -> (r: Vec<Vec<char>>)
    ensures
        r@.map_values(|p: Vec<char>| p@) == path_components(raw@),
        clean_components(path_components(raw@), sources_within_limit(raw@)),
{
    let collapsed_s = collapse_dots(crate::text::from_chars(raw).as_str());
    let collapsed = crate::text::to_chars(collapsed_s.as_str());
    let pieces = crate::text::split_chars(&collapsed, '/');
    let ghost sp = split_on(collapse_dots_spec(raw@), '/');
    let ghost mapped = sp.map_values(|c: Seq<char>| sanitize_component_spec(c));
    let mut out: Vec<Vec<char>> = Vec::new();
    let mut i: usize = 0;
    while i < pieces.len()
        invariant
            sp == split_on(collapse_dots_spec(raw@), '/'),
            mapped == sp.map_values(|c: Seq<char>| sanitize_component_spec(c)),
            pieces@.len() == sp.len(),
            forall|k: int| 0 <= k < pieces@.len() ==> (#[trigger] pieces@[k])@ == sp[k],
            i <= pieces@.len(),
            out@.map_values(|p: Vec<char>| p@) == non_empty(mapped.subrange(0, i as int)),
            forall|k: int| 0 <= k < out@.len() ==> all_legal((#[trigger] out@[k])@),
            forall|k: int| 0 <= k < out@.len() ==> (#[trigger] out@[k])@.len() > 0,
            sources_within_limit(raw@) ==> forall|k: int|
                0 <= k < out@.len() ==> ends_clean((#[trigger] out@[k])@),
        decreases pieces.len() - i,
    {
        let ghost pre = mapped.subrange(0, i as int);
        let ghost post = mapped.subrange(0, i + 1);
        assert(post.drop_last() =~= pre);
        let comp = sanitize_component(crate::text::from_chars(&pieces[i]).as_str());
        let cc = crate::text::to_chars(comp.as_str());
        assert(post.last() == sanitize_component_spec(sp[i as int]));
        assert(all_legal(cc@));
        assert(sources_within_limit(raw@) ==> within_name_limit(sp[i as int])) by {
            if sources_within_limit(raw@) {
                assert(within_name_limit(component_sources(raw@)[i as int]));
            }
        }
        if cc.len() > 0 {
            let ghost before = out@.map_values(|p: Vec<char>| p@);
            out.push(cc);
            assert(out@.map_values(|p: Vec<char>| p@) =~= before.push(cc@));
        }
        i = i + 1;
    }
    assert(mapped.subrange(0, pieces@.len() as int) =~= mapped);
    proof {
        let views = out@.map_values(|p: Vec<char>| p@);
        assert forall|k: int| 0 <= k < views.len() implies (#[trigger] views[k]).len() > 0 && all_legal(
            views[k],
        ) && (sources_within_limit(raw@) ==> ends_clean(views[k])) by {
            assert(views[k] == out@[k]@);
        }
    }
    out
}

/// No character of `s` is illegal in a file name or a control character.
pub open spec fn all_legal(s: Seq<char>) -> bool {
    forall|i: int| 0 <= i < s.len() ==> !is_illegal_char(#[trigger] s[i]) && !is_control_char(s[i])
}

/// Every character of a path is a separator or legal in a file name.
pub open spec fn separated_legal(p: Seq<char>) -> bool {
    forall|i: int|
        0 <= i < p.len() ==> #[trigger] p[i] == '/' || (!is_illegal_char(p[i]) && !is_control_char(p[i]))
}

/// The pieces of expanded template text that path components are made
/// from: the text with dot runs collapsed, split at `/`, each piece
/// stripped of leading and trailing dots.
pub open spec fn component_sources(raw: Seq<char>) -> Seq<Seq<char>> {
    split_on(collapse_dots_spec(raw), '/')
}

/// Every piece a component is made from is within the name limit.
pub open spec fn sources_within_limit(raw: Seq<char>) -> bool {
    forall|k: int|
        0 <= k < component_sources(raw).len() ==> within_name_limit(
            #[trigger] component_sources(raw)[k],
        )
}

/// Path components that are not empty and hold no illegal or control
/// character, and, when `bounded`, do not end in a dot or a space (so none
/// is `.` or `..`).
pub open spec fn clean_components(parts: Seq<Seq<char>>, bounded: bool) -> bool {
    forall|k: int|
        0 <= k < parts.len() ==> (#[trigger] parts[k]).len() > 0 && all_legal(parts[k]) && (bounded
            ==> ends_clean(parts[k]))
}

/// Joining legal components with `/` gives a path of separators and legal
/// characters.
proof fn lemma_join_legal(parts: Seq<Seq<char>>)
    requires
        forall|k: int| 0 <= k < parts.len() ==> all_legal(#[trigger] parts[k]),
    ensures
        separated_legal(join_with(parts, '/')),
    decreases parts.len(),
{
    if parts.len() == 1 {
        assert(all_legal(parts[0]));
    } else if parts.len() > 1 {
        let init = parts.drop_last();
        assert forall|k: int| 0 <= k < init.len() implies all_legal(#[trigger] init[k]) by {
            assert(init[k] == parts[k]);
        }
        lemma_join_legal(init);
        let a = join_with(init, '/');
        let last = parts.last();
        assert(all_legal(parts[parts.len() - 1]));
        let j = a + seq!['/'] + last;
        assert(join_with(parts, '/') == j);
        assert forall|i: int| 0 <= i < j.len() implies #[trigger] j[i] == '/' || !is_illegal_char(
            j[i],
        ) by {
            if i < a.len() {
                assert(j[i] == a[i]);
            } else if i == a.len() {
                assert(j[i] == '/');
            } else {
                assert(j[i] == last[i - a.len() - 1]);
            }
        }
    }
}

/// Stateless engine that renders naming templates into relative paths.
pub struct TemplateEngine;

impl TemplateEngine {
    /// Creates a template engine.
    pub fn new() -> (r: TemplateEngine) {
        TemplateEngine
    }

    /// Renders `template` against `info` into a relative path whose
    /// components are joined by `/`.
    ///
    /// Every placeholder is replaced by its value; an unknown variable or an
    /// unsupported modifier is an error (the first one, left to right). A
    /// rendered component that is `.` or `..` is rejected before any
    /// sanitising. Then dot runs are collapsed, leading and trailing dots of
    /// components removed, every component sanitised, and empty components
    /// dropped.
    pub fn render(&self, template: &str, info: &MediaInfo) -> (r: Result<String, MediError>)
        ensures
            text_result_view(r) == render_spec(template@, info@),
            r matches Ok(p) ==> separated_legal(p@),
            r is Ok ==> (expand(template@, 0, info@) matches Ok(raw) && clean_components(
                path_components(raw),
                sources_within_limit(raw),
            )),
    {
        let t = crate::text::to_chars(template);
        let vars = build_vars(info);
        let mut out: Vec<char> = Vec::new();
        let mut p: usize = 0;
        while p < t.len()
            invariant
                t@ == template@,
                p <= t@.len(),
                vars_view(vars@) == vars_of(info@),
                expand(t@, 0, info@) == prepend(out@, expand(t@, p as int, info@)),
            decreases t.len() - p,
        {
            match find_placeholder(&t, p) {
                Some((ne, m, e)) => {
                    let ghost ph = placeholder_at(t@, p as int).unwrap();
                    let name = crate::text::sub_vec(&t, p + 1, ne);
                    let mod_string: Option<String> = match m {
                        Some((a, b)) => Some(crate::text::from_chars(&crate::text::sub_vec(&t, a, b))),
                        None => None,
                    };
                    let mod_ref: Option<&str> = match &mod_string {
                        Some(ms) => Some(ms.as_str()),
                        None => None,
                    };
                    assert(span_modifier(t@, ph) == match mod_ref {
                        Some(x) => Some(x@),
                        None => None::<Seq<char>>,
                    });
                    match placeholder_value_exec(&name, mod_ref, info, &vars) {
                        Err(e) => {
                            return Err(e);
                        },
                        Ok(v) => {
                            let ghost old_out = out@;
                            let vc = crate::text::to_chars(v.as_str());
                            crate::text::extend(&mut out, &vc);
                            proof {
                                lemma_prepend_assoc(old_out, v@, expand(t@, e as int, info@));
                            }
                            p = e;
                        },
                    }
                },
                None => {
                    let ghost old_out = out@;
                    proof {
                        lemma_prepend_assoc(old_out, seq![t@[p as int]], expand(t@, p + 1, info@));
                    }
                    out.push(t[p]);
                    assert(old_out + seq![t@[p as int]] =~= out@);
                    p = p + 1;
                },
            }
        }
        assert(out@ + Seq::<char>::empty() =~= out@);
        if find_traversal(&out) {
            return Err(
                MediError::InvalidTemplate(
                    String::from_str("template produces path traversal component ('.' or '..')"),
                ),
            );
        }
        let comps = build_components(&out);
        let joined = crate::text::join_chars(&comps, '/');
        proof {
            let views = comps@.map_values(|p: Vec<char>| p@);
            assert forall|k: int| 0 <= k < views.len() implies all_legal(#[trigger] views[k]) by {
                assert(views[k] == comps@[k]@);
                assert(all_legal(path_components(out@)[k]));
            }
            lemma_join_legal(views);
        }
        Ok(crate::text::from_chars(&joined))
    }

    /// Advisory warnings for the required variables `template` lacks for
    /// `media_type`. Unknown variables are not reported (rendering does).
    pub fn validate(&self, template: &str, media_type: &MediaType) -> (r: Vec<TemplateWarning>)
        ensures
            r@.len() == validation_warnings(template@, *media_type).len(),
            forall|i: int|
                0 <= i < r@.len() ==> (#[trigger] r@[i]).variable@ == validation_warnings(
                    template@,
                    *media_type,
                )[i].0 && r@[i].message@ == validation_warnings(template@, *media_type)[i].1,
    {
        let t = crate::text::to_chars(template);
        let present = collect_names(&t);
        let req = required_list(media_type);
        let ghost rv = required_variables(*media_type);
        let mut warnings: Vec<TemplateWarning> = Vec::new();
        let mut i: usize = 0;
        while i < req.len()
            invariant
                rv == required_variables(*media_type),
                req@.len() == rv.len(),
                forall|k: int| 0 <= k < req@.len() ==> (#[trigger] req@[k]).0@ == rv[k].0 && req@[k].1@
                    == rv[k].1,
                present@.map_values(|p: Vec<char>| p@) == placeholder_names(t@, 0),
                t@ == template@,
                i <= req@.len(),
                warnings@.len() == missing_requirements(rv.subrange(0, i as int), placeholder_names(t@, 0)).len(),
                forall|k: int|
                    0 <= k < warnings@.len() ==> (#[trigger] warnings@[k]).variable@
                        == missing_requirements(rv.subrange(0, i as int), placeholder_names(t@, 0))[k].0
                        && warnings@[k].message@ == missing_requirements(
                        rv.subrange(0, i as int),
                        placeholder_names(t@, 0),
                    )[k].1,
            decreases req.len() - i,
        {
            let ghost pre = rv.subrange(0, i as int);
            let ghost post = rv.subrange(0, i + 1);
            assert(post.drop_last() =~= pre);
            let var = crate::text::to_chars(req[i].0.as_str());
            if !requirement_met_exec(&present, &var) {
                warnings.push(
                    TemplateWarning { variable: req[i].0.clone(), message: req[i].1.clone() },
                );
            }
            i = i + 1;
        }
        assert(rv.subrange(0, req@.len() as int) =~= rv);
        warnings
    }
}

impl Default for TemplateEngine {
    fn default() -> (r: TemplateEngine) {
        TemplateEngine::new()
    }
}

/// The names of all placeholders of `t`, left to right.
fn collect_names(t: &[char]) -> (r: Vec<Vec<char>>)
    ensures
        r@.map_values(|p: Vec<char>| p@) == placeholder_names(t@, 0),
{
    let mut names: Vec<Vec<char>> = Vec::new();
    let mut p: usize = 0;
    while p < t.len()
        invariant
            p <= t@.len(),
            placeholder_names(t@, 0) == names@.map_values(|q: Vec<char>| q@) + placeholder_names(
                t@,
                p as int,
            ),
        decreases t.len() - p,
    {
        match find_placeholder(t, p) {
            Some((ne, m, e)) => {
                let name = crate::text::sub_vec(t, p + 1, ne);
                let ghost before = names@.map_values(|q: Vec<char>| q@);
                names.push(name);
                assert(names@.map_values(|q: Vec<char>| q@) =~= before.push(name@));
                assert(before + (seq![name@] + placeholder_names(t@, e as int)) =~= before.push(name@)
                    + placeholder_names(t@, e as int));
                p = e;
            },
            None => {
                p = p + 1;
            },
        }
    }
    assert(names@.map_values(|q: Vec<char>| q@) + Seq::<Seq<char>>::empty() =~= names@.map_values(
        |q: Vec<char>| q@,
    ));
    names
}

/// Whether `names` contains `x`.
fn names_contain(names: &Vec<Vec<char>>, x: &[char]) -> (r: bool)
    ensures
        r == names@.map_values(|p: Vec<char>| p@).contains(x@),
{
    let ghost nv = names@.map_values(|p: Vec<char>| p@);
    let mut i: usize = 0;
    while i < names.len()
        invariant
            nv == names@.map_values(|p: Vec<char>| p@),
            i <= names@.len(),
            forall|k: int| 0 <= k < i ==> nv[k] != x@,
        decreases names.len() - i,
    {
        if crate::text::chars_eq(&names[i], x) {
            assert(nv[i as int] == x@);
            return true;
        }
        i = i + 1;
    }
    false
}

/// Whether the present names satisfy a required variable.
fn requirement_met_exec(present: &Vec<Vec<char>>, var: &[char]) -> (r: bool)
    ensures
        r == requirement_met(present@.map_values(|p: Vec<char>| p@), var@),
{
    if crate::text::eq_str(var, "title") {
        let lower = crate::text::to_chars("title");
        let upper = crate::text::to_chars("Title");
        names_contain(present, &lower) || names_contain(present, &upper)
    } else {
        names_contain(present, var)
    }
}

/// The required variables for a media type, with their messages.
fn required_list(media_type: &MediaType) -> (r: Vec<(String, String)>)
    ensures
        r@.len() == required_variables(*media_type).len(),
        forall|k: int|
            0 <= k < r@.len() ==> (#[trigger] r@[k]).0@ == required_variables(*media_type)[k].0
                && r@[k].1@ == required_variables(*media_type)[k].1,
{
    let mut v: Vec<(String, String)> = Vec::new();
    match media_type {
        MediaType::Movie => {
            v.push((String::from_str("title"), String::from_str("Movie templates should include {title}")));
            v.push((String::from_str("year"), String::from_str("Movie templates should include {year}")));
            v.push((String::from_str("ext"), String::from_str("Templates should include {ext} for file extension")));
        },
        MediaType::Series => {
            v.push((String::from_str("title"), String::from_str("Series templates should include {title}")));
            v.push((String::from_str("season"), String::from_str("Series templates should include {season}")));
            v.push((String::from_str("episode"), String::from_str("Series templates should include {episode}")));
            v.push((String::from_str("ext"), String::from_str("Templates should include {ext} for file extension")));
        },
    }
    v
}

} // verus!
