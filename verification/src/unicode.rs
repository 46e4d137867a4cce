//! Unicode character properties and case mappings.
//!
//! The case mappings and the `Alphabetic` / word-character properties come
//! from Unicode tables that std and `regex-syntax` carry; they are named here
//! and each is tied to the one call that computes it. ASCII case folding is
//! small enough to be defined and proved directly.

use vstd::prelude::*;

verus! {

/// The result of `str::to_lowercase` on a string with these characters.
pub uninterp spec fn lowercase(s: Seq<char>) -> Seq<char>;

/// The characters that `char::to_uppercase` yields for `c`.
pub uninterp spec fn uppercase_char(c: char) -> Seq<char>;

/// Whether `c` has the Unicode `Alphabetic` property (`char::is_alphabetic`).
pub uninterp spec fn alphabetic(c: char) -> bool;

/// Whether `c` is a Unicode word character, the class `\w` of the `regex`
/// crate (`regex_syntax::is_word_character`).
pub uninterp spec fn word_char(c: char) -> bool;

/// Whether a character is ASCII.
pub open spec fn is_ascii(c: char) -> bool {
    (c as u32) < 128
}

/// Whether a character is an ASCII letter.
pub open spec fn is_ascii_letter(c: char) -> bool {
    ('a' <= c && c <= 'z') || ('A' <= c && c <= 'Z')
}

/// `char::to_ascii_uppercase`.
pub open spec fn ascii_upper(c: char) -> char {
    if 'a' <= c && c <= 'z' {
        ((c as u32) - 32) as char
    } else {
        c
    }
}

/// Whether every character is ASCII.
pub open spec fn ascii_text(s: Seq<char>) -> bool {
    forall|i: int| 0 <= i < s.len() ==> is_ascii(#[trigger] s[i])
}

/// `str::to_lowercase` on a string with these characters: ASCII case
/// folding when every character is ASCII, else the name `lowercase`.
pub open spec fn lower_text(s: Seq<char>) -> Seq<char> {
    if ascii_text(s) {
        s.map_values(|c: char| ascii_lower(c))
    } else {
        lowercase(s)
    }
}

/// The characters `char::to_uppercase` yields: the ASCII upper case of an
/// ASCII character, else the name `uppercase_char`.
pub open spec fn upper_char(c: char) -> Seq<char> {
    if is_ascii(c) {
        seq![ascii_upper(c)]
    } else {
        uppercase_char(c)
    }
}

/// `char::is_alphabetic`: an ASCII letter, or for a non-ASCII character
/// the name `alphabetic`.
pub open spec fn is_alpha(c: char) -> bool {
    if is_ascii(c) {
        is_ascii_letter(c)
    } else {
        alphabetic(c)
    }
}

/// The `\w` class: an ASCII letter, digit or `_`, or for a non-ASCII
/// character the name `word_char`.
pub open spec fn is_word(c: char) -> bool {
    if is_ascii(c) {
        is_ascii_letter(c) || ('0' <= c && c <= '9') || c == '_'
    } else {
        word_char(c)
    }
}

/// `str::to_lowercase`: on an ASCII string it lowercases each ASCII
/// letter and keeps every other character (std documents that each
/// character maps as `char::to_lowercase`, which for ASCII is
/// `to_ascii_lowercase`); on other strings the result is the name
/// `lowercase`.
#[verifier::external_body]
pub(crate) fn str_to_lowercase(s: &str) -> (r: String)
    ensures
        r@ == (if ascii_text(s@) {
            s@.map_values(|c: char| ascii_lower(c))
        } else {
            lowercase(s@)
        }),
{
    s.to_lowercase()
}

/// `char::to_uppercase`, collected into a string: for an ASCII character
/// it is that character in ASCII upper case (as std documents for ASCII
/// input); for others the result is the name `uppercase_char`.
#[verifier::external_body]
pub(crate) fn char_to_uppercase(c: char) -> (r: String)
    ensures
        r@ == (if is_ascii(c) {
            seq![ascii_upper(c)]
        } else {
            uppercase_char(c)
        }),
{
    c.to_uppercase().collect::<String>()
}

/// `char::is_alphabetic`: among ASCII characters exactly the letters are
/// alphabetic; for others the result is the name `alphabetic`.
#[verifier::external_body]
pub(crate) fn char_is_alphabetic(c: char) -> (r: bool)
    ensures
        r == (if is_ascii(c) {
            is_ascii_letter(c)
        } else {
            alphabetic(c)
        }),
{
    c.is_alphabetic()
}

/// `regex_syntax::is_word_character` (the crate is built with its Unicode
/// tables, so the call does not panic): among ASCII characters the word
/// characters are the letters, the digits and `_`; for others the result
/// is the name `word_char`.
#[verifier::external_body]
pub(crate) fn char_is_word(c: char) -> (r: bool)
    ensures
        r == (if is_ascii(c) {
            is_ascii_letter(c) || ('0' <= c && c <= '9') || c == '_'
        } else {
            word_char(c)
        }),
{
    regex_syntax::is_word_character(c)
}

/// Lowercases a character sequence (`str::to_lowercase`).
pub fn lowercase_chars(s: &[char]) -> (r: Vec<char>)
    ensures
        r@ == lower_text(s@),
{
    let st = crate::text::from_chars(s);
    let low = str_to_lowercase(st.as_str());
    crate::text::to_chars(low.as_str())
}

/// `char::to_ascii_lowercase`.
pub open spec fn ascii_lower(c: char) -> char {
    if 'A' <= c && c <= 'Z' {
        ((c as u32) + 32) as char
    } else {
        c
    }
}

/// `str::eq_ignore_ascii_case`.
pub open spec fn eq_ignore_ascii_case(a: Seq<char>, b: Seq<char>) -> bool {
    a.len() == b.len() && forall|i: int| 0 <= i < a.len() ==> ascii_lower(a[i]) == ascii_lower(b[i])
}

/// `char::to_ascii_lowercase`.
pub fn to_ascii_lower(c: char) -> (r: char)
    ensures
        r == ascii_lower(c),
{
    if 'A' <= c && c <= 'Z' {
        let n: u32 = (c as u32) + 32;
        let b: u8 = n as u8;
        assert(b as u32 == n);
        b as char
    } else {
        c
    }
}

/// `str::eq_ignore_ascii_case` on character sequences.
pub fn chars_eq_ignore_ascii_case(a: &[char], b: &[char]) -> (r: bool)
    ensures
        r == eq_ignore_ascii_case(a@, b@),
{
    if a.len() != b.len() {
        return false;
    }
    let mut i: usize = 0;
    while i < a.len()
        invariant
            a@.len() == b@.len(),
            i <= a.len(),
            forall|j: int| 0 <= j < i ==> ascii_lower(a@[j]) == ascii_lower(b@[j]),
        decreases a.len() - i,
    {
        if to_ascii_lower(a[i]) != to_ascii_lower(b[i]) {
            return false;
        }
        i = i + 1;
    }
    true
}

/// The maximal runs of alphabetic characters of `s`, in order: what
/// splitting on every non-alphabetic character and dropping the empty
/// pieces leaves.
pub open spec fn alpha_runs(s: Seq<char>) -> Seq<Seq<char>>
    decreases s.len(),
{
    if s.len() == 0 {
        Seq::<Seq<char>>::empty()
    } else if !is_alpha(s.last()) {
        alpha_runs(s.drop_last())
    } else if s.len() >= 2 && is_alpha(s[s.len() - 2]) {
        let w = alpha_runs(s.drop_last());
        w.update(w.len() - 1, w.last().push(s.last()))
    } else {
        alpha_runs(s.drop_last()).push(seq![s.last()])
    }
}

proof fn lemma_alpha_runs_nonempty(s: Seq<char>)
    requires
        s.len() > 0,
        is_alpha(s.last()),
    ensures
        alpha_runs(s).len() >= 1,
    decreases s.len(),
{
    if s.len() >= 2 && is_alpha(s[s.len() - 2]) {
        assert(s.drop_last().last() == s[s.len() - 2]);
        lemma_alpha_runs_nonempty(s.drop_last());
    }
}

/// The alphabetic runs of `s`.
pub fn split_alpha_runs(s: &[char]) -> (r: Vec<Vec<char>>)
    ensures
        r@.len() == alpha_runs(s@).len(),
        forall|k: int| 0 <= k < r@.len() ==> (#[trigger] r@[k])@ == alpha_runs(s@)[k],
{
    let mut r: Vec<Vec<char>> = Vec::new();
    let mut prev_alpha = false;
    let mut i: usize = 0;
    while i < s.len()
        invariant
            i <= s.len(),
            prev_alpha == (i > 0 && is_alpha(s@[i - 1])),
            r@.len() == alpha_runs(s@.subrange(0, i as int)).len(),
            forall|k: int|
                0 <= k < r@.len() ==> (#[trigger] r@[k])@ == alpha_runs(s@.subrange(0, i as int))[k],
        decreases s.len() - i,
    {
        let ghost before = s@.subrange(0, i as int);
        let ghost after = s@.subrange(0, i + 1);
        assert(after.drop_last() =~= before);
        let c = s[i];
        let alpha_here = char_is_alphabetic(c);
        if !alpha_here {
        } else if prev_alpha {
            proof {
                assert(before.last() == s@[i - 1]);
                lemma_alpha_runs_nonempty(before);
                assert(after[after.len() - 2] == s@[i - 1]);
            }
            let last = r.len() - 1;
            let mut w = r[last].clone();
            w.push(c);
            r.set(last, w);
        } else {
            proof {
                if i >= 1 {
                    assert(after[after.len() - 2] == s@[i - 1]);
                }
            }
            let mut w: Vec<char> = Vec::new();
            w.push(c);
            r.push(w);
            assert(r@.last()@ =~= seq![c]);
        }
        prev_alpha = alpha_here;
        i = i + 1;
    }
    assert(s@.subrange(0, s@.len() as int) =~= s@);
    r
}

} // verus!
