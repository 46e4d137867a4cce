//! Character-sequence utilities shared by the whole library.
//!
//! Strings are reasoned about through their views, `Seq<char>`. Executable
//! helpers work on `Vec<char>` / `&[char]` and are proved against the spec
//! functions below.

use vstd::prelude::*;

verus! {

// ---------------------------------------------------------------------------
// Conversions between `String` and `Vec<char>`
// ---------------------------------------------------------------------------

/// Appends one character to a string (`String::push`).
#[verifier::external_body]
pub(crate) fn push_char(s: &mut String, c: char)
    ensures
        final(s)@ == old(s)@.push(c),
{
    s.push(c);
}

/// The characters of a string slice, in order.
pub fn to_chars(s: &str) -> (r: Vec<char>)
    ensures
        r@ == s@,
{
    let n = s.unicode_len();
    let mut r: Vec<char> = Vec::new();
    let mut i: usize = 0;
    while i < n
        invariant
            n == s@.len(),
            i <= n,
            r@ == s@.subrange(0, i as int),
        decreases n - i,
    {
        let c = s.get_char(i);
        r.push(c);
        i = i + 1;
    }
    r
}

/// Builds a string from a sequence of characters.
pub fn from_chars(v: &[char]) -> (r: String)
    ensures
        r@ == v@,
{
    let mut r = String::new();
    let mut i: usize = 0;
    while i < v.len()
        invariant
            i <= v.len(),
            r@ == v@.subrange(0, i as int),
        decreases v.len() - i,
    {
        push_char(&mut r, v[i]);
        i = i + 1;
    }
    r
}

/// The text `a` followed by `b`.
pub fn cat(a: &str, b: &str) -> (r: String)
    ensures
        r@ == a@ + b@,
{
    let s = String::from_str(a);
    s.concat(b)
}

/// The one-character sequence `c`.
pub fn single(c: char) -> (r: Vec<char>)
    ensures
        r@ == seq![c],
{
    let mut r: Vec<char> = Vec::new();
    r.push(c);
    assert(r@ =~= seq![c]);
    r
}

/// Whether the characters of `v` are those of `s`.
pub fn eq_str(v: &[char], s: &str) -> (r: bool)
    ensures
        r == (v@ == s@),
{
    let w = to_chars(s);
    chars_eq(v, &w)
}

/// A copy of `v[lo..hi]`.
pub fn sub_vec(v: &[char], lo: usize, hi: usize) -> (r: Vec<char>)
    requires
        lo <= hi <= v@.len(),
    ensures
        r@ == v@.subrange(lo as int, hi as int),
{
    let mut r: Vec<char> = Vec::new();
    let mut i = lo;
    while i < hi
        invariant
            lo <= i <= hi,
            hi <= v@.len(),
            r@ == v@.subrange(lo as int, i as int),
        decreases hi - i,
    {
        r.push(v[i]);
        i = i + 1;
    }
    r
}

/// Appends all of `b` to `a`.
pub fn extend(a: &mut Vec<char>, b: &[char])
    ensures
        final(a)@ == old(a)@ + b@,
{
    let mut i: usize = 0;
    while i < b.len()
        invariant
            i <= b.len(),
            a@ == old(a)@ + b@.subrange(0, i as int),
        decreases b.len() - i,
    {
        a.push(b[i]);
        i = i + 1;
    }
    assert(b@.subrange(0, b@.len() as int) =~= b@);
}

/// `a` followed by `b`.
pub fn concat(a: &[char], b: &[char]) -> (r: Vec<char>)
    ensures
        r@ == a@ + b@,
{
    let mut r = sub_vec(a, 0, a.len());
    let mut i: usize = 0;
    while i < b.len()
        invariant
            i <= b.len(),
            r@ == a@ + b@.subrange(0, i as int),
        decreases b.len() - i,
    {
        r.push(b[i]);
        i = i + 1;
    }
    r
}

/// Whether two character sequences are equal.
pub fn chars_eq(a: &[char], b: &[char]) -> (r: bool)
    ensures
        r == (a@ == b@),
{
    if a.len() != b.len() {
        return false;
    }
    let mut i: usize = 0;
    while i < a.len()
        invariant
            a@.len() == b@.len(),
            i <= a.len(),
            forall|j: int| 0 <= j < i ==> a@[j] == b@[j],
        decreases a.len() - i,
    {
        if a[i] != b[i] {
            return false;
        }
        i = i + 1;
    }
    assert(a@ =~= b@);
    true
}

// ---------------------------------------------------------------------------
// Prefixes, suffixes and substrings
// ---------------------------------------------------------------------------

/// `p` is a prefix of `s`.
pub open spec fn starts_with(s: Seq<char>, p: Seq<char>) -> bool {
    p.len() <= s.len() && s.subrange(0, p.len() as int) == p
}

/// `p` is a suffix of `s`.
pub open spec fn ends_with(s: Seq<char>, p: Seq<char>) -> bool {
    p.len() <= s.len() && s.subrange(s.len() - p.len(), s.len() as int) == p
}

/// `p` occurs in `s` starting at index `i`.
pub open spec fn occurs_at(s: Seq<char>, p: Seq<char>, i: int) -> bool {
    0 <= i && i + p.len() <= s.len() && s.subrange(i, i + p.len()) == p
}

/// `p` occurs somewhere in `s` (the empty sequence occurs everywhere).
pub open spec fn contains_seq(s: Seq<char>, p: Seq<char>) -> bool {
    exists|i: int| occurs_at(s, p, i)
}

/// Whether `p` occurs in `s` at index `i`.
pub fn occurs_at_exec(s: &[char], p: &[char], i: usize) -> (r: bool)
    ensures
        r == occurs_at(s@, p@, i as int),
{
    if i > s.len() || p.len() > s.len() - i {
        return false;
    }
    let mut k: usize = 0;
    while k < p.len()
        invariant
            i + p@.len() <= s@.len(),
            i <= s@.len(),
            k <= p@.len(),
            forall|j: int| 0 <= j < k ==> s@[i + j] == p@[j],
        decreases p.len() - k,
    {
        assert(i + k < s.len());
        if s[i + k] != p[k] {
            assert(s@.subrange(i as int, i + p@.len())[k as int] != p@[k as int]);
            return false;
        }
        k = k + 1;
    }
    assert(s@.subrange(i as int, i + p@.len()) =~= p@);
    true
}

/// Whether `p` is a prefix of `s`.
pub fn has_prefix(s: &[char], p: &[char]) -> (r: bool)
    ensures
        r == starts_with(s@, p@),
{
    occurs_at_exec(s, p, 0)
}

/// Whether `p` is a suffix of `s`.
pub fn has_suffix(s: &[char], p: &[char]) -> (r: bool)
    ensures
        r == ends_with(s@, p@),
{
    if p.len() > s.len() {
        return false;
    }
    occurs_at_exec(s, p, s.len() - p.len())
}

/// Whether `p` occurs anywhere in `s`.
pub fn has_substring(s: &[char], p: &[char]) -> (r: bool)
    ensures
        r == contains_seq(s@, p@),
{
    if p.len() > s.len() {
        assert forall|i: int| !occurs_at(s@, p@, i) by {}
        return false;
    }
    if p.len() == 0 {
        assert(s@.subrange(0, 0) =~= p@);
        assert(occurs_at(s@, p@, 0));
        return true;
    }
    let mut i: usize = 0;
    while i <= s.len() - p.len()
        invariant
            1 <= p@.len() <= s@.len(),
            i <= s@.len() - p@.len() + 1,
            forall|j: int| 0 <= j < i ==> !occurs_at(s@, p@, j),
        decreases s.len() - p.len() + 1 - i,
    {
        if occurs_at_exec(s, p, i) {
            return true;
        }
        i = i + 1;
    }
    assert forall|j: int| !occurs_at(s@, p@, j) by {}
    false
}

/// Whether `c` occurs in `s`.
pub fn has_char(s: &[char], c: char) -> (r: bool)
    ensures
        r == s@.contains(c),
{
    let mut i: usize = 0;
    while i < s.len()
        invariant
            i <= s.len(),
            forall|j: int| 0 <= j < i ==> s@[j] != c,
        decreases s.len() - i,
    {
        if s[i] == c {
            return true;
        }
        i = i + 1;
    }
    false
}

// ---------------------------------------------------------------------------
// Whitespace and trimming
// ---------------------------------------------------------------------------

/// Unicode `White_Space`, the property that `char::is_whitespace` tests.
pub open spec fn is_white(c: char) -> bool {
    let n = c as u32;
    (0x9 <= n && n <= 0xd) || n == 0x20 || n == 0x85 || n == 0xa0 || n == 0x1680 || (0x2000 <= n
        && n <= 0x200a) || n == 0x2028 || n == 0x2029 || n == 0x202f || n == 0x205f || n == 0x3000
}

/// Whether `c` is Unicode white space.
pub fn char_is_white(c: char) -> (r: bool)
    ensures
        r == is_white(c),
{
    let n = c as u32;
    (0x9 <= n && n <= 0xd) || n == 0x20 || n == 0x85 || n == 0xa0 || n == 0x1680 || (0x2000 <= n
        && n <= 0x200a) || n == 0x2028 || n == 0x2029 || n == 0x202f || n == 0x205f || n == 0x3000
}

/// `s` without leading white space (`str::trim_start`).
pub open spec fn trim_start_white(s: Seq<char>) -> Seq<char>
    decreases s.len(),
{
    if s.len() > 0 && is_white(s[0]) {
        trim_start_white(s.drop_first())
    } else {
        s
    }
}

/// `s` without trailing white space (`str::trim_end`).
pub open spec fn trim_end_white(s: Seq<char>) -> Seq<char>
    decreases s.len(),
{
    if s.len() > 0 && is_white(s.last()) {
        trim_end_white(s.drop_last())
    } else {
        s
    }
}

/// `s` without leading and trailing white space (`str::trim`).
pub open spec fn trim_white(s: Seq<char>) -> Seq<char> {
    trim_end_white(trim_start_white(s))
}

/// `s` without trailing characters that belong to `set` (`str::trim_end_matches`).
pub open spec fn trim_end_in(s: Seq<char>, set: Seq<char>) -> Seq<char>
    decreases s.len(),
{
    if s.len() > 0 && set.contains(s.last()) {
        trim_end_in(s.drop_last(), set)
    } else {
        s
    }
}

/// `s` without leading characters that belong to `set` (`str::trim_start_matches`).
pub open spec fn trim_start_in(s: Seq<char>, set: Seq<char>) -> Seq<char>
    decreases s.len(),
{
    if s.len() > 0 && set.contains(s[0]) {
        trim_start_in(s.drop_first(), set)
    } else {
        s
    }
}

proof fn lemma_trim_start_white_skip(s: Seq<char>, i: int)
    requires
        0 <= i <= s.len(),
        forall|j: int| 0 <= j < i ==> is_white(#[trigger] s[j]),
    ensures
        trim_start_white(s) == trim_start_white(s.subrange(i, s.len() as int)),
    decreases i,
{
    if i > 0 {
        assert(s.drop_first().subrange(i - 1, s.drop_first().len() as int) =~= s.subrange(
            i,
            s.len() as int,
        ));
        lemma_trim_start_white_skip(s.drop_first(), i - 1);
    } else {
        assert(s.subrange(0, s.len() as int) =~= s);
    }
}

proof fn lemma_trim_end_white_skip(s: Seq<char>, i: int)
    requires
        0 <= i <= s.len(),
        forall|j: int| i <= j < s.len() ==> is_white(#[trigger] s[j]),
    ensures
        trim_end_white(s) == trim_end_white(s.subrange(0, i)),
    decreases s.len() - i,
{
    if i < s.len() {
        assert(s.drop_last().subrange(0, i) =~= s.subrange(0, i));
        lemma_trim_end_white_skip(s.drop_last(), i);
    } else {
        assert(s.subrange(0, i) =~= s);
    }
}

proof fn lemma_trim_start_in_skip(s: Seq<char>, set: Seq<char>, i: int)
    requires
        0 <= i <= s.len(),
        forall|j: int| 0 <= j < i ==> set.contains(#[trigger] s[j]),
    ensures
        trim_start_in(s, set) == trim_start_in(s.subrange(i, s.len() as int), set),
    decreases i,
{
    if i > 0 {
        assert(s.drop_first().subrange(i - 1, s.drop_first().len() as int) =~= s.subrange(
            i,
            s.len() as int,
        ));
        lemma_trim_start_in_skip(s.drop_first(), set, i - 1);
    } else {
        assert(s.subrange(0, s.len() as int) =~= s);
    }
}

proof fn lemma_trim_end_in_skip(s: Seq<char>, set: Seq<char>, i: int)
    requires
        0 <= i <= s.len(),
        forall|j: int| i <= j < s.len() ==> set.contains(#[trigger] s[j]),
    ensures
        trim_end_in(s, set) == trim_end_in(s.subrange(0, i), set),
    decreases s.len() - i,
{
    if i < s.len() {
        assert(s.drop_last().subrange(0, i) =~= s.subrange(0, i));
        lemma_trim_end_in_skip(s.drop_last(), set, i);
    } else {
        assert(s.subrange(0, i) =~= s);
    }
}

/// `s` without leading white space.
pub fn trim_start(s: &[char]) -> (r: Vec<char>)
    ensures
        r@ == trim_start_white(s@),
{
    let mut i: usize = 0;
    while i < s.len() && char_is_white(s[i])
        invariant
            i <= s.len(),
            forall|j: int| 0 <= j < i ==> is_white(#[trigger] s@[j]),
        decreases s.len() - i,
    {
        i = i + 1;
    }
    proof {
        lemma_trim_start_white_skip(s@, i as int);
    }
    sub_vec(s, i, s.len())
}

/// `s` without trailing white space.
pub fn trim_end(s: &[char]) -> (r: Vec<char>)
    ensures
        r@ == trim_end_white(s@),
{
    let mut i: usize = s.len();
    while i > 0 && char_is_white(s[i - 1])
        invariant
            i <= s.len(),
            forall|j: int| i <= j < s.len() ==> is_white(#[trigger] s@[j]),
        decreases i,
    {
        i = i - 1;
    }
    proof {
        lemma_trim_end_white_skip(s@, i as int);
    }
    sub_vec(s, 0, i)
}

/// `s` without leading and trailing white space.
pub fn trim(s: &[char]) -> (r: Vec<char>)
    ensures
        r@ == trim_white(s@),
{
    let a = trim_start(s);
    trim_end(&a)
}

/// `s` without trailing characters that belong to `set`.
pub fn trim_end_set(s: &[char], set: &[char]) -> (r: Vec<char>)
    ensures
        r@ == trim_end_in(s@, set@),
{
    let mut i: usize = s.len();
    while i > 0 && has_char(set, s[i - 1])
        invariant
            i <= s.len(),
            forall|j: int| i <= j < s.len() ==> set@.contains(#[trigger] s@[j]),
        decreases i,
    {
        i = i - 1;
    }
    proof {
        lemma_trim_end_in_skip(s@, set@, i as int);
    }
    sub_vec(s, 0, i)
}

/// `s` without leading characters that belong to `set`.
pub fn trim_start_set(s: &[char], set: &[char]) -> (r: Vec<char>)
    ensures
        r@ == trim_start_in(s@, set@),
{
    let mut i: usize = 0;
    while i < s.len() && has_char(set, s[i])
        invariant
            i <= s.len(),
            forall|j: int| 0 <= j < i ==> set@.contains(#[trigger] s@[j]),
        decreases s.len() - i,
    {
        i = i + 1;
    }
    proof {
        lemma_trim_start_in_skip(s@, set@, i as int);
    }
    sub_vec(s, i, s.len())
}


// ---------------------------------------------------------------------------
// Splitting and joining
// ---------------------------------------------------------------------------

/// The pieces of `s` between occurrences of `sep` (`str::split` on a char):
/// always at least one piece.
pub open spec fn split_on(s: Seq<char>, sep: char) -> Seq<Seq<char>>
    decreases s.len(),
{
    if s.len() == 0 {
        seq![Seq::<char>::empty()]
    } else {
        let p = split_on(s.drop_last(), sep);
        if s.last() == sep {
            p.push(Seq::<char>::empty())
        } else {
            p.update(p.len() - 1, p.last().push(s.last()))
        }
    }
}

/// `parts` joined with `sep` between consecutive parts (`slice::join`).
pub open spec fn join_with(parts: Seq<Seq<char>>, sep: char) -> Seq<char>
    decreases parts.len(),
{
    if parts.len() == 0 {
        Seq::<char>::empty()
    } else if parts.len() == 1 {
        parts[0]
    } else {
        join_with(parts.drop_last(), sep) + seq![sep] + parts.last()
    }
}

/// Joining with a separator for `Vec<String>`-like parts given as sequences
/// of sequences with an arbitrary separator sequence.
pub open spec fn join_with_seq(parts: Seq<Seq<char>>, sep: Seq<char>) -> Seq<char>
    decreases parts.len(),
{
    if parts.len() == 0 {
        Seq::<char>::empty()
    } else if parts.len() == 1 {
        parts[0]
    } else {
        join_with_seq(parts.drop_last(), sep) + sep + parts.last()
    }
}

/// `split_on` never returns an empty list of pieces.
pub proof fn lemma_split_nonempty(s: Seq<char>, sep: char)
    ensures
        split_on(s, sep).len() >= 1,
    decreases s.len(),
{
    if s.len() > 0 {
        lemma_split_nonempty(s.drop_last(), sep);
    }
}

/// No piece of `split_on(s, sep)` contains `sep`.
pub proof fn lemma_split_pieces_free(s: Seq<char>, sep: char)
    ensures
        forall|k: int|
            0 <= k < split_on(s, sep).len() ==> !(#[trigger] split_on(s, sep)[k]).contains(sep),
    decreases s.len(),
{
    if s.len() > 0 {
        lemma_split_pieces_free(s.drop_last(), sep);
        lemma_split_nonempty(s.drop_last(), sep);
        let p = split_on(s.drop_last(), sep);
        if s.last() != sep {
            assert forall|k: int|
                0 <= k < split_on(s, sep).len() implies !(#[trigger] split_on(
                s,
                sep,
            )[k]).contains(sep) by {
                if k == p.len() - 1 {
                    let q = p.last().push(s.last());
                    if q.contains(sep) {
                        let j = choose|j: int| 0 <= j < q.len() && q[j] == sep;
                        if j < p.last().len() {
                            assert(p.last()[j] == sep);
                        }
                    }
                }
            }
        } else {
            assert forall|k: int|
                0 <= k < split_on(s, sep).len() implies !(#[trigger] split_on(
                s,
                sep,
            )[k]).contains(sep) by {
                if k < p.len() {
                    assert(split_on(s, sep)[k] == p[k]);
                }
            }
        }
    }
}

/// A text without the separator is one piece.
pub proof fn lemma_split_free(s: Seq<char>, sep: char)
    requires
        !s.contains(sep),
    ensures
        split_on(s, sep) == seq![s],
    decreases s.len(),
{
    if s.len() > 0 {
        let t = s.drop_last();
        assert(!t.contains(sep)) by {
            if t.contains(sep) {
                let j = choose|j: int| 0 <= j < t.len() && t[j] == sep;
                assert(s[j] == sep);
            }
        }
        lemma_split_free(t, sep);
        assert(s.last() != sep) by {
            assert(s[s.len() - 1] == s.last());
        }
        assert(t.push(s.last()) =~= s);
    } else {
        assert(s =~= Seq::<char>::empty());
    }
}

/// Splitting at a separator between two texts splits each of them.
pub proof fn lemma_split_concat(a: Seq<char>, b: Seq<char>, sep: char)
    ensures
        split_on(a + seq![sep] + b, sep) == split_on(a, sep) + split_on(b, sep),
    decreases b.len(),
{
    let s = a + seq![sep] + b;
    if b.len() == 0 {
        assert(s.drop_last() =~= a);
        assert(split_on(b, sep) =~= seq![Seq::<char>::empty()]);
        assert(split_on(a, sep).push(Seq::<char>::empty()) =~= split_on(a, sep) + split_on(b, sep));
    } else {
        let b1 = b.drop_last();
        lemma_split_concat(a, b1, sep);
        assert(s.drop_last() =~= a + seq![sep] + b1);
        assert(s.last() == b.last());
        let pa = split_on(a, sep);
        let pb = split_on(b1, sep);
        lemma_split_nonempty(b1, sep);
        if b.last() == sep {
            assert((pa + pb).push(Seq::<char>::empty()) =~= pa + pb.push(Seq::<char>::empty()));
        } else {
            let p = pa + pb;
            assert(p.last() == pb.last());
            assert(p.update(p.len() - 1, p.last().push(b.last())) =~= pa + pb.update(
                pb.len() - 1,
                pb.last().push(b.last()),
            ));
        }
    }
}

/// Splitting and re-joining on the same separator gives back the input.
pub proof fn lemma_join_split(s: Seq<char>, sep: char)
    ensures
        join_with(split_on(s, sep), sep) == s,
    decreases s.len(),
{
    if s.len() > 0 {
        let t = s.drop_last();
        lemma_join_split(t, sep);
        lemma_split_nonempty(t, sep);
        let p = split_on(t, sep);
        if s.last() == sep {
            let q = p.push(Seq::<char>::empty());
            assert(q.drop_last() =~= p);
            assert(join_with(q, sep) =~= t + seq![sep]);
            assert(t + seq![sep] =~= s);
        } else {
            let q = p.update(p.len() - 1, p.last().push(s.last()));
            if p.len() == 1 {
                assert(join_with(p, sep) == p[0]);
                assert(q[0] =~= t.push(s.last()));
                assert(t.push(s.last()) =~= s);
            } else {
                assert(q.drop_last() =~= p.drop_last());
                assert(join_with(q, sep) == join_with(p.drop_last(), sep) + seq![sep] + p.last().push(
                    s.last(),
                ));
                assert(join_with(p, sep) == join_with(p.drop_last(), sep) + seq![sep] + p.last());
                assert(join_with(q, sep) =~= join_with(p, sep).push(s.last()));
                assert(t.push(s.last()) =~= s);
            }
        }
    }
}

/// Splits `s` at every occurrence of `sep`.
pub fn split_chars(s: &[char], sep: char) -> (r: Vec<Vec<char>>)
    ensures
        r@.len() == split_on(s@, sep).len(),
        forall|k: int| 0 <= k < r@.len() ==> (#[trigger] r@[k])@ == split_on(s@, sep)[k],
{
    let mut done: Vec<Vec<char>> = Vec::new();
    let mut cur: Vec<char> = Vec::new();
    let mut i: usize = 0;
    while i < s.len()
        invariant
            i <= s.len(),
            done@.len() + 1 == split_on(s@.subrange(0, i as int), sep).len(),
            forall|k: int|
                0 <= k < done@.len() ==> (#[trigger] done@[k])@ == split_on(
                    s@.subrange(0, i as int),
                    sep,
                )[k],
            cur@ == split_on(s@.subrange(0, i as int), sep).last(),
        decreases s.len() - i,
    {
        let ghost before = s@.subrange(0, i as int);
        assert(s@.subrange(0, i + 1).drop_last() =~= before);
        proof {
            lemma_split_nonempty(before, sep);
        }
        if s[i] == sep {
            done.push(cur);
            cur = Vec::new();
        } else {
            cur.push(s[i]);
        }
        i = i + 1;
    }
    assert(s@.subrange(0, s@.len() as int) =~= s@);
    done.push(cur);
    done
}

/// Joins `parts` with `sep` between consecutive parts.
pub fn join_chars(parts: &Vec<Vec<char>>, sep: char) -> (r: Vec<char>)
    ensures
        r@ == join_with(parts@.map_values(|p: Vec<char>| p@), sep),
{
    let ghost views = parts@.map_values(|p: Vec<char>| p@);
    let mut r: Vec<char> = Vec::new();
    let mut i: usize = 0;
    while i < parts.len()
        invariant
            i <= parts.len(),
            views == parts@.map_values(|p: Vec<char>| p@),
            r@ == join_with(views.subrange(0, i as int), sep),
        decreases parts.len() - i,
    {
        let ghost prev = r@;
        assert(views.subrange(0, i + 1).drop_last() =~= views.subrange(0, i as int));
        if i > 0 {
            r.push(sep);
        }
        let mut k: usize = 0;
        while k < parts[i].len()
            invariant
                i < parts.len(),
                k <= parts[i as int]@.len(),
                r@ == (if i > 0 { prev + seq![sep] } else { prev }) + parts[i as int]@.subrange(
                    0,
                    k as int,
                ),
            decreases parts[i as int]@.len() - k,
        {
            r.push(parts[i][k]);
            k = k + 1;
        }
        assert(parts[i as int]@.subrange(0, parts[i as int]@.len() as int) =~= parts[i as int]@);
        assert(views.subrange(0, i + 1).last() == parts[i as int]@);
        if i == 0 {
            assert(r@ =~= join_with(views.subrange(0, i + 1), sep));
        }
        i = i + 1;
    }
    assert(views.subrange(0, parts@.len() as int) =~= views);
    r
}

// ---------------------------------------------------------------------------
// White-space separated words
// ---------------------------------------------------------------------------

/// The maximal runs of non-white characters of `s`, in order
/// (`str::split_whitespace`).
pub open spec fn words(s: Seq<char>) -> Seq<Seq<char>>
    decreases s.len(),
{
    if s.len() == 0 {
        Seq::<Seq<char>>::empty()
    } else if is_white(s.last()) {
        words(s.drop_last())
    } else if s.len() >= 2 && !is_white(s[s.len() - 2]) {
        let w = words(s.drop_last());
        w.update(w.len() - 1, w.last().push(s.last()))
    } else {
        words(s.drop_last()).push(seq![s.last()])
    }
}

proof fn lemma_words_nonempty(s: Seq<char>)
    requires
        s.len() > 0,
        !is_white(s.last()),
    ensures
        words(s).len() >= 1,
    decreases s.len(),
{
    if s.len() >= 2 && !is_white(s[s.len() - 2]) {
        assert(s.drop_last().last() == s[s.len() - 2]);
        lemma_words_nonempty(s.drop_last());
    }
}

/// The white-space separated words of `s`.
pub fn split_words(s: &[char]) -> (r: Vec<Vec<char>>)
    ensures
        r@.len() == words(s@).len(),
        forall|k: int| 0 <= k < r@.len() ==> (#[trigger] r@[k])@ == words(s@)[k],
{
    let mut r: Vec<Vec<char>> = Vec::new();
    let mut i: usize = 0;
    while i < s.len()
        invariant
            i <= s.len(),
            r@.len() == words(s@.subrange(0, i as int)).len(),
            forall|k: int|
                0 <= k < r@.len() ==> (#[trigger] r@[k])@ == words(s@.subrange(0, i as int))[k],
        decreases s.len() - i,
    {
        let ghost before = s@.subrange(0, i as int);
        let ghost after = s@.subrange(0, i + 1);
        assert(after.drop_last() =~= before);
        let c = s[i];
        if char_is_white(c) {
        } else if i >= 1 && !char_is_white(s[i - 1]) {
            proof {
                assert(before.last() == s@[i - 1]);
                lemma_words_nonempty(before);
                assert(after[after.len() - 2] == s@[i - 1]);
            }
            let last = r.len() - 1;
            let mut w = r[last].clone();
            w.push(c);
            r.set(last, w);
        } else {
            proof {
                if i >= 1 {
                    assert(after[after.len() - 2] == s@[i - 1]);
                }
            }
            let mut w: Vec<char> = Vec::new();
            w.push(c);
            r.push(w);
            assert(r@.last()@ =~= seq![c]);
        }
        i = i + 1;
    }
    assert(s@.subrange(0, s@.len() as int) =~= s@);
    r
}


// ---------------------------------------------------------------------------
// Searching for characters
// ---------------------------------------------------------------------------

/// Index of the last character of `s` that belongs to `set`, or -1.
pub open spec fn last_index_in(s: Seq<char>, set: Seq<char>) -> int
    decreases s.len(),
{
    if s.len() == 0 {
        -1
    } else if set.contains(s.last()) {
        s.len() - 1
    } else {
        last_index_in(s.drop_last(), set)
    }
}

/// Index of the first character of `s` that belongs to `set`, or -1.
pub open spec fn first_index_in(s: Seq<char>, set: Seq<char>) -> int
    decreases s.len(),
{
    if s.len() == 0 {
        -1
    } else if set.contains(s[0]) {
        0
    } else if first_index_in(s.drop_first(), set) == -1 {
        -1
    } else {
        first_index_in(s.drop_first(), set) + 1
    }
}

pub proof fn lemma_last_index_bounds_impl(s: Seq<char>, set: Seq<char>)
    ensures
        -1 <= last_index_in(s, set) < s.len(),
        last_index_in(s, set) >= 0 ==> set.contains(s[last_index_in(s, set)]),
        forall|j: int| last_index_in(s, set) < j < s.len() ==> !set.contains(#[trigger] s[j]),
    decreases s.len(),
{
    if s.len() > 0 && !set.contains(s.last()) {
        lemma_last_index_bounds_impl(s.drop_last(), set);
        assert forall|j: int| last_index_in(s, set) < j < s.len() implies !set.contains(
            #[trigger] s[j],
        ) by {
            if j < s.len() - 1 {
                assert(s[j] == s.drop_last()[j]);
            }
        }
    }
}

pub proof fn lemma_first_index_bounds_impl(s: Seq<char>, set: Seq<char>)
    ensures
        -1 <= first_index_in(s, set) < s.len(),
        first_index_in(s, set) >= 0 ==> set.contains(s[first_index_in(s, set)]),
        forall|j: int|
            0 <= j < s.len() && (first_index_in(s, set) == -1 || j < first_index_in(s, set))
                ==> !set.contains(#[trigger] s[j]),
    decreases s.len(),
{
    if s.len() > 0 && !set.contains(s[0]) {
        lemma_first_index_bounds_impl(s.drop_first(), set);
        assert forall|j: int|
            0 <= j < s.len() && (first_index_in(s, set) == -1 || j < first_index_in(s, set)) implies !set.contains(
            #[trigger] s[j],
        ) by {
            if j > 0 {
                assert(s[j] == s.drop_first()[j - 1]);
            }
        }
    }
}

/// Index of the last character of `s` in `set`, if any.
pub fn rfind_in(s: &[char], set: &[char]) -> (r: Option<usize>)
    ensures
        match r {
            Some(i) => i as int == last_index_in(s@, set@) && i < s@.len(),
            None => last_index_in(s@, set@) == -1,
        },
{
    proof {
        lemma_last_index_bounds_impl(s@, set@);
    }
    let mut i: usize = s.len();
    assert(s@.subrange(0, s@.len() as int) =~= s@);
    while i > 0
        invariant
            i <= s@.len(),
            last_index_in(s@, set@) == last_index_in(s@.subrange(0, i as int), set@),
        decreases i,
    {
        let ghost pre = s@.subrange(0, i as int);
        assert(pre.drop_last() =~= s@.subrange(0, i - 1));
        if has_char(set, s[i - 1]) {
            return Some(i - 1);
        }
        i = i - 1;
    }
    None
}

/// Index of the first character of `s` in `set`, if any.
pub fn find_in(s: &[char], set: &[char]) -> (r: Option<usize>)
    ensures
        match r {
            Some(i) => i as int == first_index_in(s@, set@) && i < s@.len(),
            None => first_index_in(s@, set@) == -1,
        },
{
    let mut i: usize = 0;
    while i < s.len()
        invariant
            i <= s@.len(),
            forall|j: int| 0 <= j < i ==> !set@.contains(#[trigger] s@[j]),
        decreases s.len() - i,
    {
        if has_char(set, s[i]) {
            proof {
                lemma_first_index_prefix(s@, set@, i as int);
            }
            return Some(i);
        }
        i = i + 1;
    }
    proof {
        lemma_first_index_none(s@, set@);
    }
    None
}

proof fn lemma_first_index_prefix(s: Seq<char>, set: Seq<char>, i: int)
    requires
        0 <= i < s.len(),
        set.contains(s[i]),
        forall|j: int| 0 <= j < i ==> !set.contains(#[trigger] s[j]),
    ensures
        first_index_in(s, set) == i,
    decreases i,
{
    if i > 0 {
        assert(!set.contains(s[0]));
        assert forall|j: int| 0 <= j < i - 1 implies !set.contains(#[trigger] s.drop_first()[j]) by {
            assert(s.drop_first()[j] == s[j + 1]);
        }
        lemma_first_index_prefix(s.drop_first(), set, i - 1);
    }
}

proof fn lemma_first_index_none(s: Seq<char>, set: Seq<char>)
    requires
        forall|j: int| 0 <= j < s.len() ==> !set.contains(#[trigger] s[j]),
    ensures
        first_index_in(s, set) == -1,
    decreases s.len(),
{
    if s.len() > 0 {
        assert(!set.contains(s[0]));
        assert forall|j: int| 0 <= j < s.len() - 1 implies !set.contains(
            #[trigger] s.drop_first()[j],
        ) by {
            assert(s.drop_first()[j] == s[j + 1]);
        }
        lemma_first_index_none(s.drop_first(), set);
    }
}


/// Bounds and meaning of `last_index_in`.
pub proof fn lemma_last_index_bounds(s: Seq<char>, set: Seq<char>)
    ensures
        -1 <= last_index_in(s, set) < s.len(),
        last_index_in(s, set) >= 0 ==> set.contains(s[last_index_in(s, set)]),
        forall|j: int| last_index_in(s, set) < j < s.len() ==> !set.contains(#[trigger] s[j]),
{
    lemma_last_index_bounds_impl(s, set);
}

/// Joins strings with a separator string.
pub fn join_strings(parts: &Vec<String>, sep: &str) -> (r: String)
    ensures
        r@ == join_with_seq(parts@.map_values(|p: String| p@), sep@),
{
    let ghost views = parts@.map_values(|p: String| p@);
    let mut r = String::new();
    let mut i: usize = 0;
    while i < parts.len()
        invariant
            i <= parts@.len(),
            views == parts@.map_values(|p: String| p@),
            r@ == join_with_seq(views.subrange(0, i as int), sep@),
        decreases parts.len() - i,
    {
        assert(views.subrange(0, i + 1).drop_last() =~= views.subrange(0, i as int));
        assert(views.subrange(0, i + 1).last() == parts@[i as int]@);
        if i > 0 {
            r = r.concat(sep);
        }
        r = r.concat(parts[i].as_str());
        if i == 0 {
            assert(r@ =~= join_with_seq(views.subrange(0, 1), sep@));
        }
        i = i + 1;
    }
    assert(views.subrange(0, parts@.len() as int) =~= views);
    r
}

/// A character occurs exactly when its first index exists.
pub proof fn lemma_first_index_contains(s: Seq<char>, c: char)
    ensures
        (first_index_in(s, seq![c]) != -1) == s.contains(c),
{
    lemma_first_index_bounds_impl(s, seq![c]);
    assert(seq![c][0] == c);
    assert(seq![c].contains(c));
    if s.contains(c) {
        let j = choose|j: int| 0 <= j < s.len() && s[j] == c;
        assert(seq![c].contains(s[j]));
    }
    if first_index_in(s, seq![c]) != -1 {
        let k = first_index_in(s, seq![c]);
        assert(seq![c].contains(s[k]));
        assert(s[k] == c);
    }
}

} // verus!
