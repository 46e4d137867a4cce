//! File paths as `/`-separated strings.
//!
//! The library never touches the file system; the paths it reads and builds
//! are plain strings. The spec functions here state the few operations of
//! `std::path` that the library relies on: joining, the last component and
//! its parent, and the split of a file name into stem and extension.

use vstd::prelude::*;
use crate::text::{concat, from_chars, last_index_in, lemma_last_index_bounds, rfind_in, single, sub_vec, to_chars};

verus! {

/// `dir.join(name)`: an absolute `name` replaces `dir`; a separator is
/// inserted unless `dir` is empty or already ends with one.
pub open spec fn path_join(dir: Seq<char>, name: Seq<char>) -> Seq<char> {
    if name.len() > 0 && name[0] == '/' {
        name
    } else if dir.len() == 0 {
        name
    } else if dir.last() == '/' {
        dir + name
    } else {
        dir + seq!['/'] + name
    }
}

/// The last component of a path: everything after the last `/`.
pub open spec fn name_part(p: Seq<char>) -> Seq<char> {
    p.subrange(last_index_in(p, seq!['/']) + 1, p.len() as int)
}

/// The directory holding the last component: everything before the last
/// `/` (the root itself when that `/` is the first character, empty when
/// there is none).
pub open spec fn parent_part(p: Seq<char>) -> Seq<char> {
    let i = last_index_in(p, seq!['/']);
    if i < 0 {
        Seq::<char>::empty()
    } else if i == 0 {
        seq!['/']
    } else {
        p.subrange(0, i)
    }
}

/// The name of the directory a path denotes, if it has one
/// (`Path::file_name` on a directory path).
pub open spec fn dir_name(dir: Seq<char>) -> Option<Seq<char>> {
    if name_part(dir).len() == 0 {
        None
    } else {
        Some(name_part(dir))
    }
}

/// A file name split at its last dot (`Path::file_stem` / `Path::extension`):
/// a name without a dot, with its only dot in front, or equal to `..` has no
/// extension and is its own stem.
pub open spec fn split_name(name: Seq<char>) -> (Seq<char>, Option<Seq<char>>) {
    let i = last_index_in(name, seq!['.']);
    if name == seq!['.', '.'] || i <= 0 {
        (name, None)
    } else {
        (name.subrange(0, i), Some(name.subrange(i + 1, name.len() as int)))
    }
}

/// `Path::file_stem` of a file name.
pub open spec fn file_stem(name: Seq<char>) -> Seq<char> {
    split_name(name).0
}

/// `Path::extension` of a file name.
pub open spec fn file_extension(name: Seq<char>) -> Option<Seq<char>> {
    split_name(name).1
}

/// Joins a directory and a name.
pub fn join_path(dir: &str, name: &str) -> (r: String)
    ensures
        r@ == path_join(dir@, name@),
{
    let d = to_chars(dir);
    let n = to_chars(name);
    if n.len() > 0 && n[0] == '/' {
        return from_chars(&n);
    }
    if d.len() == 0 {
        return from_chars(&n);
    }
    if d[d.len() - 1] == '/' {
        return from_chars(&concat(&d, &n));
    }
    let sep = single('/');
    let ds = concat(&d, &sep);
    let r = concat(&ds, &n);
    assert(r@ =~= d@ + seq!['/'] + n@);
    from_chars(&r)
}

/// Splits a path into its parent and its last component.
pub fn split_path(p: &str) -> (r: (String, String))
    ensures
        r.0@ == parent_part(p@),
        r.1@ == name_part(p@),
{
    let s = to_chars(p);
    let slash = single('/');
    proof {
        lemma_last_index_bounds(s@, seq!['/']);
    }
    match rfind_in(&s, &slash) {
        Some(i) => {
            let name = sub_vec(&s, i + 1, s.len());
            let parent = if i == 0 {
                single('/')
            } else {
                sub_vec(&s, 0, i)
            };
            assert(parent@ =~= parent_part(p@));
            (from_chars(&parent), from_chars(&name))
        },
        None => {
            assert(s@.subrange(0, s@.len() as int) =~= s@);
            (String::new(), from_chars(&s))
        },
    }
}

/// Splits a file name into stem and extension.
pub fn split_file_name(name: &str) -> (r: (String, Option<String>))
    ensures
        r.0@ == file_stem(name@),
        crate::types::opt_view(r.1) == file_extension(name@),
{
    let s = to_chars(name);
    let dot = single('.');
    proof {
        lemma_last_index_bounds(s@, seq!['.']);
    }
    let is_dotdot = s.len() == 2 && s[0] == '.' && s[1] == '.';
    assert(is_dotdot == (s@ == seq!['.', '.'])) by {
        if s@ == seq!['.', '.'] {
            assert(s@[0] == '.' && s@[1] == '.');
        }
        if is_dotdot {
            assert(s@ =~= seq!['.', '.']);
        }
    }
    if is_dotdot {
        return (from_chars(&s), None);
    }
    match rfind_in(&s, &dot) {
        Some(i) => {
            if i == 0 {
                (from_chars(&s), None)
            } else {
                let stem = sub_vec(&s, 0, i);
                let ext = sub_vec(&s, i + 1, s.len());
                (from_chars(&stem), Some(from_chars(&ext)))
            }
        },
        None => (from_chars(&s), None),
    }
}

} // verus!
