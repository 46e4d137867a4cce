//! File-name classification and path text.

use vstd::prelude::*;
use crate::paths::{file_extension, name_part, split_file_name, split_path};
use crate::text::{eq_str, to_chars};
use crate::unicode::{lower_text, str_to_lowercase};
use crate::error::{MediError, MediErrorV};
use vstd::utf8::{decode_first_scalar, decode_utf8, length_of_first_scalar, valid_first_scalar, valid_utf8};

verus! {

/// The extensions of video files, in lowercase.
pub open spec fn is_video_extension(e: Seq<char>) -> bool {
    e == "mkv"@ || e == "mp4"@ || e == "avi"@ || e == "m4v"@ || e == "mov"@ || e == "wmv"@ || e
        == "ts"@ || e == "flv"@ || e == "webm"@
}

/// The extension of a path's file name (`Path::extension`).
pub open spec fn path_extension(p: Seq<char>) -> Option<Seq<char>> {
    let name = name_part(p);
    if name.len() == 0 || name == seq!['.', '.'] {
        None
    } else {
        file_extension(name)
    }
}

/// A path whose extension, lowercased, is a video extension.
pub open spec fn is_video_path(p: Seq<char>) -> bool {
    match path_extension(p) {
        Some(e) => is_video_extension(lower_text(e)),
        None => false,
    }
}

/// The extension of a path's file name.
pub fn extension_of(path: &str) -> (r: Option<String>)
    ensures
        crate::types::opt_view(r) == path_extension(path@),
{
    let (_parent, name) = split_path(path);
    let nc = to_chars(name.as_str());
    let is_dotdot = nc.len() == 2 && nc[0] == '.' && nc[1] == '.';
    proof {
        if is_dotdot {
            assert(nc@ =~= seq!['.', '.']);
        }
        if nc@ == seq!['.', '.'] {
            assert(nc@[0] == '.' && nc@[1] == '.');
        }
    }
    if nc.len() == 0 || is_dotdot {
        return None;
    }
    let (_stem, ext) = split_file_name(name.as_str());
    ext
}

/// Whether a lowercased extension is a video extension.
pub fn is_video_extension_exec(e: &str) -> (r: bool)
    ensures
        r == is_video_extension(e@),
{
    let c = to_chars(e);
    eq_str(&c, "mkv") || eq_str(&c, "mp4") || eq_str(&c, "avi") || eq_str(&c, "m4v") || eq_str(
        &c,
        "mov",
    ) || eq_str(&c, "wmv") || eq_str(&c, "ts") || eq_str(&c, "flv") || eq_str(&c, "webm")
}

/// Whether a path names a video file, by its extension in any case
/// (`mkv`, `mp4`, `avi`, `m4v`, `mov`, `wmv`, `ts`, `flv`, `webm`).
pub fn is_video_file(path: &str) -> (r: bool)
    ensures
        r == is_video_path(path@),
{
    match extension_of(path) {
        Some(e) => {
            let l = str_to_lowercase(e.as_str());
            is_video_extension_exec(l.as_str())
        },
        None => false,
    }
}

// ---------------------------------------------------------------------------
// Path bytes as text
// ---------------------------------------------------------------------------

/// `String::from_utf8_lossy` on the bytes of a path: invalid sequences
/// become U+FFFD.
pub uninterp spec fn lossy_text(bytes: Seq<u8>) -> Seq<char>;

/// `String::from_utf8_lossy`: the contract only ties the result to the
/// name `lossy_text`.
#[verifier::external_body]
pub(crate) fn bytes_to_lossy(bytes: &[u8]) -> (r: String)
    ensures
        r@ == lossy_text(bytes@),
{
    String::from_utf8_lossy(bytes).into_owned()
}

/// `char::from_u32`: the character with this code when it is a Unicode
/// scalar value (at most 0x10FFFF and not a surrogate), else none.
#[verifier::external_body]
fn code_to_char(v: u32) -> (r: Option<char>)
    ensures
        (r is Some) == (v <= 0x10FFFF && !(0xD800 <= v <= 0xDFFF)),
        r matches Some(c) ==> c == v as char,
{
    char::from_u32(v)
}

/// Whether the bytes start with a well-formed encoding of one scalar, and
/// if so its value and length.
fn first_scalar(b: &[u8], i: usize) -> (r: Option<(u32, usize)>)
    requires
        i < b@.len(),
    ensures
        (r is Some) == valid_first_scalar(b@.subrange(i as int, b@.len() as int)),
        r matches Some(p) ==> p.0 == decode_first_scalar(b@.subrange(i as int, b@.len() as int))
            && p.1 as int == length_of_first_scalar(b@.subrange(i as int, b@.len() as int))
            && p.0 <= 0x10FFFF && !(0xD800 <= p.0 <= 0xDFFF) && 1 <= p.1 <= b@.len() - i,
{
    let ghost rest = b@.subrange(i as int, b@.len() as int);
    let n = b.len();
    let b0 = b[i];
    assert(rest[0] == b0);
    if b0 <= 0x7f {
        let v: u32 = (b0 & 0x7F) as u32;
        assert((b0 & 0x7F) as u32 <= 0x7f) by (bit_vector);
        return Some((v, 1));
    }
    if 0xc0 <= b0 && b0 <= 0xdf {
        if n - i < 2 || !(0x80 <= b[i + 1] && b[i + 1] <= 0xbf) {
            return None;
        }
        let b1 = b[i + 1];
        assert(rest[1] == b1);
        let v: u32 = (((b0 & 0x1F) as u32) << 6) | ((b1 & 0x3f) as u32);
        assert(((((b0 & 0x1F) as u32) << 6) | ((b1 & 0x3f) as u32)) <= 0x7ff) by (bit_vector);
        if v < 0x80 || (0xD800 <= v && v <= 0xDFFF) {
            return None;
        }
        return Some((v, 2));
    }
    if 0xe0 <= b0 && b0 <= 0xef {
        if n - i < 3 || !(0x80 <= b[i + 1] && b[i + 1] <= 0xbf) || !(0x80 <= b[i + 2] && b[i + 2]
            <= 0xbf) {
            return None;
        }
        let b1 = b[i + 1];
        let b2 = b[i + 2];
        assert(rest[1] == b1 && rest[2] == b2);
        let v: u32 = (((b0 & 0x0F) as u32) << 12) | (((b1 & 0x3f) as u32) << 6) | ((b2 & 0x3f) as u32);
        assert(((((b0 & 0x0F) as u32) << 12) | (((b1 & 0x3f) as u32) << 6) | ((b2 & 0x3f) as u32))
            <= 0xffff) by (bit_vector);
        if v < 0x800 || (0xD800 <= v && v <= 0xDFFF) {
            return None;
        }
        return Some((v, 3));
    }
    if 0xf0 <= b0 && b0 <= 0xf7 {
        if n - i < 4 || !(0x80 <= b[i + 1] && b[i + 1] <= 0xbf) || !(0x80 <= b[i + 2] && b[i + 2]
            <= 0xbf) || !(0x80 <= b[i + 3] && b[i + 3] <= 0xbf) {
            return None;
        }
        let b1 = b[i + 1];
        let b2 = b[i + 2];
        let b3 = b[i + 3];
        assert(rest[1] == b1 && rest[2] == b2 && rest[3] == b3);
        let v: u32 = (((b0 & 0x07) as u32) << 18) | (((b1 & 0x3f) as u32) << 12) | (((b2 & 0x3f)
            as u32) << 6) | ((b3 & 0x3f) as u32);
        if v < 0x10000 || v > 0x10ffff || (0xD800 <= v && v <= 0xDFFF) {
            return None;
        }
        return Some((v, 4));
    }
    None
}

/// A path given by its bytes, as text: the decoded characters when the
/// bytes are valid UTF-8, else `NonUtf8Path` carrying the path's bytes.
/// Paths that are stored must round-trip exactly.
pub fn path_to_utf8(path: &[u8]) -> (r: Result<String, MediError>)
    ensures
        valid_utf8(path@) ==> (r matches Ok(s) && s@ == decode_utf8(path@)),
        !valid_utf8(path@) ==> (r matches Err(e) && e@ == (MediErrorV::NonUtf8Path {
            path: path@,
        })),
{
    let n = path.len();
    let mut out = String::new();
    let mut i: usize = 0;
    assert(path@.subrange(0, n as int) =~= path@);
    while i < n
        invariant
            n == path@.len(),
            i <= n,
            valid_utf8(path@) == valid_utf8(path@.subrange(i as int, n as int)),
            valid_utf8(path@) ==> decode_utf8(path@) == out@ + decode_utf8(
                path@.subrange(i as int, n as int),
            ),
        decreases n - i,
    {
        let ghost rest = path@.subrange(i as int, n as int);
        match first_scalar(path, i) {
            None => {
                assert(!valid_utf8(rest));
                return Err(MediError::NonUtf8Path { path: vstd::slice::slice_to_vec(path) });
            },
            Some((v, len)) => {
                assert(rest.subrange(len as int, rest.len() as int) =~= path@.subrange(
                    i + len,
                    n as int,
                ));
                let c = match code_to_char(v) {
                    Some(c) => c,
                    None => {
                        return Err(MediError::NonUtf8Path { path: vstd::slice::slice_to_vec(path) });
                    },
                };
                proof {
                    if valid_utf8(rest) {
                        assert(decode_utf8(rest) == seq![(v as char)] + decode_utf8(
                            path@.subrange(i + len, n as int),
                        ));
                        assert(c == (v as char));
                    }
                }
                let ghost before = out@;
                crate::text::push_char(&mut out, c);
                assert(out@ =~= before + seq![c]);
                i = i + len;
            },
        }
    }
    assert(path@.subrange(n as int, n as int) =~= Seq::<u8>::empty());
    Ok(out)
}

/// Text survives the trip through path bytes: the UTF-8 bytes of any
/// string are read back as exactly that string.
pub proof fn law_path_text_round_trip(text: Seq<char>)
    ensures
        valid_utf8(vstd::utf8::encode_utf8(text)),
        decode_utf8(vstd::utf8::encode_utf8(text)) == text,
{
    vstd::utf8::encode_utf8_valid_utf8(text);
    vstd::utf8::encode_utf8_decode_utf8(text);
}

} // verus!
