//! MIME type of a file, looked up by the extension of its path.
//!
//! The extension is what follows the last `.` of the final path segment; it
//! is compared without regard to ASCII case against a fixed table. A path
//! without an extension, or with one the table does not hold, has no type.

use vstd::prelude::*;
use vstd::utf8::*;

verus! {

/// The byte `/`, which separates path segments.
pub const SLASH: u8 = 0x2f;

/// The byte `.`, which introduces an extension.
pub const DOT: u8 = 0x2e;

/// Position of the last occurrence of `b` in `s`, or -1 where there is none.
pub open spec fn last_index_of(s: Seq<u8>, b: u8) -> int
    decreases s.len(),
{
    if s.len() == 0 {
        -1
    } else if s.last() == b {
        s.len() - 1
    } else {
        last_index_of(s.drop_last(), b)
    }
}

/// The final segment of a path: what follows its last `/`.
pub open spec fn final_segment(path: Seq<u8>) -> Seq<u8> {
    path.skip(last_index_of(path, SLASH) + 1)
}

/// The extension of a path: what follows the last `.` of its final segment.
pub open spec fn extension(path: Seq<u8>) -> Option<Seq<u8>> {
    let name = final_segment(path);
    let dot = last_index_of(name, DOT);
    if dot < 0 {
        None
    } else {
        Some(name.skip(dot + 1))
    }
}

/// An ASCII capital letter as its small letter, any other byte as itself.
pub open spec fn lower_byte(b: u8) -> u8 {
    if 0x41 <= b <= 0x5a {
        (b + 0x20) as u8
    } else {
        b
    }
}

/// A byte string with its ASCII capital letters made small.
pub open spec fn lower(s: Seq<u8>) -> Seq<u8> {
    Seq::new(s.len(), |i: int| lower_byte(s[i]))
}

/// The table: the MIME type that belongs to an extension.
pub open spec fn mime_for_extension(ext: Seq<u8>) -> Option<Seq<char>> {
    let e = lower(ext);
    if e == encode_utf8("html"@) || e == encode_utf8("htm"@) {
        Some("text/html"@)
    } else if e == encode_utf8("css"@) {
        Some("text/css"@)
    } else if e == encode_utf8("xml"@) {
        Some("text/xml"@)
    } else if e == encode_utf8("txt"@) {
        Some("text/plain"@)
    } else if e == encode_utf8("gif"@) {
        Some("image/gif"@)
    } else if e == encode_utf8("jpeg"@) || e == encode_utf8("jpg"@) {
        Some("image/jpeg"@)
    } else if e == encode_utf8("png"@) {
        Some("image/png"@)
    } else if e == encode_utf8("webp"@) {
        Some("image/webp"@)
    } else if e == encode_utf8("js"@) {
        Some("application/javascript"@)
    } else if e == encode_utf8("woff"@) {
        Some("font/woff"@)
    } else if e == encode_utf8("woff2"@) {
        Some("font/woff2"@)
    } else {
        None
    }
}

/// The MIME type of the file at `path`, given as UTF-8 bytes.
pub open spec fn mime_type_of_bytes(path: Seq<u8>) -> Option<Seq<char>> {
    match extension(path) {
        Some(ext) => mime_for_extension(ext),
        None => None,
    }
}

/// The MIME type of the file at `path`.
pub open spec fn mime_type_of(path: Seq<char>) -> Option<Seq<char>> {
    mime_type_of_bytes(encode_utf8(path))
}

/// `last_index_of` finds an occurrence, and none lies behind it.
pub proof fn lemma_last_index_of(s: Seq<u8>, b: u8)
    ensures
        -1 <= last_index_of(s, b) < s.len(),
        last_index_of(s, b) >= 0 ==> s[last_index_of(s, b)] == b,
        forall|k: int| last_index_of(s, b) < k < s.len() ==> s[k] != b,
    decreases s.len(),
{
    if s.len() > 0 && s.last() != b {
        lemma_last_index_of(s.drop_last(), b);
        assert forall|k: int| last_index_of(s, b) < k < s.len() implies s[k] != b by {
            if k < s.len() - 1 {
                assert(s.drop_last()[k] == s[k]);
            }
        }
    }
}

/// A position with `b` at it and none behind it is the one `last_index_of` gives.
pub proof fn lemma_last_index_of_is(s: Seq<u8>, b: u8, at: int)
    requires
        -1 <= at < s.len(),
        at >= 0 ==> s[at] == b,
        forall|k: int| at < k < s.len() ==> s[k] != b,
    ensures
        last_index_of(s, b) == at,
{
    lemma_last_index_of(s, b);
}

/// Making letters small moves no `/` and no `.`.
proof fn lemma_lower_keeps_marks(s: Seq<u8>, b: u8)
    requires
        b == SLASH || b == DOT,
    ensures
        last_index_of(lower(s), b) == last_index_of(s, b),
{
    lemma_last_index_of(s, b);
    lemma_last_index_of_is(lower(s), b, last_index_of(s, b));
}

/// The extension of a path made small is the extension, made small.
proof fn lemma_extension_of_lower(path: Seq<u8>)
    ensures
        extension(lower(path)) == match extension(path) {
            Some(ext) => Some(lower(ext)),
            None => None,
        },
{
    lemma_lower_keeps_marks(path, SLASH);
    lemma_last_index_of(path, SLASH);
    let name = final_segment(path);
    assert(final_segment(lower(path)) =~= lower(name));
    lemma_lower_keeps_marks(name, DOT);
    lemma_last_index_of(name, DOT);
    let dot = last_index_of(name, DOT);
    if dot >= 0 {
        assert(lower(name).skip(dot + 1) =~= lower(name.skip(dot + 1)));
    }
}

/// Making small twice is making small once.
proof fn lemma_lower_twice(s: Seq<u8>)
    ensures
        lower(lower(s)) == lower(s),
{
    assert(lower(lower(s)) =~= lower(s));
}

/// The lookup does not see the case of ASCII letters: two paths that are
/// equal once their capital letters are made small have the same type.
pub proof fn lookup_ignores_ascii_case(p: Seq<char>, q: Seq<char>)
    requires
        lower(encode_utf8(p)) == lower(encode_utf8(q)),
    ensures
        mime_type_of(p) == mime_type_of(q),
{
    let bp = encode_utf8(p);
    let bq = encode_utf8(q);
    lemma_extension_of_lower(bp);
    lemma_extension_of_lower(bq);
    match extension(bp) {
        Some(ext) => {
            lemma_lower_twice(ext);
        },
        None => {},
    }
    match extension(bq) {
        Some(ext) => {
            lemma_lower_twice(ext);
        },
        None => {},
    }
}

/// A path has a type only through an extension that the table holds: with
/// no `.` in its final segment, or with an extension unknown to the table,
/// it has none.
pub proof fn no_type_without_known_extension(path: Seq<char>)
    ensures
        extension(encode_utf8(path)) is None ==> mime_type_of(path) is None,
        extension(encode_utf8(path)) matches Some(ext) ==> mime_type_of(path)
            == mime_for_extension(ext),
{
}

/// Text of printable ASCII characters, from the space to the tilde.
pub open spec fn is_printable_ascii(text: Seq<char>) -> bool {
    forall|i: int| 0 <= i < text.len() ==> ' ' <= #[trigger] text[i] <= '~'
}

/// Every type of the table is printable ASCII text.
pub proof fn lemma_types_are_printable(ext: Seq<u8>)
    ensures
        mime_for_extension(ext) matches Some(t) ==> is_printable_ascii(t),
{
    reveal_strlit("text/html");
    reveal_strlit("text/css");
    reveal_strlit("text/xml");
    reveal_strlit("text/plain");
    reveal_strlit("image/gif");
    reveal_strlit("image/jpeg");
    reveal_strlit("image/png");
    reveal_strlit("image/webp");
    reveal_strlit("application/javascript");
    reveal_strlit("font/woff");
    reveal_strlit("font/woff2");
}

/// Where the extension of `path` starts, if it has one.
fn extension_start(path: &[u8]) -> (r: Option<usize>)
    ensures
        match r {
            Some(at) => at <= path@.len() && extension(path@) == Some(path@.skip(at as int)),
            None => extension(path@) is None,
        },
{
    let mut i: usize = path.len();
    while i > 0
        invariant
            i <= path@.len(),
            forall|k: int| i <= k < path@.len() ==> path@[k] != DOT && path@[k] != SLASH,
        decreases i,
    {
        let b: u8 = path[i - 1];
        if b == DOT {
            proof {
                let slash = last_index_of(path@, SLASH);
                lemma_last_index_of(path@, SLASH);
                let name = final_segment(path@);
                lemma_last_index_of_is(name, DOT, i - 1 - (slash + 1));
                assert(name.skip(i - 1 - slash) =~= path@.skip(i as int));
            }
            return Some(i);
        }
        if b == SLASH {
            proof {
                lemma_last_index_of_is(path@, SLASH, i - 1);
                lemma_last_index_of_is(final_segment(path@), DOT, -1);
            }
            return None;
        }
        i = i - 1;
    }
    proof {
        lemma_last_index_of_is(path@, SLASH, -1);
        assert(final_segment(path@) =~= path@);
        lemma_last_index_of_is(path@, DOT, -1);
    }
    None
}

/// An ASCII capital letter as its small letter, any other byte as itself.
fn to_lower(b: u8) -> (r: u8)
    ensures
        r == lower_byte(b),
{
    if 0x41 <= b && b <= 0x5a {
        b + 0x20
    } else {
        b
    }
}

/// Whether the bytes of `path` from `from` on, made small, spell `key`.
fn extension_is(path: &[u8], from: usize, key: &str) -> (r: bool)
    requires
        from <= path@.len(),
    ensures
        r == (lower(path@.skip(from as int)) == encode_utf8(key@)),
{
    let wanted = key.as_bytes();
    let n: usize = path.len() - from;
    if wanted.len() != n {
        return false;
    }
    let ghost ext = path@.skip(from as int);
    let mut i: usize = 0;
    while i < n
        invariant
            from + n == path@.len() <= usize::MAX,
            wanted@.len() == n,
            wanted@ == encode_utf8(key@),
            ext == path@.skip(from as int),
            i <= n,
            forall|k: int| 0 <= k < i ==> lower(ext)[k] == wanted@[k],
        decreases n - i,
    {
        if to_lower(path[from + i]) != wanted[i] {
            assert(lower(ext)[i as int] != wanted@[i as int]);
            return false;
        }
        i = i + 1;
    }
    assert(lower(ext) =~= wanted@);
    true
}

/// Looks up the MIME type of the file at `path` by its extension.
///
/// Returns the type that the table holds for the extension, whatever the
/// case of its letters, and `None` where the path has no extension or the
/// table does not hold it.
pub fn mime_type_lookup(path: &str) -> (r: Option<&'static str>)
    ensures
        match r {
            Some(t) => mime_type_of(path@) == Some(t@),
            None => mime_type_of(path@) is None,
        },
{
    let bytes = path.as_bytes();
    match extension_start(bytes) {
        None => None,
        Some(at) => {
            if extension_is(bytes, at, "html") || extension_is(bytes, at, "htm") {
                Some("text/html")
            } else if extension_is(bytes, at, "css") {
                Some("text/css")
            } else if extension_is(bytes, at, "xml") {
                Some("text/xml")
            } else if extension_is(bytes, at, "txt") {
                Some("text/plain")
            } else if extension_is(bytes, at, "gif") {
                Some("image/gif")
            } else if extension_is(bytes, at, "jpeg") || extension_is(bytes, at, "jpg") {
                Some("image/jpeg")
            } else if extension_is(bytes, at, "png") {
                Some("image/png")
            } else if extension_is(bytes, at, "webp") {
                Some("image/webp")
            } else if extension_is(bytes, at, "js") {
                Some("application/javascript")
            } else if extension_is(bytes, at, "woff") {
                Some("font/woff")
            } else if extension_is(bytes, at, "woff2") {
                Some("font/woff2")
            } else {
                None
            }
        },
    }
}

} // verus!
