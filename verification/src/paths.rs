use vstd::prelude::*;

use crate::text::{chars_of, push_char};

verus! {

/// Whether a path is absolute on the platform the crate is built for, as
/// `std::path::Path::is_absolute` decides it.
pub uninterp spec fn is_absolute_path(path: Seq<char>) -> bool;

/// The path `base` joined with `rel` as `std::path::Path::join` builds it.
pub uninterp spec fn joined_path(base: Seq<char>, rel: Seq<char>) -> Seq<char>;

/// Calls `std::path::Path::is_absolute`; the result is named by
/// `is_absolute_path`, whose value depends on the target platform's path rules.
#[verifier::external_body]
pub(crate) fn path_is_absolute(path: &str) -> (r: bool)
    ensures
        r == is_absolute_path(path@),
{
    std::path::Path::new(path).is_absolute()
}

/// Whether `c` separates path components on some platform (`/`, and also
/// `\` on Windows).
pub open spec fn is_separator(c: char) -> bool {
    c == '/' || c == '\\'
}

/// Whether `s` starts with a Windows drive prefix such as `C:` (a second
/// character `:`), which makes a path relative to that drive's current
/// directory rather than to the base it is joined onto.
pub open spec fn has_drive_prefix(s: Seq<char>) -> bool {
    s.len() >= 2 && s[1] == ':'
}

/// A single plain file or directory name: not empty, without separators,
/// and without a drive prefix (so it has neither a root nor a prefix).
pub open spec fn is_plain_name(s: Seq<char>) -> bool {
    &&& s.len() > 0
    &&& forall|i: int| 0 <= i < s.len() ==> !is_separator(#[trigger] s[i])
    &&& !has_drive_prefix(s)
}

/// Whether a path starts with `\\?`, as Windows verbatim paths (`\\?\`) do;
/// `PathBuf::push` rewrites such a base instead of only extending it.
pub open spec fn starts_like_verbatim(s: Seq<char>) -> bool {
    s.len() >= 3 && s[0] == '\\' && s[1] == '\\' && s[2] == '?'
}

/// `r` is `base` extended by `rel`: the base, then the name, with a
/// separator between them only where the base is not empty and does not
/// end in `/`, and never a `\` after a base that ends in `\` (a `\` ends
/// a base's last component on Windows; elsewhere `/` is the separator).
pub open spec fn extends_with(base: Seq<char>, rel: Seq<char>, r: Seq<char>) -> bool {
    ||| r == base + rel
    ||| {
        &&& base.len() > 0
        &&& base.last() != '/'
        &&& r.len() == base.len() + 1 + rel.len()
        &&& is_separator(r[base.len() as int])
        &&& !(r[base.len() as int] == '\\' && base.last() == '\\')
        &&& r == base + seq![r[base.len() as int]] + rel
    }
}

/// Calls `std::path::Path::join`; the result is named by `joined_path`. As
/// `join` documents, joining an absolute path replaces the base, and
/// joining a path without a drive prefix onto an absolute base stays
/// absolute (only a prefix without a root, as in `D:x`, replaces the base
/// by a relative path). Joining a plain name onto a base that does not
/// start like a verbatim path appends the name, after a separator where
/// one is needed (`PathBuf::push` for a relative path without root or
/// prefix; only a verbatim base is rewritten). Which separator is used,
/// and exactly when one is needed, is left to the platform.
#[verifier::external_body]
pub(crate) fn path_join(base: &str, rel: &str) -> (r: String)
    ensures
        r@ == joined_path(base@, rel@),
        is_absolute_path(rel@) ==> r@ == rel@,
        is_absolute_path(base@) && !has_drive_prefix(rel@) ==> is_absolute_path(r@),
        is_plain_name(rel@) && !starts_like_verbatim(base@) ==> extends_with(base@, rel@, r@),
{
    std::path::Path::new(base).join(rel).to_string_lossy().into_owned()
}

/// Calls `std::path::Path::exists`. The answer depends on the file system at
/// the moment of the call, so nothing is stated of it.
#[verifier::external_body]
pub(crate) fn path_exists(path: &str) -> (r: bool) {
    std::path::Path::new(path).exists()
}

/// Calls `std::path::Path::is_file`. The answer depends on the file system at
/// the moment of the call, so nothing is stated of it.
#[verifier::external_body]
pub(crate) fn path_is_file(path: &str) -> (r: bool) {
    std::path::Path::new(path).is_file()
}

/// Calls `std::path::Path::is_dir`. The answer depends on the file system at
/// the moment of the call, so nothing is stated of it.
#[verifier::external_body]
pub(crate) fn path_is_dir(path: &str) -> (r: bool) {
    std::path::Path::new(path).is_dir()
}

/// `path` made absolute against `base_dir`: kept when absolute, joined otherwise.
pub open spec fn resolved_path(base_dir: Seq<char>, path: Seq<char>) -> Seq<char> {
    if is_absolute_path(path) {
        path
    } else {
        joined_path(base_dir, path)
    }
}

/// Resolves `path` relative to `base_dir` unless it is already absolute.
pub fn resolve_path(base_dir: &str, path: String) -> (r: String)
    ensures
        r@ == resolved_path(base_dir@, path@),
        is_absolute_path(base_dir@) && !has_drive_prefix(path@) ==> is_absolute_path(r@),
{
    if path_is_absolute(path.as_str()) {
        path
    } else {
        path_join(base_dir, path.as_str())
    }
}

/// `s` with every backslash doubled.
pub open spec fn escape_backslashes(s: Seq<char>) -> Seq<char>
    decreases s.len(),
{
    if s.len() == 0 {
        Seq::empty()
    } else {
        let head = if s.last() == '\\' {
            seq!['\\', '\\']
        } else {
            seq![s.last()]
        };
        escape_backslashes(s.drop_last()) + head
    }
}

/// A path as it is written into a JSON configuration: every backslash doubled.
pub fn path_for_json(path: &str) -> (r: String)
    ensures
        r@ == escape_backslashes(path@),
{
    let cs = chars_of(path);
    let mut out = String::new();
    let mut i: usize = 0;
    while i < cs.len()
        invariant
            cs@ == path@,
            i <= cs@.len(),
            out@ == escape_backslashes(path@.take(i as int)),
        decreases cs.len() - i,
    {
        assert(path@.take(i + 1).drop_last() == path@.take(i as int));
        if cs[i] == '\\' {
            push_char(&mut out, '\\');
            push_char(&mut out, '\\');
        } else {
            push_char(&mut out, cs[i]);
        }
        i += 1;
    }
    assert(path@.take(cs.len() as int) == path@);
    out
}


/// The parent of a path as `std::path::Path::parent` computes it (`None`
/// for a root or an empty path).
pub uninterp spec fn parent_path(path: Seq<char>) -> Option<Seq<char>>;

/// Calls `std::path::Path::parent`; the result is named by `parent_path`.
/// The parent keeps the path's prefix and root, so the parent of an
/// absolute path is absolute.
#[verifier::external_body]
pub(crate) fn path_parent(path: &str) -> (r: Option<String>)
    ensures
        match r {
            Some(p) => parent_path(path@) == Some(p@),
            None => parent_path(path@) is None,
        },
        is_absolute_path(path@) ==> (r matches Some(p) ==> is_absolute_path(p@)),
{
    std::path::Path::new(path).parent().map(|p| p.to_string_lossy().into_owned())
}

/// The directory relative paths in a configuration file are resolved
/// against: the file's parent, or `.` when it has none.
pub fn config_base_dir(config_path: &str) -> (r: String)
    ensures
        r@ == match parent_path(config_path@) {
            Some(p) => p,
            None => "."@,
        },
        is_absolute_path(config_path@) && parent_path(config_path@) is Some ==> is_absolute_path(
            r@,
        ),
{
    match path_parent(config_path) {
        Some(p) => p,
        None => ".".to_owned(),
    }
}


/// Joining a plain name keeps the base as a prefix and the name as the
/// end; when the name does not start with `?`, the result does not start
/// like a verbatim path either.
pub proof fn lemma_join_keeps_base(base: Seq<char>, rel: Seq<char>, r: Seq<char>)
    requires
        is_plain_name(rel),
        rel[0] != '?',
        !starts_like_verbatim(base),
        extends_with(base, rel, r),
    ensures
        r.len() >= base.len() + rel.len(),
        r.take(base.len() as int) == base,
        r.skip(r.len() - rel.len()) == rel,
        !starts_like_verbatim(r),
{
    assert(r.take(base.len() as int) =~= base);
    assert(r.skip(r.len() - rel.len()) =~= rel);
    if starts_like_verbatim(r) {
        let n = base.len() as int;
        if n >= 3 {
            assert(r[0] == base[0] && r[1] == base[1] && r[2] == base[2]);
        } else if r == base + rel {
            assert(r[n] == rel[0]);
            assert(!is_separator(rel[0]));
        } else {
            assert(r[n + 1] == rel[0]);
            assert(!is_separator(rel[0]));
            if n == 2 {
                assert(r[0] == base[0] && r[1] == base[1]);
            } else if n == 1 {
                assert(base.last() == r[0]);
            }
        }
    }
}

/// Joining two different plain names onto the same base gives different paths.
pub proof fn lemma_join_injective(
    base: Seq<char>,
    a: Seq<char>,
    ra: Seq<char>,
    b: Seq<char>,
    rb: Seq<char>,
)
    requires
        is_plain_name(a),
        is_plain_name(b),
        a != b,
        extends_with(base, a, ra),
        extends_with(base, b, rb),
    ensures
        ra != rb,
{
    let n = base.len() as int;
    if ra == rb {
        let ga = ra.len() - n - a.len();
        let gb = rb.len() - n - b.len();
        if ga == gb {
            assert(ra.skip(n + ga) =~= a);
            assert(rb.skip(n + gb) =~= b);
        } else if ga == 1 {
            assert(rb[n] == b[0]);
        } else {
            assert(ra[n] == a[0]);
        }
    }
}

} // verus!
