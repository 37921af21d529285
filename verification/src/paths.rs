//! Path reconciliation: translating relative `path` fields between manifest
//! locations without changing the filesystem target they denote.
//!
//! Joining and prefix-stripping are plain path algebra and are implemented
//! here; computing a relative path between two directories and resolving a
//! path against the file system are done by outside code behind trusted
//! wrappers.

use vstd::prelude::*;

use crate::text::str_eq;

verus! {

/// A path is absolute iff it starts with the path separator.
pub open spec fn spec_is_absolute(p: Seq<char>) -> bool {
    p.len() > 0 && p[0] == '/'
}

/// Joining a path onto a base directory: an absolute path replaces the
/// base, a relative one is appended behind a separator.
pub open spec fn spec_join(base: Seq<char>, p: Seq<char>) -> Seq<char> {
    if spec_is_absolute(p) {
        p
    } else if base.len() == 0 {
        p
    } else if base.last() == '/' {
        base + p
    } else {
        base + seq!['/'] + p
    }
}

/// The package directory as it is shown in diagnostics: relative to the
/// workspace root when the root is a prefix of it, unchanged otherwise.
pub open spec fn spec_relative_display(crate_dir: Seq<char>, root_dir: Seq<char>) -> Seq<char> {
    if crate_dir == root_dir {
        Seq::empty()
    } else if root_dir.len() > 0 && root_dir.len() < crate_dir.len() && crate_dir.take(
        root_dir.len() as int,
    ) == root_dir {
        if root_dir.last() == '/' {
            crate_dir.skip(root_dir.len() as int)
        } else if crate_dir[root_dir.len() as int] == '/' {
            crate_dir.skip(root_dir.len() as int + 1)
        } else {
            crate_dir
        }
    } else {
        crate_dir
    }
}

/// Whether the path is relative (does not start with the separator).
pub fn path_is_relative(p: &str) -> (r: bool)
    ensures
        r == !spec_is_absolute(p@),
{
    let n = p.unicode_len();
    if n == 0 {
        true
    } else {
        !(p.get_char(0) == '/')
    }
}

/// Joins `p` onto the directory `base`.
pub fn path_join(base: &str, p: &str) -> (r: String)
    ensures
        r@ == spec_join(base@, p@),
{
    if !path_is_relative(p) {
        return String::from_str(p);
    }
    let bn = base.unicode_len();
    if bn == 0 {
        return String::from_str(p);
    }
    let mut out = String::from_str(base);
    if !(base.get_char(bn - 1) == '/') {
        proof {
            reveal_strlit("/");
            assert(("/")@ =~= seq!['/']);
        }
        out.append("/");
    }
    out.append(p);
    out
}

/// The package directory relative to the workspace root, for diagnostics.
pub fn relative_display(crate_dir: &str, root_dir: &str) -> (r: String)
    ensures
        r@ == spec_relative_display(crate_dir@, root_dir@),
{
    if str_eq(crate_dir, root_dir) {
        return String::new();
    }
    let cn = crate_dir.unicode_len();
    let rn = root_dir.unicode_len();
    if 0 < rn && rn < cn {
        let prefix = crate_dir.substring_char(0, rn);
        if str_eq(prefix, root_dir) {
            if root_dir.get_char(rn - 1) == '/' {
                return String::from_str(crate_dir.substring_char(rn, cn));
            } else if crate_dir.get_char(rn) == '/' {
                return String::from_str(crate_dir.substring_char(rn + 1, cn));
            } else {
                return String::from_str(crate_dir);
            }
        }
    }
    String::from_str(crate_dir)
}

/// The relative path that leads from the directory `base` to `path`, as
/// `pathdiff` computes it; `None` where no such path exists (a relative
/// `path` diffed against an absolute `base`).
pub uninterp spec fn spec_path_diff(path: Seq<char>, base: Seq<char>) -> Option<Seq<char>>;

/// Relies on `pathdiff::diff_utf8_paths`: the result depends on the two
/// paths alone.
#[verifier::external_body]
pub(crate) fn path_diff(path: &str, base: &str) -> (r: Option<String>)
    ensures
        match r {
            Some(q) => spec_path_diff(path@, base@) == Some(q@),
            None => spec_path_diff(path@, base@) is None,
        },
{
    pathdiff::diff_utf8_paths(camino::Utf8Path::new(path), camino::Utf8Path::new(base)).map(
        |p| p.into_string(),
    )
}

/// Relies on `camino::Utf8Path::canonicalize`: it asks the file system, so
/// two calls on the same text may differ and nothing is promised of the
/// result.  `None` covers both an I/O failure and a canonical path that is
/// not UTF-8.
#[verifier::external_body]
pub(crate) fn canonicalize_path(p: &str) -> (r: Option<String>) {
    match camino::Utf8Path::new(p).canonicalize() {
        Ok(pb) => pb.to_str().map(|s| s.to_string()),
        Err(_) => None,
    }
}

} // verus!
