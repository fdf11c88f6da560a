//! File-system paths, held as text.
use vstd::prelude::*;

verus! {

/// `PathBuf::join` on Unix: an absolute `rel` replaces `base`; otherwise
/// `rel` is appended, with a `/` in between unless `base` is empty or
/// already ends with one.
pub open spec fn path_join(base: Seq<char>, rel: Seq<char>) -> Seq<char> {
    if rel.len() > 0 && rel[0] == '/' {
        rel
    } else if base.len() > 0 && base.last() != '/' {
        base + seq!['/'] + rel
    } else {
        base + rel
    }
}

/// Executable form of [`path_join`].
pub fn join(base: &str, rel: &str) -> (r: String)
    ensures
        r@ == path_join(base@, rel@),
{
    let rv = crate::text::chars_of(rel);
    if rv.len() > 0 && rv[0] == '/' {
        return String::from_str(rel);
    }
    let bv = crate::text::chars_of(base);
    let mut r = String::from_str(base);
    if bv.len() > 0 && bv[bv.len() - 1] != '/' {
        crate::text::push_char(&mut r, '/');
    }
    r.append(rel);
    r
}

/// Joins several relative components onto `base`, left to right.
pub open spec fn path_join_all(base: Seq<char>, parts: Seq<Seq<char>>) -> Seq<char>
    decreases parts.len(),
{
    if parts.len() == 0 {
        base
    } else {
        path_join(path_join_all(base, parts.drop_last()), parts.last())
    }
}

/// What `Path::parent` returns for a path (as text).
pub uninterp spec fn std_path_parent(p: Seq<char>) -> Option<Seq<char>>;

/// What `Path::file_name` returns for a path (as text).
pub uninterp spec fn std_path_file_name(p: Seq<char>) -> Option<Seq<char>>;

/// `Path::parent`: the path without its final component, if there is one.
/// Its result is named, not described: it depends on the path alone.
#[verifier::external_body]
pub fn parent(p: &str) -> (r: Option<String>)
    ensures
        r matches Some(s) ==> std_path_parent(p@) == Some(s@),
        r is None ==> std_path_parent(p@) is None,
{
    std::path::Path::new(p).parent().map(|q| q.to_string_lossy().into_owned())
}

/// `Path::file_name` (as text): the final component, unless it is `..` or
/// the path ends in a root.  Its result is named, not described: it
/// depends on the path alone.
#[verifier::external_body]
pub fn file_name(p: &str) -> (r: Option<String>)
    ensures
        r matches Some(s) ==> std_path_file_name(p@) == Some(s@),
        r is None ==> std_path_file_name(p@) is None,
{
    std::path::Path::new(p).file_name().map(|q| q.to_string_lossy().into_owned())
}


/// What `Path`'s equality says of two paths (it compares components).
pub uninterp spec fn std_path_eq(a: Seq<char>, b: Seq<char>) -> bool;

/// `Path` equality: whether two paths have the same components.  Its result
/// depends on the two paths alone and is named, not described.
#[verifier::external_body]
pub fn path_eq(a: &str, b: &str) -> (r: bool)
    ensures
        r == std_path_eq(a@, b@),
{
    std::path::Path::new(a) == std::path::Path::new(b)
}

} // verus!
