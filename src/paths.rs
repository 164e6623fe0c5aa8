use vstd::prelude::*;

verus! {

/// What `std::path::Path::parent` gives for a path: its parent, `None` for a
/// root or an empty path.
pub uninterp spec fn parent_of(p: Seq<char>) -> Option<Seq<char>>;

/// What `std::path::Path::file_name` gives for a path: its last normal
/// component, `None` when the path ends in `..` or is a root.
pub uninterp spec fn file_name_of(p: Seq<char>) -> Option<Seq<char>>;

/// What `std::path::Path::file_stem` gives for a path: its file name without
/// the last extension, `None` when there is no file name.
pub uninterp spec fn stem_of(p: Seq<char>) -> Option<Seq<char>>;

/// Relies on `std::path::Path::parent`, which gives `None` for a path that
/// ends in a root, such as `/`, and for the empty path.
#[verifier::external_body]
pub(crate) fn parent_text(p: &str) -> (r: Option<String>)
    ensures
        r is Some <==> parent_of(p@) is Some,
        p@ == seq!['/'] ==> r is None,
        p@.len() == 0 ==> r is None,
        r matches Some(s) ==> s@ == parent_of(p@)->0,
{
    std::path::Path::new(p).parent().map(|q| q.to_string_lossy().into_owned())
}

/// Relies on `std::path::Path::file_name`, which gives `None` for `/`.
#[verifier::external_body]
pub(crate) fn file_name_text(p: &str) -> (r: Option<String>)
    ensures
        r is Some <==> file_name_of(p@) is Some,
        p@ == seq!['/'] ==> r is None,
        r matches Some(s) ==> s@ == file_name_of(p@)->0,
{
    std::path::Path::new(p).file_name().map(|q| q.to_string_lossy().into_owned())
}

/// Relies on `std::path::Path::file_stem`, which gives `None` when there is
/// no file name, as for `/`.
#[verifier::external_body]
pub(crate) fn stem_text(p: &str) -> (r: Option<String>)
    ensures
        r is Some <==> stem_of(p@) is Some,
        p@ == seq!['/'] ==> r is None,
        r matches Some(s) ==> s@ == stem_of(p@)->0,
{
    std::path::Path::new(p).file_stem().map(|q| q.to_string_lossy().into_owned())
}

/// `name` placed directly under `base`, with one separator between them.
pub fn join_path(base: &str, name: &str) -> (r: String)
    ensures
        r@ == base@ + seq!['/'] + name@,
{
    let mut r = base.to_owned();
    proof {
        reveal_strlit("/");
    }
    r.append("/");
    r.append(name);
    r
}

} // verus!
