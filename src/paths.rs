use vstd::prelude::*;

verus! {

/// What `Path::join` gives for `base` and `name`, as text.
pub uninterp spec fn joined(base: Seq<char>, name: Seq<char>) -> Seq<char>;

/// What `Path::with_file_name` gives for `path` and `name`, as text.
pub uninterp spec fn renamed(path: Seq<char>, name: Seq<char>) -> Seq<char>;

/// What `Path::file_name` gives for `path`, as text.
pub uninterp spec fn file_name_of(path: Seq<char>) -> Option<Seq<char>>;

/// Relies on `Path::join`: `name` appended to `base` after a separator.
#[verifier::external_body]
pub(crate) fn join(base: &String, name: &String) -> (r: String)
    ensures
        r@ == joined(base@, name@),
{
    std::path::Path::new(base).join(name).to_string_lossy().into_owned()
}

/// Relies on `Path::with_file_name`: the last component of `path` replaced by `name`.
#[verifier::external_body]
pub(crate) fn rename(path: &String, name: &String) -> (r: String)
    ensures
        r@ == renamed(path@, name@),
{
    std::path::Path::new(path).with_file_name(name).to_string_lossy().into_owned()
}

/// Relies on `Path::file_name`: the last component of `path`, if it has one.
#[verifier::external_body]
pub(crate) fn file_name(path: &String) -> (r: Option<String>)
    ensures
        match r {
            Some(n) => file_name_of(path@) == Some(n@),
            None => file_name_of(path@) is None,
        },
{
    std::path::Path::new(path).file_name().map(|n| n.to_string_lossy().into_owned())
}

} // verus!
