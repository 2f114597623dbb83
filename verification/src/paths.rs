use vstd::prelude::*;

verus! {

/// What `Path::extension` gives for a path, as text.
pub uninterp spec fn file_extension(path: Seq<char>) -> Option<Seq<char>>;

/// What `{:?}` writes for a path.
pub uninterp spec fn path_debug_text(path: Seq<char>) -> Seq<char>;

/// Calls `Path::extension` on the path `s` and gives the extension as text.
/// The contract only names the result: it depends on `s` alone.
#[verifier::external_body]
pub(crate) fn path_extension(s: &str) -> (r: Option<String>)
    ensures
        match r {
            Some(e) => file_extension(s@) == Some(e@),
            None => file_extension(s@) is None,
        },
{
    std::path::Path::new(s).extension().and_then(|e| e.to_str()).map(|e| e.to_owned())
}

/// Formats the path `s` with `{:?}` (the `Debug` of `Path`). The contract
/// only names the result: it depends on `s` alone.
#[verifier::external_body]
pub(crate) fn path_debug(s: &str) -> (r: String)
    ensures
        r@ == path_debug_text(s@),
{
    format!("{:?}", std::path::Path::new(s))
}

/// Calls `Path::exists` on the path `s`. What it returns depends on the file
/// system at the time of the call, so nothing is stated of it.
#[verifier::external_body]
pub(crate) fn path_exists(s: &str) -> bool {
    std::path::Path::new(s).exists()
}

} // verus!
