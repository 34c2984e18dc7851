//! Locations of files.
use vstd::prelude::*;

verus! {

/// What a reference leads to from a base: the text of the URL, or what is wrong with one of them.
pub uninterp spec fn url_joined(base: Seq<char>, reference: Seq<char>) -> Result<
    Seq<char>,
    Seq<char>,
>;

/// Calls `url::Url::join` on the URL that the base is read as. The result is the text of the joined
/// URL, or the text of the error. It depends on the two texts alone.
#[verifier::external_body]
pub(crate) fn join_url(base: &str, reference: &str) -> (r: Result<String, String>)
    ensures
        match r {
            Ok(joined) => url_joined(base@, reference@) == Ok::<Seq<char>, Seq<char>>(joined@),
            Err(error) => url_joined(base@, reference@) == Err::<Seq<char>, Seq<char>>(error@),
        },
{
    match url::Url::parse(base).and_then(|base| base.join(reference)) {
        Ok(joined) => Ok(joined.to_string()),
        Err(error) => Err(error.to_string()),
    }
}

/// The path in an object store that a text stands for.
pub uninterp spec fn object_path_of(text: Seq<char>) -> Seq<char>;

/// Calls `object_store::path::Path::from` and writes the result with its `Display`. Empty parts
/// between slashes are left out, and characters that a part cannot hold are percent-encoded. The
/// result depends on the text alone.
#[verifier::external_body]
pub(crate) fn object_path(text: &str) -> (r: String)
    ensures
        r@ == object_path_of(text@),
{
    object_store::path::Path::from(text).to_string()
}

} // verus!
