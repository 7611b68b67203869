//! Content-type resolution: a best-effort media type guessed from the final
//! path segment's extension, used only as a fallback when no explicit
//! content type was supplied.

use vstd::prelude::*;

verus! {

/// The media type that the extension table associates with `path`, or
/// `None` when the extension is unknown or absent.
pub uninterp spec fn mime_of(path: Seq<char>) -> Option<Seq<char>>;

/// The content type an upload at `path` is stored with: an explicitly
/// supplied type is never overridden; the guessed type only fills a gap.
pub open spec fn resolved_mime(path: Seq<char>, explicit: Option<Seq<char>>) -> Option<Seq<char>> {
    match explicit {
        Option::Some(t) => Option::Some(t),
        Option::None => mime_of(path),
    }
}

/// Relies on `mime_guess::from_path(..).first_raw()`: a lookup in a static
/// extension-to-media-type table keyed by the path's extension, with no
/// disk access; the result depends on the path's characters alone.
#[verifier::external_body]
fn mime_from_path(path: &str) -> (r: Option<&'static str>)
    ensures
        r matches Some(s) ==> mime_of(path@) == Some(s@),
        r is None ==> mime_of(path@) is None,
{
    mime_guess::from_path(path).first_raw()
}

/// Fill in the fallback content type for an upload at `path`: keep
/// `explicit` when it is set, otherwise consult the extension table.
pub fn fill_content_type(path: &str, explicit: Option<String>) -> (r: Option<String>)
    ensures
        r.deep_view() == resolved_mime(path@, explicit.deep_view()),
{
    match explicit {
        Some(t) => Some(t),
        None => match mime_from_path(path) {
            Some(m) => Some(m.to_owned()),
            None => None,
        },
    }
}

} // verus!
