//! URLs as text.

use vstd::prelude::*;

verus! {

/// The URL that a path leads to from a base, with one query pair added, as
/// `url` builds and writes it; or what it says against building it.
pub uninterp spec fn request_url(
    base: Seq<char>,
    path: Seq<char>,
    name: Seq<char>,
    value: Seq<char>,
) -> Result<Seq<char>, Seq<char>>;

/// The most characters that a URL may be built from: `url` counts the bytes of
/// a URL in 32 bits, and writes a character in at most twelve bytes.
pub const MAX_URL_CHARS: usize = 300_000_000;

/// Builds a request URL with `url::Url`: `parse` reads the base, `join` follows
/// the path from it, and `query_pairs_mut().append_pair` adds the pair. The
/// contract claims only that the outcome, the text of the URL or the text of
/// the error, is a function of the four texts. The length is bounded because
/// the crate panics on a URL of more bytes than it can count.
#[verifier::external_body]
pub(crate) fn build_request_url(base: &str, path: &str, name: &str, value: &str) -> (r: Result<
    String,
    String,
>)
    requires
        base@.len() + path@.len() + name@.len() + value@.len() <= MAX_URL_CHARS,
    ensures
        match r {
            Ok(text) => request_url(base@, path@, name@, value@) == Ok::<Seq<char>, Seq<char>>(
                text@,
            ),
            Err(why) => request_url(base@, path@, name@, value@) == Err::<Seq<char>, Seq<char>>(
                why@,
            ),
        },
{
    let mut url = url::Url::parse(base).and_then(|base| base.join(path)).map_err(|e| e.to_string())?;
    url.query_pairs_mut().append_pair(name, value);
    Ok(url.to_string())
}

} // verus!
