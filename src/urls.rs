use vstd::prelude::*;

verus! {

/// The serialization of `text` parsed as an absolute URL, if it parses.
pub uninterp spec fn parsed_url(text: Seq<char>) -> Option<Seq<char>>;

/// The serialization of `reference` resolved against the absolute URL
/// `base`, if both parse.
pub uninterp spec fn joined_url(base: Seq<char>, reference: Seq<char>) -> Option<Seq<char>>;

/// `None` where `text` does not parse as a URL; else its origin as scheme,
/// host and decimal port, or `None` for an opaque origin.
pub uninterp spec fn url_origin(text: Seq<char>) -> Option<Option<(Seq<char>, Seq<char>, Seq<char>)>>;

/// Relies on `url::Url::parse`: the parsed URL, serialized; the result
/// depends on `text` alone.
#[verifier::external_body]
pub fn parse_url(text: &str) -> (r: Option<String>)
    ensures
        r matches Some(u) ==> parsed_url(text@) == Some(u@),
        r is None ==> parsed_url(text@) is None,
{
    url::Url::parse(text).ok().map(|u| u.to_string())
}

/// Relies on `url::Url::join`: `reference` resolved against `base`, which is
/// parsed first; the result depends on the two strings alone.
#[verifier::external_body]
pub fn join_url(base: &str, reference: &str) -> (r: Option<String>)
    ensures
        r matches Some(u) ==> joined_url(base@, reference@) == Some(u@),
        r is None ==> joined_url(base@, reference@) is None,
{
    url::Url::parse(base).ok()?.join(reference).ok().map(|u| u.to_string())
}

/// Relies on `url::Url::origin`: the origin of `text` parsed as a URL.
#[verifier::external_body]
pub fn origin_of(text: &str) -> (r: Option<Option<(String, String, String)>>)
    ensures
        r matches Some(Some(t)) ==> url_origin(text@) == Some(Some((t.0@, t.1@, t.2@))),
        r matches Some(None) ==> url_origin(text@) == Some(
            None::<(Seq<char>, Seq<char>, Seq<char>)>,
        ),
        r is None ==> url_origin(text@) is None,
{
    match url::Url::parse(text).ok()?.origin() {
        url::Origin::Tuple(scheme, host, port) => Some(Some((scheme, host.to_string(), port.to_string()))),
        url::Origin::Opaque(_) => Some(None),
    }
}

} // verus!
