use vstd::prelude::*;
use vstd::string::StrSliceExecFns;
use vstd::string::StringExecFns;
use crate::error::ClientError;

verus! {

/// The url crate's parsed-URL type, declared so its values can stand in
/// signatures; the library reads it only through the wrappers below.
#[verifier::external_type_specification]
#[verifier::external_body]
pub struct ExUrl(url::Url);

/// The serialization a parsed URL value carries.
pub uninterp spec fn url_text(u: url::Url) -> Seq<char>;

/// What `url::Url::parse` makes of a text: the serialization of the URL it
/// yields, or nothing when the text is not a valid absolute URL. The
/// outcome depends on the text alone.
pub uninterp spec fn url_parsed(s: Seq<char>) -> Option<Seq<char>>;

/// What `url::Url::join` makes of a base URL and a relative reference: the
/// serialization of the resolved URL, or nothing when resolution fails.
/// The outcome depends on the base's serialization and the reference
/// alone.
pub uninterp spec fn url_joined(base: Seq<char>, rel: Seq<char>) -> Option<Seq<char>>;

/// Relies on url::Url::parse: parses an absolute URL from a text.
#[verifier::external_body]
fn parse_url(s: &str) -> (r: Option<url::Url>)
    ensures
        match r {
            Some(u) => url_parsed(s@) == Some(url_text(u)),
            None => url_parsed(s@) is None,
        },
{
    url::Url::parse(s).ok()
}

/// Relies on url::Url::join: resolves a relative reference against a base
/// URL.
#[verifier::external_body]
fn join_url(base: &url::Url, rel: &str) -> (r: Option<url::Url>)
    ensures
        match r {
            Some(u) => url_joined(url_text(*base), rel@) == Some(url_text(u)),
            None => url_joined(url_text(*base), rel@) is None,
        },
{
    base.join(rel).ok()
}

/// Relies on url::Url::as_str: returns the URL's serialization.
#[verifier::external_body]
fn url_to_string(u: &url::Url) -> (r: String)
    ensures
        r@ == url_text(*u),
{
    u.as_str().to_string()
}

/// A text with a trailing slash guaranteed: the text itself when it
/// already ends in one, else the text with one appended.
pub open spec fn with_trailing_slash(s: Seq<char>) -> Seq<char> {
    if s.len() > 0 && s[s.len() - 1] == '/' {
        s
    } else {
        s + seq!['/']
    }
}

/// Appends a trailing slash to a base URL text unless it already ends in
/// one, so that joining relative endpoint paths keeps the last path
/// segment of the base.
pub fn normalize_base_text(base: &str) -> (r: String)
    ensures
        r@ == with_trailing_slash(base@),
{
    let len = base.unicode_len();
    if len > 0 && base.get_char(len - 1) == '/' {
        String::from_str(base)
    } else {
        proof {
            reveal_strlit("/");
        }
        let mut out = String::from_str(base);
        out.append("/");
        proof {
            assert(out@ =~= base@ + seq!['/']);
        }
        out
    }
}

/// The serialization of the endpoint a base URL text and a relative path
/// resolve to, after the base has been given its trailing slash; nothing
/// when the base does not parse or the join fails.
pub open spec fn endpoint_of(base: Seq<char>, rel: Seq<char>) -> Option<Seq<char>> {
    match url_parsed(with_trailing_slash(base)) {
        Some(b) => url_joined(b, rel),
        None => None,
    }
}

/// Normalization settles the trailing slash: a base URL without one
/// resolves every relative path to exactly the endpoint that the same
/// base with a trailing slash already present resolves it to.
pub proof fn lemma_trailing_slash_endpoint(base: Seq<char>, rel: Seq<char>)
    requires
        base.len() == 0 || base[base.len() - 1] != '/',
    ensures
        endpoint_of(base, rel) == endpoint_of(base.push('/'), rel),
{
    assert(with_trailing_slash(base) =~= with_trailing_slash(base.push('/')));
}

/// Parses the base URL after guaranteeing its trailing slash. Succeeds
/// exactly when the slash-normalized text is a valid absolute URL;
/// otherwise the base URL is invalid.
pub fn normalize_base(base: &str) -> (r: Result<url::Url, ClientError>)
    ensures
        r matches Ok(u) ==> url_parsed(with_trailing_slash(base@)) == Some(url_text(u)),
        r is Ok <==> url_parsed(with_trailing_slash(base@)) is Some,
        r matches Err(e) ==> e matches ClientError::InvalidUrl,
{
    let text = normalize_base_text(base);
    match parse_url(text.as_str()) {
        Some(u) => Ok(u),
        None => Err(ClientError::InvalidUrl),
    }
}

/// Resolves a relative endpoint path against a parsed base URL, giving
/// the endpoint's full text. Succeeds exactly when the join succeeds.
pub fn resolve_endpoint(base: &url::Url, rel: &str) -> (r: Result<String, ClientError>)
    ensures
        r matches Ok(t) ==> url_joined(url_text(*base), rel@) == Some(t@),
        r is Ok <==> url_joined(url_text(*base), rel@) is Some,
        r matches Err(e) ==> e matches ClientError::InvalidUrl,
{
    match join_url(base, rel) {
        Some(u) => Ok(url_to_string(&u)),
        None => Err(ClientError::InvalidUrl),
    }
}

} // verus!
