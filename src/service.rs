//! The shorten request: the query string is read, the long URL it carries is
//! checked, and the store hands out its locator as a full short URL.

use vstd::prelude::*;
use vstd::string::{StrSliceExecFns, StringExecFns};
use crate::locator::candidate_locator;
use crate::store::{resolve_outcome, text_of, LocatorStore, Status, StoreError};

verus! {

/// The prefix that turns a locator into a short URL.
pub const HOST: &'static str = "https://yaus.pw/";

/// Why a shorten request was refused.
#[derive(Clone, Copy, Debug, PartialEq, Eq, Structural)]
pub enum ShortenError {
    /// The request has no query string.
    MissingUrl,
    /// The query string does not start with `url=`.
    MalformedQuery,
    /// The long URL is not a web URL.
    MalformedUrl,
    /// The URL is new and its candidate locator already names another URL.
    Conflict,
}

/// A short URL handed out for a long URL, and how it was obtained.
pub struct ShortLink {
    pub url: String,
    pub status: Status,
}

/// Whether a text parses as a web URL (a URL with a host-based, special
/// scheme such as `http` or `https`).
pub uninterp spec fn is_web_url(s: Seq<char>) -> bool;

/// Relies on `iron::Url::parse`, which parses with the `url` crate and
/// accepts only URLs of a special scheme that can be a base. An empty input
/// has no scheme and is refused.
#[verifier::external_body]
fn parses_as_url(s: &str) -> (r: bool)
    ensures
        r == is_web_url(s@),
        s@.len() == 0 ==> !r,
{
    iron::Url::parse(s).is_ok()
}

/// The long URL carried by a query string of the form `url=<long URL>`.
pub open spec fn query_url(query: Seq<char>) -> Option<Seq<char>> {
    if query.len() >= 4 && query.take(4) == seq!['u', 'r', 'l', '='] {
        Some(query.skip(4))
    } else {
        None
    }
}

/// The short URL for a locator.
pub open spec fn short_url_of(locator: Seq<char>) -> Seq<char> {
    HOST@ + locator
}

/// Whether a reply of `shorten` carries the result of a resolve-or-create.
pub open spec fn reply_matches(
    r: Result<ShortLink, ShortenError>,
    out: Result<(Seq<char>, Status), StoreError>,
) -> bool {
    match out {
        Ok((locator, status)) => r is Ok && r->Ok_0.url@ == short_url_of(locator)
            && r->Ok_0.status == status,
        Err(_) => r == Err::<ShortLink, ShortenError>(ShortenError::Conflict),
    }
}

/// Reads the long URL out of a query string `url=<long URL>`.
pub fn url_from_query(query: &str) -> (r: Option<String>)
    ensures
        text_of(r) == query_url(query@),
{
    proof {
        reveal_strlit("url=");
    }
    let n = query.unicode_len();
    if n < 4 {
        return None;
    }
    if query.get_char(0) != 'u' || query.get_char(1) != 'r' || query.get_char(2) != 'l'
        || query.get_char(3) != '=' {
        assert(query@.take(4)[0] != 'u' || query@.take(4)[1] != 'r' || query@.take(4)[2] != 'l'
            || query@.take(4)[3] != '=');
        return None;
    }
    assert(query@.take(4) =~= seq!['u', 'r', 'l', '=']);
    let rest = query.substring_char(4, n);
    Some(rest.to_owned())
}

/// The short URL for a locator: the host followed by the locator.
pub fn short_url(locator: &str) -> (r: String)
    ensures
        r@ == short_url_of(locator@),
{
    let mut r = HOST.to_owned();
    r.append(locator);
    r
}

/// Handles a shorten request whose query string is `query`: the long URL
/// is read from it and checked, then resolved or created in the store.
pub fn shorten(store: &mut LocatorStore, query: Option<&str>) -> (r: Result<ShortLink, ShortenError>)
    ensures
        query is None ==> r == Err::<ShortLink, ShortenError>(ShortenError::MissingUrl)
            && final(store)@ == old(store)@,
        query is Some && query_url(query->Some_0@) is None ==> r == Err::<ShortLink, ShortenError>(
            ShortenError::MalformedQuery,
        ) && final(store)@ == old(store)@,
        query is Some && query_url(query->Some_0@) is Some && !is_web_url(
            query_url(query->Some_0@)->Some_0,
        ) ==> r == Err::<ShortLink, ShortenError>(ShortenError::MalformedUrl) && final(store)@
            == old(store)@,
        query is Some && query_url(query->Some_0@) is Some && is_web_url(
            query_url(query->Some_0@)->Some_0,
        ) ==> {
            let u = query_url(query->Some_0@)->Some_0;
            exists|created_at: Seq<char>|
                {
                    let step = #[trigger] resolve_outcome(
                        old(store)@,
                        u,
                        candidate_locator(u),
                        created_at,
                    );
                    final(store)@ == step.0 && reply_matches(r, step.1)
                }
        },
{
    let q = match query {
        None => return Err(ShortenError::MissingUrl),
        Some(q) => q,
    };
    let long_url = match url_from_query(q) {
        None => return Err(ShortenError::MalformedQuery),
        Some(u) => u,
    };
    if !parses_as_url(long_url.as_str()) {
        return Err(ShortenError::MalformedUrl);
    }
    match store.resolve_or_create(long_url.as_str()) {
        Ok(s) => Ok(ShortLink { url: short_url(s.locator.as_str()), status: s.status }),
        Err(_) => Err(ShortenError::Conflict),
    }
}

} // verus!
