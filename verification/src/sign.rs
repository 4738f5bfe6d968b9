//! The OAuth1 signer, consumed as a black box: given the request method,
//! the bare endpoint URI (no query part), the ordered parameter list and
//! the credentials, it produces the value of the `Authorization` header.
//! A nonce and a timestamp are passed in explicitly, so the signature is a
//! pure function of the arguments; the driver chooses fresh ones per
//! request.

use vstd::prelude::*;
use crate::encode::params_view;
use crate::token::Token;

verus! {

/// The `Authorization` header value the OAuth1 HMAC-SHA1 signer returns
/// for the given method, bare URI, parameter list, credentials, nonce and
/// timestamp. The signer is deterministic once nonce and timestamp are
/// fixed, so the header is a function of these arguments alone.
pub uninterp spec fn oauth_header_of(
    method: Seq<char>,
    uri: Seq<char>,
    params: Seq<(Seq<char>, Seq<char>)>,
    consumer_key: Seq<char>,
    consumer_secret: Seq<char>,
    access_key: Seq<char>,
    access_secret: Seq<char>,
    nonce: Seq<char>,
    timestamp: u64,
) -> Seq<char>;

/// Relies on `oauth1_request`: `Builder::with_token` with HMAC-SHA1, a
/// pinned `nonce` and `timestamp` (a zero timestamp would fall back to the
/// wall clock, hence the precondition), and `Builder::authorize`, which
/// signs the sorted parameter list and returns the `Authorization` header
/// value. `uri` must be the endpoint without a query part, which this
/// crate's callers guarantee by passing the parameters separately.
#[verifier::external_body]
pub(crate) fn sign_request(
    method: &str,
    uri: &str,
    params: &Vec<(String, String)>,
    token: &Token,
    nonce: &str,
    timestamp: u64,
) -> (r: String)
    requires
        timestamp >= 1,
    ensures
        r@ == oauth_header_of(
            method@,
            uri@,
            params_view(params@),
            token.consumer_key@,
            token.consumer_secret@,
            token.access_key@,
            token.access_secret@,
            nonce@,
            timestamp,
        ),
{
    let credentials = oauth1_request::Token::from_parts(
        token.consumer_key.as_str(),
        token.consumer_secret.as_str(),
        token.access_key.as_str(),
        token.access_secret.as_str(),
    );
    let mut builder = oauth1_request::Builder::with_token(credentials, oauth1_request::HMAC_SHA1);
    builder.nonce(Some(nonce));
    builder.timestamp(core::num::NonZeroU64::new(timestamp));
    let list = oauth1_request::ParameterList::new(params.clone());
    builder.authorize(method, uri, &list)
}

} // verus!
