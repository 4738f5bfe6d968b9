//! OAuth1 credentials used to authenticate each streaming request.

use vstd::prelude::*;

verus! {

/// A token used to log into the streaming endpoint: the consumer (client)
/// key/secret pair and the access (token) key/secret pair. The strings are
/// opaque credentials owned by the caller; the core only hands them to the
/// signer.
#[derive(Clone, Debug)]
pub struct Token {
    pub consumer_key: String,
    pub consumer_secret: String,
    pub access_key: String,
    pub access_secret: String,
}

impl Token {
    /// Packs the four credential strings into a `Token`.
    pub fn new(
        consumer_key: String,
        consumer_secret: String,
        access_key: String,
        access_secret: String,
    ) -> (r: Token)
        ensures
            r.consumer_key == consumer_key,
            r.consumer_secret == consumer_secret,
            r.access_key == access_key,
            r.access_secret == access_secret,
    {
        Token { consumer_key, consumer_secret, access_key, access_secret }
    }
}

} // verus!
