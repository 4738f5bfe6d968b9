//! The request builder: collects the stream's optional parameters, renders
//! them in one fixed, declared order, and assembles a fully signed HTTP
//! request. The order is stable across builds and identical between the
//! bytes signed and the bytes transmitted; OAuth1 signing rejects anything
//! less.

use vstd::prelude::*;
use crate::encode::{
    ascii_chars, encode_query, i32_dec_string, int_dec_chars, join_commas, dec_chars,
    lemma_ascii_bytes_utf8, lemma_join_commas_snoc, lemma_query_ascii, params_view, query_string,
    u64_dec_string,
};
use crate::filter::utf8_check;
use crate::sign::{oauth_header_of, sign_request};
use crate::token::Token;
use crate::types::{filter_level_chars, method_chars, FilterLevel, RequestMethod};

verus! {

/// A geographic bounding box, as a pair of (longitude, latitude) corners.
/// The coordinates are decimal strings rendered by the caller; the core
/// only splices them into the `locations` parameter.
#[derive(Clone, Debug)]
pub struct BoundingBox {
    pub west: String,
    pub south: String,
    pub east: String,
    pub north: String,
}

/// The `locations` fragment one box contributes: its four coordinates,
/// comma-separated, in (longitude, latitude) corner order.
pub open spec fn bbox_chars(b: BoundingBox) -> Seq<char> {
    b.west@ + seq![','] + b.south@ + seq![','] + b.east@ + seq![','] + b.north@
}

/// A builder for a stream: the endpoint, the credentials, the idle-timeout
/// duration and the optional request parameters.
#[derive(Clone, Debug)]
pub struct TwitterStreamBuilder {
    pub method: RequestMethod,
    pub endpoint: String,
    pub token: Token,
    /// Idle timeout in milliseconds; `None` disables it.
    pub timeout_ms: Option<u64>,
    pub stall_warnings: bool,
    pub filter_level: Option<FilterLevel>,
    pub language: Option<String>,
    pub follow: Option<Vec<u64>>,
    pub track: Option<String>,
    pub locations: Option<Vec<BoundingBox>>,
    pub count: Option<i32>,
}

/// A parameter present with the given value, or absent.
pub open spec fn opt_param(name: Seq<char>, v: Option<Seq<char>>) -> Seq<(Seq<char>, Seq<char>)> {
    match v {
        Option::Some(s) => seq![(name, s)],
        Option::None => Seq::empty(),
    }
}

/// The value of the `follow` parameter: the user ids in decimal, joined by
/// commas.
pub open spec fn follow_chars(ids: Seq<u64>) -> Seq<char> {
    join_commas(ids.map(|i: int, id: u64| dec_chars(id as nat)))
}

/// The value of the `locations` parameter: every box's coordinates, joined
/// by commas.
pub open spec fn locations_chars(boxes: Seq<BoundingBox>) -> Seq<char> {
    join_commas(boxes.map(|i: int, b: BoundingBox| bbox_chars(b)))
}

/// The ordered parameter list of a builder: every present optional
/// parameter, rendered, in the one declared order (which is also
/// alphabetic, as the signer's canonicalization expects). The method, the
/// endpoint, the credentials and the timeout contribute nothing.
pub open spec fn params_of(b: TwitterStreamBuilder) -> Seq<(Seq<char>, Seq<char>)> {
    opt_param(
        "count"@,
        match b.count {
            Option::Some(n) => Option::Some(int_dec_chars(n as int)),
            Option::None => Option::None,
        },
    ) + opt_param(
        "filter_level"@,
        match b.filter_level {
            Option::Some(fl) => Option::Some(filter_level_chars(fl)),
            Option::None => Option::None,
        },
    ) + opt_param(
        "follow"@,
        match b.follow {
            Option::Some(ids) => Option::Some(follow_chars(ids@)),
            Option::None => Option::None,
        },
    ) + opt_param(
        "language"@,
        match b.language {
            Option::Some(s) => Option::Some(s@),
            Option::None => Option::None,
        },
    ) + opt_param(
        "locations"@,
        match b.locations {
            Option::Some(bs) => Option::Some(locations_chars(bs@)),
            Option::None => Option::None,
        },
    ) + (if b.stall_warnings {
        seq![("stall_warnings"@, "true"@)]
    } else {
        Seq::<(Seq<char>, Seq<char>)>::empty()
    }) + opt_param(
        "track"@,
        match b.track {
            Option::Some(s) => Option::Some(s@),
            Option::None => Option::None,
        },
    )
}

/// The signed parameter set does not depend on the method, the endpoint,
/// the credentials or the timeout: two builders that agree on the seven
/// optional parameters yield the same ordered list, so a `POST` and a
/// `GET` stream with the same parameters sign the same set; only its
/// placement (body versus query string) differs.
pub proof fn lemma_params_placement_independent(a: TwitterStreamBuilder, b: TwitterStreamBuilder)
    requires
        a.count == b.count,
        a.filter_level == b.filter_level,
        a.follow@ == b.follow@,
        a.language == b.language,
        a.locations@ == b.locations@,
        a.stall_warnings == b.stall_warnings,
        a.track == b.track,
    ensures
        params_of(a) == params_of(b),
{
}

/// Renders the `follow` ids.
fn follow_value(ids: &Vec<u64>) -> (r: String)
    ensures
        r@ == follow_chars(ids@),
{
    let ghost rendered: Seq<Seq<char>> = ids@.map(|i: int, id: u64| dec_chars(id as nat));
    let mut s = String::new();
    let mut i: usize = 0;
    proof {
        assert(rendered.take(0) =~= Seq::<Seq<char>>::empty());
        assert(s@ =~= join_commas(rendered.take(0)));
    }
    while i < ids.len()
        invariant
            i <= ids.len(),
            rendered == ids@.map(|i: int, id: u64| dec_chars(id as nat)),
            rendered.len() == ids.len(),
            s@ == join_commas(rendered.take(i as int)),
        decreases ids.len() - i,
    {
        proof {
            assert(rendered.take(i + 1) =~= rendered.take(i as int).push(rendered[i as int]));
            lemma_join_commas_snoc(rendered.take(i as int), rendered[i as int]);
            reveal_strlit(",");
        }
        if i > 0 {
            s.append(",");
        }
        s.append(u64_dec_string(ids[i]).as_str());
        proof {
            assert(s@ =~= join_commas(rendered.take(i + 1)));
        }
        i = i + 1;
    }
    proof {
        assert(rendered.take(rendered.len() as int) =~= rendered);
    }
    s
}

/// Renders the `locations` boxes.
fn locations_value(boxes: &Vec<BoundingBox>) -> (r: String)
    ensures
        r@ == locations_chars(boxes@),
{
    let ghost rendered: Seq<Seq<char>> = boxes@.map(|i: int, b: BoundingBox| bbox_chars(b));
    let mut s = String::new();
    let mut i: usize = 0;
    proof {
        assert(rendered.take(0) =~= Seq::<Seq<char>>::empty());
        assert(s@ =~= join_commas(rendered.take(0)));
    }
    while i < boxes.len()
        invariant
            i <= boxes.len(),
            rendered == boxes@.map(|i: int, b: BoundingBox| bbox_chars(b)),
            rendered.len() == boxes.len(),
            s@ == join_commas(rendered.take(i as int)),
        decreases boxes.len() - i,
    {
        proof {
            assert(rendered.take(i + 1) =~= rendered.take(i as int).push(rendered[i as int]));
            lemma_join_commas_snoc(rendered.take(i as int), rendered[i as int]);
            reveal_strlit(",");
        }
        if i > 0 {
            s.append(",");
        }
        let b: &BoundingBox = &boxes[i];
        s.append(b.west.as_str());
        s.append(",");
        s.append(b.south.as_str());
        s.append(",");
        s.append(b.east.as_str());
        s.append(",");
        s.append(b.north.as_str());
        proof {
            assert(s@ =~= join_commas(rendered.take(i + 1)));
        }
        i = i + 1;
    }
    proof {
        assert(rendered.take(rendered.len() as int) =~= rendered);
    }
    s
}

/// A fully formed, signed HTTP request, ready for a transport to send.
pub struct SignedRequest {
    pub method: RequestMethod,
    /// The request URI: the endpoint, with the query string appended for a
    /// `GET` with parameters.
    pub uri: String,
    /// The value of the `Authorization` header.
    pub authorization: String,
    /// The value of the `Accept-Encoding` header, always `chunked,gzip`.
    pub accept_encoding: String,
    /// The value of the `Content-Type` header; present exactly for `POST`.
    pub content_type: Option<String>,
    /// The request body: the form-encoded parameters for `POST`, empty for
    /// `GET`. `Content-Length` is this body's length.
    pub body: Vec<u8>,
}

impl TwitterStreamBuilder {
    /// A builder for a custom endpoint.
    pub fn custom(method: RequestMethod, endpoint: String, token: Token) -> (r: Self)
        ensures
            r.method == method,
            r.endpoint == endpoint,
            r.token == token,
            r.timeout_ms == Some(90_000u64),
            !r.stall_warnings,
            r.filter_level is None,
            r.language is None,
            r.follow is None,
            r.track is None,
            r.locations is None,
            r.count is None,
            params_of(r) == Seq::<(Seq<char>, Seq<char>)>::empty(),
    {
        let r = TwitterStreamBuilder {
            method,
            endpoint,
            token,
            timeout_ms: Some(90_000),
            stall_warnings: false,
            filter_level: None,
            language: None,
            follow: None,
            track: None,
            locations: None,
            count: None,
        };
        proof {
            assert(params_of(r) =~= Seq::<(Seq<char>, Seq<char>)>::empty());
        }
        r
    }

    /// A builder for the `POST statuses/filter` endpoint.
    pub fn filter(token: Token) -> (r: Self)
        ensures
            r.method is Post,
            r.endpoint@ == "https://stream.twitter.com/1.1/statuses/filter.json"@,
            r.token == token,
            r.timeout_ms == Some(90_000u64),
            params_of(r) == Seq::<(Seq<char>, Seq<char>)>::empty(),
    {
        Self::custom(
            RequestMethod::Post,
            String::from_str("https://stream.twitter.com/1.1/statuses/filter.json"),
            token,
        )
    }

    /// A builder for the `GET statuses/sample` endpoint.
    pub fn sample(token: Token) -> (r: Self)
        ensures
            r.method is Get,
            r.endpoint@ == "https://stream.twitter.com/1.1/statuses/sample.json"@,
            r.token == token,
            r.timeout_ms == Some(90_000u64),
            params_of(r) == Seq::<(Seq<char>, Seq<char>)>::empty(),
    {
        Self::custom(
            RequestMethod::Get,
            String::from_str("https://stream.twitter.com/1.1/statuses/sample.json"),
            token,
        )
    }

    /// Builds the ordered parameter list handed to the signer and encoded
    /// on the wire. For a fixed builder the result is always the same
    /// list, `params_of` it.
    pub fn build_query(&self) -> (r: Vec<(String, String)>)
        ensures
            params_view(r@) == params_of(*self),
    {
        let mut out: Vec<(String, String)> = Vec::new();
        match &self.count {
            Some(n) => {
                out.push((String::from_str("count"), i32_dec_string(*n)));
            },
            None => {},
        }
        match &self.filter_level {
            Some(fl) => {
                out.push((String::from_str("filter_level"), fl.param_value()));
            },
            None => {},
        }
        match &self.follow {
            Some(ids) => {
                out.push((String::from_str("follow"), follow_value(ids)));
            },
            None => {},
        }
        match &self.language {
            Some(s) => {
                out.push((String::from_str("language"), s.clone()));
            },
            None => {},
        }
        match &self.locations {
            Some(bs) => {
                out.push((String::from_str("locations"), locations_value(bs)));
            },
            None => {},
        }
        if self.stall_warnings {
            out.push((String::from_str("stall_warnings"), String::from_str("true")));
        }
        match &self.track {
            Some(s) => {
                out.push((String::from_str("track"), s.clone()));
            },
            None => {},
        }
        proof {
            assert(params_view(out@) =~= params_of(*self));
        }
        out
    }

    /// Assembles the signed request: the parameters in their fixed order,
    /// the `Authorization` header from the signer, and the parameters
    /// placed in the body (`POST`) or appended to the URI (`GET`). The
    /// nonce and timestamp come from the driver; the timestamp must be a
    /// positive Unix time.
    pub fn build_request(&self, nonce: &str, timestamp: u64) -> (r: SignedRequest)
        requires
            timestamp >= 1,
        ensures
            r.method == self.method,
            r.accept_encoding@ == "chunked,gzip"@,
            r.authorization@ == oauth_header_of(
                method_chars(self.method),
                self.endpoint@,
                params_of(*self),
                self.token.consumer_key@,
                self.token.consumer_secret@,
                self.token.access_key@,
                self.token.access_secret@,
                nonce@,
                timestamp,
            ),
            self.method is Post ==> {
                &&& r.uri@ == self.endpoint@
                &&& r.body@ == query_string(params_of(*self))
                &&& r.content_type matches Some(ct) && ct@
                    == "application/x-www-form-urlencoded"@
            },
            self.method is Get ==> {
                &&& r.body@ == Seq::<u8>::empty()
                &&& r.content_type is None
                &&& (params_of(*self).len() == 0 ==> r.uri@ == self.endpoint@)
                &&& (params_of(*self).len() > 0 ==> r.uri@ == self.endpoint@ + seq!['?']
                    + ascii_chars(query_string(params_of(*self))))
            },
    {
        let params = self.build_query();
        let authorization = sign_request(
            self.method.as_str(),
            self.endpoint.as_str(),
            &params,
            &self.token,
            nonce,
            timestamp,
        );
        let accept_encoding = String::from_str("chunked,gzip");
        match self.method {
            RequestMethod::Post => {
                let body = encode_query(&params);
                SignedRequest {
                    method: RequestMethod::Post,
                    uri: self.endpoint.clone(),
                    authorization,
                    accept_encoding,
                    content_type: Some(String::from_str("application/x-www-form-urlencoded")),
                    body,
                }
            },
            RequestMethod::Get => {
                let mut uri = self.endpoint.clone();
                if params.len() > 0 {
                    let qs = encode_query(&params);
                    proof {
                        lemma_query_ascii(params_view(params@));
                        lemma_ascii_bytes_utf8(qs@);
                        reveal_strlit("?");
                    }
                    uri.append("?");
                    match utf8_check(qs.as_slice()) {
                        Some(text) => {
                            uri.append(text);
                        },
                        None => {
                            proof {
                                assert(false);
                            }
                        },
                    }
                    proof {
                        assert(uri@ =~= self.endpoint@ + seq!['?'] + ascii_chars(query_string(
                            params_of(*self),
                        )));
                    }
                }
                SignedRequest {
                    method: RequestMethod::Get,
                    uri,
                    authorization,
                    accept_encoding,
                    content_type: None,
                    body: Vec::new(),
                }
            },
        }
    }
}

} // verus!
