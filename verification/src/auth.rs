//! Building an OAuth1 `Authorization` header from a raw
//! `x-www-form-urlencoded` parameter string, as callers that already hold
//! a serialized form body need. The form decoding is parsed and proved
//! here; the signature itself comes from the signer.

use vstd::prelude::*;
use vstd::utf8::{decode_utf8, valid_utf8};
use crate::error::Error;
use crate::filter::utf8_check;
use crate::sign::{oauth_header_of, sign_request};
use crate::token::Token;
use crate::types::{method_chars, RequestMethod};

verus! {

/// The value of an OAuth `Authorization` header, of the form
/// `OAuth oauth_consumer_key="...", ...`.
#[derive(Clone, Debug)]
pub struct OAuthHeaderWrapper(pub String);

/// The numeric value of an ASCII hexadecimal digit, or -1.
pub open spec fn hex_val(b: u8) -> int {
    if 0x30 <= b <= 0x39 {
        b - 0x30
    } else if 0x41 <= b <= 0x46 {
        b - 0x37
    } else if 0x61 <= b <= 0x66 {
        b - 0x57
    } else {
        -1
    }
}

/// An ASCII hexadecimal digit.
pub open spec fn is_hex(b: u8) -> bool {
    hex_val(b) >= 0
}

/// Percent-decoding of form data: `%XX` becomes the byte it spells, `+`
/// becomes a space, a malformed escape stays as it is.
pub open spec fn pct_decode(s: Seq<u8>) -> Seq<u8>
    decreases s.len(),
{
    if s.len() == 0 {
        Seq::empty()
    } else if s[0] == 0x25 && s.len() >= 3 && is_hex(s[1]) && is_hex(s[2]) {
        seq![(16 * hex_val(s[1]) + hex_val(s[2])) as u8] + pct_decode(s.skip(3))
    } else if s[0] == 0x2b {
        seq![0x20u8] + pct_decode(s.skip(1))
    } else {
        seq![s[0]] + pct_decode(s.skip(1))
    }
}

/// One step of the form parser: `&` closes the pair being read, the first
/// `=` switches from key to value, anything else extends the current
/// side. The state is (pairs done, key, value, reading the value).
pub open spec fn form_step(
    st: (Seq<(Seq<u8>, Seq<u8>)>, Seq<u8>, Seq<u8>, bool),
    b: u8,
) -> (Seq<(Seq<u8>, Seq<u8>)>, Seq<u8>, Seq<u8>, bool) {
    if b == 0x26 {
        (st.0.push((st.1, st.2)), Seq::empty(), Seq::empty(), false)
    } else if b == 0x3d && !st.3 {
        (st.0, st.1, st.2, true)
    } else if st.3 {
        (st.0, st.1, st.2.push(b), true)
    } else {
        (st.0, st.1.push(b), st.2, false)
    }
}

/// Runs the form parser over a byte sequence.
pub open spec fn form_run(
    st: (Seq<(Seq<u8>, Seq<u8>)>, Seq<u8>, Seq<u8>, bool),
    s: Seq<u8>,
) -> (Seq<(Seq<u8>, Seq<u8>)>, Seq<u8>, Seq<u8>, bool)
    decreases s.len(),
{
    if s.len() == 0 {
        st
    } else {
        form_run(form_step(st, s[0]), s.drop_first())
    }
}

/// The undecoded key/value pairs of a form string: every `&`-separated
/// piece, split at its first `=` (a piece without `=` has an empty
/// value). The empty string holds no pairs.
pub open spec fn form_pairs_raw(s: Seq<u8>) -> Seq<(Seq<u8>, Seq<u8>)> {
    if s.len() == 0 {
        Seq::empty()
    } else {
        let st = form_run((Seq::empty(), Seq::empty(), Seq::empty(), false), s);
        st.0.push((st.1, st.2))
    }
}

/// The decoded pairs of a form string, when every percent-decoded key and
/// value is well-formed UTF-8; `None` when any is not.
pub open spec fn form_decoded(s: Seq<u8>) -> Option<Seq<(Seq<char>, Seq<char>)>> {
    let raw = form_pairs_raw(s);
    if forall|i: int|
        0 <= i < raw.len() ==> valid_utf8(pct_decode(#[trigger] raw[i].0)) && valid_utf8(
            pct_decode(raw[i].1),
        ) {
        Option::Some(
            raw.map(|i: int, p: (Seq<u8>, Seq<u8>)| (decode_utf8(pct_decode(p.0)), decode_utf8(pct_decode(p.1)))),
        )
    } else {
        Option::None
    }
}

/// Extending the input by one byte applies one more parser step.
proof fn lemma_form_run_snoc(
    st: (Seq<(Seq<u8>, Seq<u8>)>, Seq<u8>, Seq<u8>, bool),
    s: Seq<u8>,
    b: u8,
)
    ensures
        form_run(st, s.push(b)) == form_step(form_run(st, s), b),
    decreases s.len(),
{
    if s.len() == 0 {
        assert(s.push(b)[0] == b);
        assert(s.push(b).drop_first() =~= Seq::<u8>::empty());
        assert(form_run(form_step(st, b), Seq::<u8>::empty()) == form_step(st, b));
        assert(form_run(st, s) == st);
        assert(form_run(st, s.push(b)) == form_run(form_step(st, b), s.push(b).drop_first()));
    } else {
        assert(s.push(b)[0] == s[0]);
        assert(s.push(b).drop_first() =~= s.drop_first().push(b));
        lemma_form_run_snoc(form_step(st, s[0]), s.drop_first(), b);
    }
}

/// Percent-decodes form bytes.
fn pct_decode_exec(s: &[u8]) -> (r: Vec<u8>)
    ensures
        r@ == pct_decode(s@),
{
    let mut out: Vec<u8> = Vec::new();
    let mut i: usize = 0;
    proof {
        assert(s@.skip(0) =~= s@);
    }
    while i < s.len()
        invariant
            i <= s.len(),
            out@ + pct_decode(s@.skip(i as int)) == pct_decode(s@),
        decreases s.len() - i,
    {
        let ghost rest: Seq<u8> = s@.skip(i as int);
        let b = s[i];
        proof {
            assert(rest[0] == s@[i as int]);
        }
        if b == 0x25 && s.len() - i >= 3 {
            let h1 = s[i + 1];
            let h2 = s[i + 2];
            let v1: i32 = if h1 >= 0x30 && h1 <= 0x39 {
                h1 as i32 - 0x30
            } else if h1 >= 0x41 && h1 <= 0x46 {
                h1 as i32 - 0x37
            } else if h1 >= 0x61 && h1 <= 0x66 {
                h1 as i32 - 0x57
            } else {
                -1
            };
            let v2: i32 = if h2 >= 0x30 && h2 <= 0x39 {
                h2 as i32 - 0x30
            } else if h2 >= 0x41 && h2 <= 0x46 {
                h2 as i32 - 0x37
            } else if h2 >= 0x61 && h2 <= 0x66 {
                h2 as i32 - 0x57
            } else {
                -1
            };
            proof {
                assert(rest.len() >= 3);
                assert(rest[1] == s@[i + 1] && rest[2] == s@[i + 2]);
                assert(v1 as int == hex_val(h1) && v2 as int == hex_val(h2));
            }
            if v1 >= 0 && v2 >= 0 {
                out.push((16 * v1 + v2) as u8);
                proof {
                    assert(rest.skip(3) =~= s@.skip(i + 3));
                    assert(out@ + pct_decode(s@.skip(i + 3)) =~= pct_decode(s@));
                }
                i = i + 3;
                continue ;
            }
        }
        if b == 0x2b {
            out.push(0x20);
        } else {
            out.push(b);
        }
        proof {
            assert(rest.skip(1) =~= s@.skip(i + 1));
            if b == 0x25 && rest.len() >= 3 && is_hex(rest[1]) && is_hex(rest[2]) {
                assert(false);
            }
            assert(out@ + pct_decode(s@.skip(i + 1)) =~= pct_decode(s@));
        }
        i = i + 1;
    }
    proof {
        assert(s@.skip(s@.len() as int) =~= Seq::<u8>::empty());
        assert(out@ =~= pct_decode(s@));
    }
    out
}

/// Splits form bytes into undecoded key/value pairs.
fn form_pairs_exec(s: &[u8]) -> (r: Vec<(Vec<u8>, Vec<u8>)>)
    ensures
        r@.len() == form_pairs_raw(s@).len(),
        forall|i: int|
            0 <= i < r@.len() ==> (#[trigger] r@[i].0@, r@[i].1@) == form_pairs_raw(s@)[i],
{
    if s.len() == 0 {
        let r: Vec<(Vec<u8>, Vec<u8>)> = Vec::new();
        return r;
    }
    let ghost init: (Seq<(Seq<u8>, Seq<u8>)>, Seq<u8>, Seq<u8>, bool) = (
        Seq::empty(),
        Seq::empty(),
        Seq::empty(),
        false,
    );
    let mut done: Vec<(Vec<u8>, Vec<u8>)> = Vec::new();
    let mut key: Vec<u8> = Vec::new();
    let mut val: Vec<u8> = Vec::new();
    let mut in_val: bool = false;
    let mut i: usize = 0;
    proof {
        assert(s@.take(0) =~= Seq::<u8>::empty());
    }
    while i < s.len()
        invariant
            i <= s.len(),
            ({
                let st = form_run(init, s@.take(i as int));
                &&& st.0.len() == done@.len()
                &&& forall|j: int|
                    0 <= j < done@.len() ==> (#[trigger] done@[j].0@, done@[j].1@) == st.0[j]
                &&& key@ == st.1
                &&& val@ == st.2
                &&& in_val == st.3
            }),
        decreases s.len() - i,
    {
        let b = s[i];
        proof {
            assert(s@.take(i + 1) =~= s@.take(i as int).push(b));
            lemma_form_run_snoc(init, s@.take(i as int), b);
        }
        if b == 0x26 {
            let finished_key = key.split_off(0);
            let finished_val = val.split_off(0);
            done.push((finished_key, finished_val));
            in_val = false;
        } else if b == 0x3d && !in_val {
            in_val = true;
        } else if in_val {
            val.push(b);
        } else {
            key.push(b);
        }
        i = i + 1;
    }
    proof {
        assert(s@.take(s@.len() as int) =~= s@);
    }
    done.push((key, val));
    done
}

/// Builds the `Authorization` header for a request whose parameters are
/// already serialized as an `x-www-form-urlencoded` string: the form is
/// decoded and handed to the signer with the given credentials, nonce and
/// positive timestamp. A key or value whose decoding is not well-formed
/// UTF-8 is rejected as a UTF-8 error, and exactly then.
pub fn create_authorization_header(
    token: &Token,
    method: &RequestMethod,
    url: &str,
    params: Option<&[u8]>,
    nonce: &str,
    timestamp: u64,
) -> (r: Result<OAuthHeaderWrapper, Error>)
    requires
        timestamp >= 1,
    ensures
        r is Ok <==> (match params {
            Option::Some(p) => form_decoded(p@) is Some,
            Option::None => true,
        }),
        r matches Ok(h) ==> h.0@ == oauth_header_of(
            method_chars(*method),
            url@,
            match params {
                Option::Some(p) => form_decoded(p@)->0,
                Option::None => Seq::empty(),
            },
            token.consumer_key@,
            token.consumer_secret@,
            token.access_key@,
            token.access_secret@,
            nonce@,
            timestamp,
        ),
        r matches Err(e) ==> e is Utf8,
{
    let mut decoded: Vec<(String, String)> = Vec::new();
    match params {
        None => {},
        Some(p) => {
            let raw = form_pairs_exec(p);
            let ghost raw_spec: Seq<(Seq<u8>, Seq<u8>)> = form_pairs_raw(p@);
            let mut i: usize = 0;
            while i < raw.len()
                invariant
                    i <= raw.len(),
                    params matches Option::Some(q) && q == p,
                    raw_spec == form_pairs_raw(p@),
                    raw@.len() == raw_spec.len(),
                    forall|j: int|
                        0 <= j < raw@.len() ==> (#[trigger] raw@[j].0@, raw@[j].1@) == raw_spec[j],
                    forall|j: int|
                        0 <= j < i ==> valid_utf8(pct_decode(#[trigger] raw_spec[j].0))
                            && valid_utf8(pct_decode(raw_spec[j].1)),
                    decoded@.len() == i,
                    forall|j: int|
                        0 <= j < i ==> (#[trigger] decoded@[j].0@, decoded@[j].1@) == (decode_utf8(
                            pct_decode(raw_spec[j].0),
                        ), decode_utf8(pct_decode(raw_spec[j].1))),
                decreases raw.len() - i,
            {
                let pair: &(Vec<u8>, Vec<u8>) = &raw[i];
                let key_bytes = pct_decode_exec(pair.0.as_slice());
                let val_bytes = pct_decode_exec(pair.1.as_slice());
                let key = match utf8_check(key_bytes.as_slice()) {
                    Some(text) => text.to_owned(),
                    None => {
                        proof {
                            assert(!valid_utf8(pct_decode(raw_spec[i as int].0)));
                            assert(form_pairs_raw(p@)[i as int] == raw_spec[i as int]);
                            assert(form_decoded(p@) is None);
                        }
                        return Err(Error::Utf8);
                    },
                };
                let value = match utf8_check(val_bytes.as_slice()) {
                    Some(text) => text.to_owned(),
                    None => {
                        proof {
                            assert(!valid_utf8(pct_decode(raw_spec[i as int].1)));
                            assert(form_pairs_raw(p@)[i as int] == raw_spec[i as int]);
                            assert(pct_decode(form_pairs_raw(p@)[i as int].0) == pct_decode(
                                raw_spec[i as int].0,
                            ));
                            assert(pct_decode(form_pairs_raw(p@)[i as int].1) == pct_decode(
                                raw_spec[i as int].1,
                            ));
                            assert(form_decoded(p@) is None);
                        }
                        return Err(Error::Utf8);
                    },
                };
                decoded.push((key, value));
                i = i + 1;
            }
        },
    }
    let header = sign_request(method.as_str(), url, &decoded, token, nonce, timestamp);
    proof {
        match params {
            Option::Some(p) => {
                let raw_spec = form_pairs_raw(p@);
                assert forall|j: int| 0 <= j < raw_spec.len() implies valid_utf8(pct_decode(
                    #[trigger] raw_spec[j].0,
                )) && valid_utf8(pct_decode(raw_spec[j].1)) by {}
                assert(form_decoded(p@) is Some);
                assert(crate::encode::params_view(decoded@) =~= form_decoded(p@)->0);
            },
            Option::None => {
                assert(crate::encode::params_view(decoded@) =~= Seq::<(Seq<char>, Seq<char>)>::empty());
            },
        }
    }
    Ok(OAuthHeaderWrapper(header))
}

} // verus!
