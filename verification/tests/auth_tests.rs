use twitter_stream::auth::create_authorization_header;
use twitter_stream::{Error, RequestMethod, Token, TwitterStreamBuilder};

fn token() -> Token {
    Token::new(
        "consumer_key".to_string(),
        "consumer_secret".to_string(),
        "access_key".to_string(),
        "access_secret".to_string(),
    )
}

#[test]
fn header_from_form_matches_header_from_builder() {
    let endpoint = "https://stream.twitter.com/1.1/statuses/filter.json";
    let mut builder = TwitterStreamBuilder::custom(
        RequestMethod::Post,
        endpoint.to_string(),
        token(),
    );
    builder.track = Some("rust lang".to_string());
    builder.language = Some("en".to_string());
    let request = builder.build_request("nonce123", 1600000000);

    // Decoding the form body and signing it again must reproduce the very
    // same header: the round trip through percent-encoding is lossless.
    let header = create_authorization_header(
        &token(),
        &RequestMethod::Post,
        endpoint,
        Some(&request.body),
        "nonce123",
        1600000000,
    )
    .unwrap();
    assert_eq!(header.0, request.authorization);
}

#[test]
fn plus_and_percent_escapes_decode_before_signing() {
    let endpoint = "https://example.com/stream";
    let mut builder =
        TwitterStreamBuilder::custom(RequestMethod::Get, endpoint.to_string(), token());
    builder.language = Some("en us".to_string());
    let direct = builder.build_request("n1", 2);

    let from_plus = create_authorization_header(
        &token(),
        &RequestMethod::Get,
        endpoint,
        Some(b"language=en+us"),
        "n1",
        2,
    )
    .unwrap();
    let from_escape = create_authorization_header(
        &token(),
        &RequestMethod::Get,
        endpoint,
        Some(b"language=en%20us"),
        "n1",
        2,
    )
    .unwrap();
    assert_eq!(from_plus.0, direct.authorization);
    assert_eq!(from_escape.0, direct.authorization);
}

#[test]
fn no_parameters_signs_the_bare_request() {
    let endpoint = "https://example.com/stream";
    let builder = TwitterStreamBuilder::custom(RequestMethod::Get, endpoint.to_string(), token());
    let direct = builder.build_request("n2", 3);
    let header = create_authorization_header(
        &token(),
        &RequestMethod::Get,
        endpoint,
        None,
        "n2",
        3,
    )
    .unwrap();
    assert_eq!(header.0, direct.authorization);
}

#[test]
fn invalid_utf8_in_form_is_rejected() {
    let result = create_authorization_header(
        &token(),
        &RequestMethod::Post,
        "https://example.com/stream",
        Some(b"key=%FF%FE"),
        "n3",
        4,
    );
    assert!(matches!(result, Err(Error::Utf8)));
}
