use twitter_stream::{BoundingBox, FilterLevel, RequestMethod, Token, TwitterStreamBuilder};

fn test_builder() -> TwitterStreamBuilder {
    TwitterStreamBuilder {
        method: RequestMethod::Get,
        endpoint: "https://stream.twitter.com/1.1/statuses/filter.json".to_string(),
        token: Token::new(String::new(), String::new(), String::new(), String::new()),
        timeout_ms: None,
        stall_warnings: true,
        filter_level: Some(FilterLevel::Low),
        language: Some("en".to_string()),
        follow: Some(vec![12]),
        track: Some("\"User Stream\" to:TwitterDev".to_string()),
        locations: Some(vec![BoundingBox {
            west: format!("{}", 37.7748),
            south: format!("{}", -122.4146),
            east: format!("{}", 37.7788),
            north: format!("{}", -122.4186),
        }]),
        count: Some(10),
    }
}

#[test]
fn query_dictionary_order() {
    let query = test_builder().build_query();
    // The insertion order of the query pairs must already be dictionary
    // order, as the OAuth1 signer's canonicalization expects.
    for window in query.windows(2) {
        assert!(window[0].0 < window[1].0, "{} !< {}", window[0].0, window[1].0);
    }
    let names: Vec<&str> = query.iter().map(|p| p.0.as_str()).collect();
    assert_eq!(
        names,
        vec!["count", "filter_level", "follow", "language", "locations", "stall_warnings", "track"]
    );
}

#[test]
fn query_values_are_rendered_exactly() {
    let query = test_builder().build_query();
    let pairs: Vec<(&str, &str)> =
        query.iter().map(|p| (p.0.as_str(), p.1.as_str())).collect();
    assert_eq!(
        pairs,
        vec![
            ("count", "10"),
            ("filter_level", "low"),
            ("follow", "12"),
            ("language", "en"),
            ("locations", "37.7748,-122.4146,37.7788,-122.4186"),
            ("stall_warnings", "true"),
            ("track", "\"User Stream\" to:TwitterDev"),
        ]
    );
}

#[test]
fn repeated_builds_are_identical() {
    let builder = test_builder();
    let first = builder.build_query();
    let second = builder.build_query();
    assert_eq!(first, second);
}

#[test]
fn post_and_get_sign_the_same_parameters() {
    let mut get_builder = test_builder();
    get_builder.method = RequestMethod::Get;
    let mut post_builder = test_builder();
    post_builder.method = RequestMethod::Post;

    assert_eq!(get_builder.build_query(), post_builder.build_query());

    let get_request = get_builder.build_request("nonce", 1234567890);
    let post_request = post_builder.build_request("nonce", 1234567890);

    // Only the placement differs: the POST body is byte-for-byte the query
    // string appended to the GET URI.
    assert!(post_request.body.len() > 0);
    let post_form = String::from_utf8(post_request.body.clone()).unwrap();
    let get_uri = get_request.uri;
    let question_mark = get_uri.find('?').unwrap();
    assert_eq!(&get_uri[..question_mark], post_request.uri.as_str());
    assert_eq!(&get_uri[question_mark + 1..], post_form.as_str());
}

#[test]
fn post_request_shape() {
    let mut builder = test_builder();
    builder.method = RequestMethod::Post;
    let request = builder.build_request("abcdef", 1500000000);
    assert_eq!(request.uri, "https://stream.twitter.com/1.1/statuses/filter.json");
    assert_eq!(request.accept_encoding, "chunked,gzip");
    assert_eq!(
        request.content_type.as_deref(),
        Some("application/x-www-form-urlencoded")
    );
    let form = String::from_utf8(request.body).unwrap();
    assert_eq!(
        form,
        "count=10&filter_level=low&follow=12&language=en&\
         locations=37.7748%2C-122.4146%2C37.7788%2C-122.4186&\
         stall_warnings=true&track=%22User%20Stream%22%20to%3ATwitterDev"
    );
}

#[test]
fn get_without_parameters_keeps_bare_uri() {
    let token = Token::new(
        "ck".to_string(),
        "cs".to_string(),
        "ak".to_string(),
        "as".to_string(),
    );
    let builder = TwitterStreamBuilder::sample(token);
    let request = builder.build_request("n", 1);
    assert_eq!(request.uri, "https://stream.twitter.com/1.1/statuses/sample.json");
    assert!(request.body.is_empty());
    assert!(request.content_type.is_none());
}

#[test]
fn authorization_header_is_signed_and_deterministic() {
    let mut builder = test_builder();
    builder.token = Token::new(
        "consumer_key".to_string(),
        "consumer_secret".to_string(),
        "access_key".to_string(),
        "access_secret".to_string(),
    );
    let one = builder.build_request("fixed_nonce", 1500000000);
    let two = builder.build_request("fixed_nonce", 1500000000);
    assert_eq!(one.authorization, two.authorization);
    assert!(one.authorization.starts_with("OAuth "));
    assert!(one.authorization.contains("oauth_signature="));
    assert!(one.authorization.contains("oauth_nonce=\"fixed_nonce\""));
    assert!(one.authorization.contains("oauth_timestamp=\"1500000000\""));
    assert!(one.authorization.contains("oauth_consumer_key=\"consumer_key\""));
    assert!(one.authorization.contains("oauth_token=\"access_key\""));

    let other_nonce = builder.build_request("other_nonce", 1500000000);
    assert_ne!(one.authorization, other_nonce.authorization);
}

#[test]
fn default_filter_level_is_none() {
    let level = FilterLevel::default();
    assert!(matches!(level, FilterLevel::NoFilter));
    assert_eq!(level.param_value(), "none");
}

#[test]
fn builder_defaults() {
    let token = Token::new(
        "a".to_string(),
        "b".to_string(),
        "c".to_string(),
        "d".to_string(),
    );
    let builder = TwitterStreamBuilder::filter(token);
    assert_eq!(builder.timeout_ms, Some(90_000));
    assert!(!builder.stall_warnings);
    assert!(builder.build_query().is_empty());
}

#[test]
fn custom_filter_level_spelling_compares_equal() {
    assert!(FilterLevel::Custom("low".to_string()) == FilterLevel::Low);
    assert!(FilterLevel::Medium == FilterLevel::Custom("medium".to_string()));
    assert!(FilterLevel::Low != FilterLevel::Medium);
    assert!(FilterLevel::Custom("x".to_string()) != FilterLevel::NoFilter);
}
