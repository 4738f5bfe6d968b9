use twitter_stream::encode::{encode_query, i32_dec_string, u64_dec_string};

#[test]
fn unsigned_decimal_rendering() {
    assert_eq!(u64_dec_string(0), "0");
    assert_eq!(u64_dec_string(7), "7");
    assert_eq!(u64_dec_string(90_000), "90000");
    assert_eq!(u64_dec_string(u64::MAX), "18446744073709551615");
}

#[test]
fn signed_decimal_rendering() {
    assert_eq!(i32_dec_string(0), "0");
    assert_eq!(i32_dec_string(10), "10");
    assert_eq!(i32_dec_string(-5), "-5");
    assert_eq!(i32_dec_string(i32::MIN), "-2147483648");
    assert_eq!(i32_dec_string(i32::MAX), "2147483647");
}

#[test]
fn percent_encoding_leaves_unreserved_bytes_bare() {
    let params = vec![("name".to_string(), "AZaz09-._~".to_string())];
    assert_eq!(encode_query(&params), b"name=AZaz09-._~".to_vec());
}

#[test]
fn percent_encoding_escapes_everything_else_uppercase() {
    let params = vec![("q".to_string(), "a b+c/d\u{e9}".to_string())];
    // Space, plus and slash are escaped; the non-ASCII character is escaped
    // byte by byte over its UTF-8 encoding.
    assert_eq!(encode_query(&params), b"q=a%20b%2Bc%2Fd%C3%A9".to_vec());
}

#[test]
fn pairs_join_with_ampersands_in_order() {
    let params = vec![
        ("a".to_string(), "1".to_string()),
        ("b".to_string(), "2".to_string()),
        ("c".to_string(), String::new()),
    ];
    assert_eq!(encode_query(&params), b"a=1&b=2&c=".to_vec());
    assert_eq!(encode_query(&Vec::new()), Vec::<u8>::new());
}
