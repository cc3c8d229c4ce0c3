use nats_core::commands::{HeaderDecodeError, HeaderMap, HeaderName, HeaderValue};
use nats_core::headers::parse_headers;

#[test]
fn parses_single_header() {
    let block = b"NATS/1.0\r\nFoodGroup: vegetable\r\n\r\n";
    let mut expected = HeaderMap::new();
    expected.insert(HeaderName("FoodGroup".into()), HeaderValue("vegetable".into()));
    assert_eq!(parse_headers(block, block.len()), Ok(expected));
}

#[test]
fn strips_one_space_each_side() {
    let block = b"NATS/1.0\r\nA:  padded \r\n\r\n";
    let mut expected = HeaderMap::new();
    // One leading and one trailing space are stripped; inner padding stays.
    expected.insert(HeaderName("A".into()), HeaderValue(" padded".into()));
    assert_eq!(parse_headers(block, block.len()), Ok(expected));
}

#[test]
fn first_colon_separates_name_from_value() {
    let block = b"NATS/1.0\r\nWhen: 12:30:00\r\n\r\n";
    let mut expected = HeaderMap::new();
    expected.insert(HeaderName("When".into()), HeaderValue("12:30:00".into()));
    assert_eq!(parse_headers(block, block.len()), Ok(expected));
}

#[test]
fn empty_value_is_kept() {
    let block = b"NATS/1.0\r\nFlag:\r\n\r\n";
    let mut expected = HeaderMap::new();
    expected.insert(HeaderName("Flag".into()), HeaderValue("".into()));
    assert_eq!(parse_headers(block, block.len()), Ok(expected));
}

#[test]
fn missing_version_leader_is_rejected() {
    let block = b"HTTP/1.1\r\nA: b\r\n\r\n";
    assert_eq!(
        parse_headers(block, block.len()),
        Err(HeaderDecodeError::MissingNatsVersion)
    );
}

#[test]
fn line_without_colon_is_rejected() {
    let block = b"NATS/1.0\r\nnocolonhere\r\n\r\n";
    assert_eq!(parse_headers(block, block.len()), Err(HeaderDecodeError::NoColon));
}

#[test]
fn length_mismatch_is_rejected() {
    let block = b"NATS/1.0\r\nA: b\r\n\r\n";
    assert_eq!(
        parse_headers(block, block.len() + 2),
        Err(HeaderDecodeError::BadLength)
    );
}

#[test]
fn too_short_block_is_rejected() {
    assert_eq!(parse_headers(b"x", 1), Err(HeaderDecodeError::BadLength));
}

#[test]
fn duplicate_names_collect_in_order() {
    let block = b"NATS/1.0\r\nK: a\r\nK: b\r\n\r\n";
    let mut expected = HeaderMap::new();
    expected.insert(HeaderName("K".into()), HeaderValue("a".into()));
    expected.insert(HeaderName("K".into()), HeaderValue("b".into()));
    assert_eq!(parse_headers(block, block.len()), Ok(expected));
}
