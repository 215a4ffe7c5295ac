use devhub_cache_api::date::timestamp_to_date_string;
use devhub_cache_api::feed::ApiClient;
use devhub_cache_api::responses::index;
use devhub_cache_api::search::separate_number_and_text;
use devhub_cache_api::text::{parse_i32, parse_i64};

#[test]
fn test_add_cursor_param() {
    let client = ApiClient::default();
    let base_params = "?per_page=50&order=asc&page=1".to_string();

    // Empty cursor with default after_block
    let result = client.add_cursor_param(base_params.clone(), "".to_string(), None);
    assert_eq!(result, "?per_page=50&order=asc&page=1&after_block=0");

    // Empty cursor with specific after_block
    let result = client.add_cursor_param(base_params.clone(), "".to_string(), Some(12345));
    assert_eq!(result, "?per_page=50&order=asc&page=1&after_block=12345");

    // Non-empty cursor (after_block is ignored)
    let result = client.add_cursor_param(base_params.clone(), "abc123".to_string(), Some(12345));
    assert_eq!(result, "?per_page=50&order=asc&page=1&cursor=abc123");
}

#[test]
fn test_build_pagination_params() {
    let client = ApiClient::default();

    let result = client.build_pagination_params(None, None, None);
    assert_eq!(result, "?per_page=25&order=asc&page=1");

    let result = client.build_pagination_params(Some(50), None, None);
    assert_eq!(result, "?per_page=50&order=asc&page=1");

    let result = client.build_pagination_params(None, Some("desc".to_string()), None);
    assert_eq!(result, "?per_page=25&order=desc&page=1");

    let result = client.build_pagination_params(None, None, Some(3));
    assert_eq!(result, "?per_page=25&order=asc&page=3");

    let result = client.build_pagination_params(Some(100), Some("desc".to_string()), Some(5));
    assert_eq!(result, "?per_page=100&order=desc&page=5");
}

#[test]
fn test_index() {
    assert_eq!(index(), "Welcome from fly.io!!!!!");
}

#[test]
fn test_timestamp_to_date_string() {
    assert_eq!(timestamp_to_date_string(1704067200000000000), "2024-01-01");
    assert_eq!(timestamp_to_date_string(0), "1970-01-01");
    assert_eq!(timestamp_to_date_string(-86400000000000), "1969-12-31");
}

#[test]
fn test_separate_number_and_text() {
    assert_eq!(separate_number_and_text("123 test"), (Some(123), "test".to_string()));
    assert_eq!(separate_number_and_text("test"), (None, "test".to_string()));
    assert_eq!(separate_number_and_text("123"), (Some(123), "".to_string()));
    assert_eq!(separate_number_and_text("test 123"), (Some(123), "test".to_string()));
}

#[test]
fn decimal_parsing_edges() {
    assert_eq!(parse_i64("+5"), Some(5));
    assert_eq!(parse_i64("-0"), Some(0));
    assert_eq!(parse_i64("9223372036854775807"), Some(i64::MAX));
    assert_eq!(parse_i64("9223372036854775808"), None);
    assert_eq!(parse_i64("-9223372036854775808"), Some(i64::MIN));
    assert_eq!(parse_i64("-9223372036854775809"), None);
    assert_eq!(parse_i64("123456789012345678901234567890"), None);
    assert_eq!(parse_i64(""), None);
    assert_eq!(parse_i64("+"), None);
    assert_eq!(parse_i64("1 2"), None);
    assert_eq!(parse_i64("-+1"), None);
    assert_eq!(parse_i32("2147483647"), Some(i32::MAX));
    assert_eq!(parse_i32("2147483648"), None);
    assert_eq!(parse_i32("-2147483648"), Some(i32::MIN));
    assert_eq!(parse_i32("٣"), None);
}
