use bybit::bytes_eq;
use bybit::bytes_lt;
use bybit::util::{
    build_json_request, build_request, date_to_milliseconds, generate_random_uid, get_timestamp,
    u64_to_string, ParamValue,
};

#[test]
fn test_build_request() {
    let params = vec![
        ("category".to_string(), "linear".to_string()),
        ("symbol".to_string(), "BTCUSDT".to_string()),
    ];
    assert_eq!(build_request(&params), "category=linear&symbol=BTCUSDT");
}

#[test]
fn test_build_request_urlencodes() {
    let params = vec![("note".to_string(), "a b&c/d".to_string())];
    assert_eq!(build_request(&params), "note=a+b%26c%2Fd");
    let empty: Vec<(String, String)> = Vec::new();
    assert_eq!(build_request(&empty), "");
}

#[test]
fn test_build_json_request() {
    let params = vec![
        ("buyLeverage".to_string(), ParamValue::Text("10".to_string())),
        ("category".to_string(), ParamValue::Text("linear".to_string())),
        ("riskId".to_string(), ParamValue::Int(-3)),
        ("autoAdd".to_string(), ParamValue::Flag(true)),
        ("qty".to_string(), ParamValue::UInt(7)),
    ];
    assert_eq!(
        build_json_request(&params),
        r#"{"buyLeverage":"10","category":"linear","riskId":-3,"autoAdd":true,"qty":7}"#
    );
}

#[test]
fn test_date_to_milliseconds() {
    // 2024-01-01T00:00:00Z
    assert_eq!(date_to_milliseconds("010124"), 1704067200000);
    // 2024-02-05T00:00:00Z
    assert_eq!(date_to_milliseconds("050224"), 1707091200000);
    // 2000-01-01T00:00:00Z
    assert_eq!(date_to_milliseconds("010100"), 946684800000);
    // 2024-02-29 exists: leap year.
    assert_eq!(date_to_milliseconds("290224"), 1709164800000);
}

#[test]
fn test_generate_random_uid() {
    let uid = generate_random_uid(16);
    assert_eq!(uid.len(), 16);
    assert!(uid.chars().all(|c| c.is_ascii_alphanumeric()));
    assert_eq!(generate_random_uid(0).len(), 0);
}

#[test]
fn test_get_timestamp() {
    // 2020-01-01 in milliseconds; any sane clock is later.
    assert!(get_timestamp() > 1577836800000);
}

#[test]
fn test_u64_to_string() {
    assert_eq!(u64_to_string(0), "0");
    assert_eq!(u64_to_string(1234567890123), "1234567890123");
}

#[test]
fn test_byte_order_helpers() {
    assert!(bytes_lt(b"abc", b"abd"));
    assert!(bytes_lt(b"ab", b"abc"));
    assert!(!bytes_lt(b"abc", b"abc"));
    assert!(!bytes_lt(b"b", b"aaa"));
    assert!(bytes_eq(b"same", b"same"));
    assert!(!bytes_eq(b"same", b"Same"));
}
