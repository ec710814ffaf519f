use bybit::asset::{AccountType, AssetManager, QuotaAccountType};

fn manager() -> AssetManager {
    AssetManager { recv_window: 5000 }
}

#[test]
fn test_query_all_coins() {
    let r = manager().query_all_coins(AccountType::Unified, &None);
    assert_eq!(r, "accountType=UNIFIED");
    let coins = Some(vec!["ETH".to_string(), "USDT".to_string()]);
    let r2 = manager().query_all_coins(AccountType::Unified, &coins);
    assert_eq!(r2, "accountType=UNIFIED&coins=ETH%2CUSDT");
}

#[test]
fn test_quota() {
    let r = manager().apply_for_quota(
        "ETH",
        "USDT",
        "ETH",
        "0.1".to_string(),
        QuotaAccountType::Funding,
    );
    assert_eq!(
        r,
        r#"{"fromCoin":"ETH","toCoin":"USDT","requestCoin":"ETH","requestAmount":"0.1","accountType":"eb_convert_funding"}"#
    );
}
