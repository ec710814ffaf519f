use bybit::model::Category;
use bybit::position::{
    AddMarginRequest, AddReduceMarginRequest, ChangeMarginRequest, ClosedPnlRequest,
    LeverageRequest, MarginModeRequest, PositionManager, PositionRequest, SetRiskLimit,
    TradingStopRequest,
};

fn manager() -> PositionManager {
    PositionManager { recv_window: 5000 }
}

#[test]
fn position_info() {
    let req = PositionRequest {
        category: Category::Linear,
        symbol: Some("BTCUSDT".to_string()),
        base_coin: None,
        settle_coin: None,
        limit: None,
    };
    assert_eq!(manager().get_info(&req), "category=linear&symbol=BTCUSDT");
    let full = PositionRequest {
        category: Category::Inverse,
        symbol: Some("BTCUSD".to_string()),
        base_coin: Some("BTC".to_string()),
        settle_coin: Some("BTC".to_string()),
        limit: Some(10),
    };
    assert_eq!(
        manager().get_info(&full),
        "baseCoin=BTC&category=inverse&limit=10&settleCoin=BTC&symbol=BTCUSD"
    );
}

#[test]
fn set_leverage() {
    let req = LeverageRequest {
        category: Category::Linear,
        symbol: "BTCUSDT".to_string(),
        leverage: 10,
    };
    assert_eq!(
        manager().set_leverage(&req),
        r#"{"buyLeverage":"10","category":"linear","sellLeverage":"10","symbol":"BTCUSDT"}"#
    );
}

#[test]
fn test_set_margin_mode() {
    let req = ChangeMarginRequest {
        category: Category::Linear,
        symbol: "ETHUSDT".to_string(),
        trade_mode: 1,
    };
    assert_eq!(
        manager().set_margin_mode(&req),
        r#"{"category":"linear","symbol":"ETHUSDT","tradeMode":1}"#
    );
}

#[test]
fn test_set_position_mode() {
    let req = MarginModeRequest {
        category: Category::Linear,
        symbol: Some("MATICUSDT".to_string()),
        coin: None,
        mode: 3,
    };
    assert_eq!(
        manager().set_position_mode(&req),
        r#"{"category":"linear","mode":3,"symbol":"MATICUSDT"}"#
    );
}

#[test]
fn test_set_risk_limit() {
    let req = SetRiskLimit {
        category: Category::Linear,
        symbol: "MATICUSDT".to_string(),
        risk_id: 1000,
        position_idx: Some(0),
    };
    assert_eq!(
        manager().set_risk_limit(&req),
        r#"{"category":"linear","positionIdx":0,"riskId":1000,"symbol":"MATICUSDT"}"#
    );
}

#[test]
fn test_set_trading_stop() {
    let req = TradingStopRequest {
        category: Category::Linear,
        symbol: "BTCUSDT".to_string(),
        take_profit: Some("20000".to_string()),
        stop_loss: Some("15000".to_string()),
        tp_trigger_by: None,
        sl_trigger_by: None,
        tpsl_mode: Some("Full".to_string()),
        tp_order_type: None,
        sl_order_type: None,
        tp_size: None,
        sl_size: None,
        tp_limit_price: None,
        sl_limit_price: None,
        position_idx: 0,
    };
    assert_eq!(
        manager().set_trading_stop(&req),
        r#"{"category":"linear","positionIdx":0,"stopLoss":"15000","symbol":"BTCUSDT","takeProfit":"20000","tpslMode":"Full"}"#
    );
}

#[test]
fn test_set_add_margin() {
    let on = AddMarginRequest {
        category: Category::Linear,
        symbol: "BTCUSDT".to_string(),
        auto_add: true,
        position_idx: None,
    };
    assert_eq!(
        manager().set_add_margin(&on),
        r#"{"autoAddMargin":1,"category":"linear","symbol":"BTCUSDT"}"#
    );
    let off = AddMarginRequest { auto_add: false, ..on };
    assert_eq!(
        manager().set_add_margin(&off),
        r#"{"autoAddMargin":0,"category":"linear","symbol":"BTCUSDT"}"#
    );
}

#[test]
fn test_add_or_reduce_margin() {
    let req = AddReduceMarginRequest {
        category: Category::Linear,
        symbol: "BTCUSDT".to_string(),
        margin: "-10.5".to_string(),
        position_idx: Some(1),
    };
    assert_eq!(
        manager().add_or_reduce_margin(&req),
        r#"{"category":"linear","margin":"-10.5","positionIdx":1,"symbol":"BTCUSDT"}"#
    );
}

#[test]
fn test_get_closed_pnl() {
    let req = ClosedPnlRequest {
        category: Category::Linear,
        symbol: Some("BTCUSDT".to_string()),
        start_time: Some("010124".to_string()),
        end_time: Some("050224".to_string()),
        limit: Some(50),
    };
    // The start date wins the `end` key when both bounds are given.
    assert_eq!(
        manager().get_closed_pnl(&req),
        "category=linear&end=1704067200000&limit=50&symbol=BTCUSDT"
    );
    let only_end = ClosedPnlRequest {
        category: Category::Linear,
        symbol: None,
        start_time: None,
        end_time: Some("050224".to_string()),
        limit: None,
    };
    assert_eq!(manager().get_closed_pnl(&only_end), "category=linear&end=1707091200000");
}
