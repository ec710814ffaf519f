//! The position manager: builds the exact request payloads of the position
//! REST endpoints. Sending them and decoding the responses is transport work
//! that lives outside this crate; every payload built here is pinned down
//! byte for byte.
//!
//! Query and body parameters are rendered in lexicographic key order, the
//! order an ordered map's iteration would give, which the exchange's request
//! signing relies on.

use vstd::prelude::*;
use vstd::string::StringSliceAdditionalSpecFns;
use vstd::utf8::encode_utf8;

use crate::model::Category;
use crate::util::spec_ddmmyy_millis;
use crate::util::{ascii_chars_of, build_json_request, build_request, i64_to_string, jparam_bytes,
    lemma_json_request_bytes, param_bytes, params_ascii, push_jparam, push_param, spec_dec_i64,
    spec_json_obj_bytes, spec_query, u64_to_string, ParamValue};
use crate::codec::{spec_dec_u64, spec_quoted};

verus! {

/// The wire name bytes of a category.
pub open spec fn cat_bytes(c: Category) -> Seq<u8> {
    match c {
        Category::Spot => encode_utf8("spot"@),
        Category::Linear => encode_utf8("linear"@),
        Category::Inverse => encode_utf8("inverse"@),
        Category::Options => encode_utf8("option"@),
    }
}

/// The wire name of a category as an owned string.
pub fn category_string(c: Category) -> (r: String)
    ensures
        encode_utf8(r@) == cat_bytes(c),
        vstd::utf8::is_ascii_chars(r@),
{
    proof {
        reveal_strlit("spot");
        reveal_strlit("linear");
        reveal_strlit("inverse");
        reveal_strlit("option");
    }
    let s = c.as_str();
    <String as vstd::string::StringExecFns>::from_str(s)
}

/// An optional string-valued query parameter.
pub open spec fn opt_sparam(key: Seq<char>, v: Option<String>) -> Seq<(Seq<u8>, Seq<u8>)> {
    match v {
        Some(s) => seq![(encode_utf8(key), encode_utf8(s@))],
        None => Seq::<(Seq<u8>, Seq<u8>)>::empty(),
    }
}

/// An optional unsigned-valued query parameter, rendered in decimal.
pub open spec fn opt_uparam(key: Seq<char>, v: Option<u64>) -> Seq<(Seq<u8>, Seq<u8>)> {
    match v {
        Some(n) => seq![(encode_utf8(key), spec_dec_u64(n as nat))],
        None => Seq::<(Seq<u8>, Seq<u8>)>::empty(),
    }
}

/// An optional quoted string member of a JSON body.
pub open spec fn opt_jtext(key: Seq<char>, v: Option<String>) -> Seq<(Seq<u8>, Seq<u8>)> {
    match v {
        Some(s) => seq![(encode_utf8(key), spec_quoted(encode_utf8(s@)))],
        None => Seq::<(Seq<u8>, Seq<u8>)>::empty(),
    }
}

/// An optional bare integer member of a JSON body.
pub open spec fn opt_jint(key: Seq<char>, v: Option<i64>) -> Seq<(Seq<u8>, Seq<u8>)> {
    match v {
        Some(n) => seq![(encode_utf8(key), spec_dec_i64(n))],
        None => Seq::<(Seq<u8>, Seq<u8>)>::empty(),
    }
}

/// An ASCII option.
pub open spec fn opt_ascii(v: Option<String>) -> bool {
    match v {
        Some(s) => vstd::utf8::is_ascii_chars(s@),
        None => true,
    }
}

/// Selects positions to query.
#[derive(Clone, Debug)]
pub struct PositionRequest {
    pub category: Category,
    pub symbol: Option<String>,
    pub base_coin: Option<String>,
    pub settle_coin: Option<String>,
    pub limit: Option<u64>,
}

/// Sets one symbol's buy and sell leverage.
#[derive(Clone, Debug)]
pub struct LeverageRequest {
    pub category: Category,
    pub symbol: String,
    pub leverage: i64,
}

/// Switches a symbol between cross and isolated margin.
#[derive(Clone, Debug)]
pub struct ChangeMarginRequest {
    pub category: Category,
    pub symbol: String,
    pub trade_mode: i64,
}

/// Switches the position mode for a symbol or a coin.
#[derive(Clone, Debug)]
pub struct MarginModeRequest {
    pub category: Category,
    pub symbol: Option<String>,
    pub coin: Option<String>,
    pub mode: i64,
}

/// Sets a symbol's risk limit.
#[derive(Clone, Debug)]
pub struct SetRiskLimit {
    pub category: Category,
    pub symbol: String,
    pub risk_id: i64,
    pub position_idx: Option<i64>,
}

/// Sets take-profit, stop-loss and trailing parameters of a position.
#[derive(Clone, Debug)]
pub struct TradingStopRequest {
    pub category: Category,
    pub symbol: String,
    pub take_profit: Option<String>,
    pub stop_loss: Option<String>,
    pub tp_trigger_by: Option<String>,
    pub sl_trigger_by: Option<String>,
    pub tpsl_mode: Option<String>,
    pub tp_order_type: Option<String>,
    pub sl_order_type: Option<String>,
    pub tp_size: Option<String>,
    pub sl_size: Option<String>,
    pub tp_limit_price: Option<String>,
    pub sl_limit_price: Option<String>,
    pub position_idx: i64,
}

/// Turns automatic margin addition on or off.
#[derive(Clone, Debug)]
pub struct AddMarginRequest {
    pub category: Category,
    pub symbol: String,
    pub auto_add: bool,
    pub position_idx: Option<i64>,
}

/// Adds or reduces a position's margin by a signed decimal amount.
#[derive(Clone, Debug)]
pub struct AddReduceMarginRequest {
    pub category: Category,
    pub symbol: String,
    pub margin: String,
    pub position_idx: Option<i64>,
}

/// Selects closed profit-and-loss records, with `DDMMYY` date bounds.
#[derive(Clone, Debug)]
pub struct ClosedPnlRequest {
    pub category: Category,
    pub symbol: Option<String>,
    pub start_time: Option<String>,
    pub end_time: Option<String>,
    pub limit: Option<u64>,
}

/// Builds the position endpoints' request payloads.
#[derive(Clone, Debug)]
pub struct PositionManager {
    pub recv_window: u64,
}


/// The JSON body parameters of a leverage change, in key order.
pub open spec fn spec_leverage_params(req: &LeverageRequest) -> Seq<(Seq<u8>, Seq<u8>)> {
    seq![(encode_utf8("buyLeverage"@), spec_quoted(spec_dec_i64(req.leverage)))] + seq![(
        encode_utf8("category"@),
        spec_quoted(cat_bytes(req.category)),
    )] + seq![(encode_utf8("sellLeverage"@), spec_quoted(spec_dec_i64(req.leverage)))] + seq![(
        encode_utf8("symbol"@),
        spec_quoted(encode_utf8(req.symbol@)),
    )]
}

/// The JSON body parameters of a margin mode change, in key order.
pub open spec fn spec_margin_mode_params(req: &ChangeMarginRequest) -> Seq<(Seq<u8>, Seq<u8>)> {
    seq![(encode_utf8("category"@), spec_quoted(cat_bytes(req.category)))] + seq![(
        encode_utf8("symbol"@),
        spec_quoted(encode_utf8(req.symbol@)),
    )] + seq![(encode_utf8("tradeMode"@), spec_dec_i64(req.trade_mode))]
}

/// The JSON body parameters of a position mode change, in key order.
pub open spec fn spec_position_mode_params(req: &MarginModeRequest) -> Seq<(Seq<u8>, Seq<u8>)> {
    seq![(encode_utf8("category"@), spec_quoted(cat_bytes(req.category)))] + opt_jtext(
        "coin"@,
        req.coin,
    ) + seq![(encode_utf8("mode"@), spec_dec_i64(req.mode))] + opt_jtext("symbol"@, req.symbol)
}

/// The JSON body parameters of a risk limit change, in key order.
pub open spec fn spec_risk_limit_params(req: &SetRiskLimit) -> Seq<(Seq<u8>, Seq<u8>)> {
    seq![(encode_utf8("category"@), spec_quoted(cat_bytes(req.category)))] + opt_jint(
        "positionIdx"@,
        req.position_idx,
    ) + seq![(encode_utf8("riskId"@), spec_dec_i64(req.risk_id))] + seq![(
        encode_utf8("symbol"@),
        spec_quoted(encode_utf8(req.symbol@)),
    )]
}

/// The JSON body parameters of a trading stop change, in key order.
pub open spec fn spec_trading_stop_params(req: &TradingStopRequest) -> Seq<(Seq<u8>, Seq<u8>)> {
    spec_ts_params_a(req) + spec_ts_params_b(req) + spec_ts_params_c(req)
}


/// The first third of the trading stop parameters, in key order.
pub open spec fn spec_ts_params_a(req: &TradingStopRequest) -> Seq<(Seq<u8>, Seq<u8>)> {
    seq![(encode_utf8("category"@), spec_quoted(cat_bytes(req.category)))] + seq![(
        encode_utf8("positionIdx"@),
        spec_dec_i64(req.position_idx),
    )] + opt_jtext("slLimitPrice"@, req.sl_limit_price) + opt_jtext(
        "slOrderType"@,
        req.sl_order_type,
    ) + opt_jtext("slSize"@, req.sl_size)
}

/// The second third of the trading stop parameters, in key order.
pub open spec fn spec_ts_params_b(req: &TradingStopRequest) -> Seq<(Seq<u8>, Seq<u8>)> {
    opt_jtext("slTriggerBy"@, req.sl_trigger_by) + opt_jtext("stopLoss"@, req.stop_loss) + seq![(
        encode_utf8("symbol"@),
        spec_quoted(encode_utf8(req.symbol@)),
    )] + opt_jtext("takeProfit"@, req.take_profit) + opt_jtext(
        "tpLimitPrice"@,
        req.tp_limit_price,
    )
}

/// The last third of the trading stop parameters, in key order.
pub open spec fn spec_ts_params_c(req: &TradingStopRequest) -> Seq<(Seq<u8>, Seq<u8>)> {
    opt_jtext("tpOrderType"@, req.tp_order_type) + opt_jtext("tpSize"@, req.tp_size) + opt_jtext(
        "tpTriggerBy"@,
        req.tp_trigger_by,
    ) + opt_jtext("tpslMode"@, req.tpsl_mode)
}

fn push_opt_jtext(params: &mut Vec<(String, ParamValue)>, key: &str, v: &Option<String>)
    requires
        vstd::utf8::is_ascii_chars(key@),
        (match v {
            Some(s) => vstd::utf8::is_ascii_chars(s@),
            None => true,
        }),
    ensures
        jparam_bytes(final(params)@) == jparam_bytes(old(params)@) + opt_jtext(key@, *v),
        params_ascii(old(params)@) ==> params_ascii(final(params)@),
{
    match v {
        Some(s) => {
            push_jparam(params, key, ParamValue::Text(s.clone()));
            proof {
                assert(jparam_bytes(params@) =~= jparam_bytes(old(params)@) + opt_jtext(
                    key@,
                    *v,
                ));
            }
        },
        None => {
            proof {
                assert(jparam_bytes(params@) =~= jparam_bytes(old(params)@) + opt_jtext(
                    key@,
                    *v,
                ));
            }
        },
    }
}

fn trading_stop_params_a(params: &mut Vec<(String, ParamValue)>, req: &TradingStopRequest)
    requires
        params_ascii(old(params)@),
        opt_ascii(req.sl_limit_price),
        opt_ascii(req.sl_order_type),
        opt_ascii(req.sl_size),
    ensures
        jparam_bytes(final(params)@) == jparam_bytes(old(params)@) + spec_ts_params_a(req),
        params_ascii(final(params)@),
{
    proof {
        reveal_strlit("category");
        reveal_strlit("positionIdx");
        reveal_strlit("slLimitPrice");
        reveal_strlit("slOrderType");
        reveal_strlit("slSize");
    }
    let ghost base = jparam_bytes(params@);
    push_jparam(params, "category", ParamValue::Text(category_string(req.category)));
    proof {
        assert(jparam_bytes(params@) =~= base + seq![(
            encode_utf8("category"@),
            spec_quoted(cat_bytes(req.category)),
        )]);
    }
    push_jparam(params, "positionIdx", ParamValue::Int(req.position_idx));
    proof {
        assert(jparam_bytes(params@) =~= base + (seq![(
            encode_utf8("category"@),
            spec_quoted(cat_bytes(req.category)),
        )] + seq![(encode_utf8("positionIdx"@), spec_dec_i64(req.position_idx))]));
    }
    push_opt_jtext(params, "slLimitPrice", &req.sl_limit_price);
    push_opt_jtext(params, "slOrderType", &req.sl_order_type);
    push_opt_jtext(params, "slSize", &req.sl_size);
    proof {
        assert(jparam_bytes(params@) =~= base + spec_ts_params_a(req));
    }
}

fn trading_stop_params_b(params: &mut Vec<(String, ParamValue)>, req: &TradingStopRequest)
    requires
        params_ascii(old(params)@),
        vstd::utf8::is_ascii_chars(req.symbol@),
        opt_ascii(req.sl_trigger_by),
        opt_ascii(req.stop_loss),
        opt_ascii(req.take_profit),
        opt_ascii(req.tp_limit_price),
    ensures
        jparam_bytes(final(params)@) == jparam_bytes(old(params)@) + spec_ts_params_b(req),
        params_ascii(final(params)@),
{
    proof {
        reveal_strlit("slTriggerBy");
        reveal_strlit("stopLoss");
        reveal_strlit("symbol");
        reveal_strlit("takeProfit");
        reveal_strlit("tpLimitPrice");
    }
    let ghost base = jparam_bytes(params@);
    push_opt_jtext(params, "slTriggerBy", &req.sl_trigger_by);
    push_opt_jtext(params, "stopLoss", &req.stop_loss);
    push_jparam(params, "symbol", ParamValue::Text(req.symbol.clone()));
    proof {
        assert(jparam_bytes(params@) =~= base + (opt_jtext("slTriggerBy"@, req.sl_trigger_by)
            + opt_jtext("stopLoss"@, req.stop_loss) + seq![(
            encode_utf8("symbol"@),
            spec_quoted(encode_utf8(req.symbol@)),
        )]));
    }
    push_opt_jtext(params, "takeProfit", &req.take_profit);
    push_opt_jtext(params, "tpLimitPrice", &req.tp_limit_price);
    proof {
        assert(jparam_bytes(params@) =~= base + spec_ts_params_b(req));
    }
}

fn trading_stop_params_c(params: &mut Vec<(String, ParamValue)>, req: &TradingStopRequest)
    requires
        params_ascii(old(params)@),
        opt_ascii(req.tp_order_type),
        opt_ascii(req.tp_size),
        opt_ascii(req.tp_trigger_by),
        opt_ascii(req.tpsl_mode),
    ensures
        jparam_bytes(final(params)@) == jparam_bytes(old(params)@) + spec_ts_params_c(req),
        params_ascii(final(params)@),
{
    proof {
        reveal_strlit("tpOrderType");
        reveal_strlit("tpSize");
        reveal_strlit("tpTriggerBy");
        reveal_strlit("tpslMode");
    }
    let ghost base = jparam_bytes(params@);
    push_opt_jtext(params, "tpOrderType", &req.tp_order_type);
    push_opt_jtext(params, "tpSize", &req.tp_size);
    push_opt_jtext(params, "tpTriggerBy", &req.tp_trigger_by);
    push_opt_jtext(params, "tpslMode", &req.tpsl_mode);
    proof {
        assert(jparam_bytes(params@) =~= base + spec_ts_params_c(req));
    }
}

/// The JSON body parameters of an auto-add-margin change, in key order.
pub open spec fn spec_add_margin_params(req: &AddMarginRequest) -> Seq<(Seq<u8>, Seq<u8>)> {
    seq![(encode_utf8("autoAddMargin"@), spec_dec_i64(
        if req.auto_add {
            1i64
        } else {
            0i64
        },
    ))] + seq![(encode_utf8("category"@), spec_quoted(cat_bytes(req.category)))] + opt_jint(
        "positionIdx"@,
        req.position_idx,
    ) + seq![(encode_utf8("symbol"@), spec_quoted(encode_utf8(req.symbol@)))]
}

/// The JSON body parameters of a margin adjustment, in key order.
pub open spec fn spec_add_reduce_margin_params(req: &AddReduceMarginRequest) -> Seq<
    (Seq<u8>, Seq<u8>),
> {
    seq![(encode_utf8("category"@), spec_quoted(cat_bytes(req.category)))] + seq![(
        encode_utf8("margin"@),
        spec_quoted(encode_utf8(req.margin@)),
    )] + opt_jint("positionIdx"@, req.position_idx) + seq![(
        encode_utf8("symbol"@),
        spec_quoted(encode_utf8(req.symbol@)),
    )]
}

/// The `end` date bound of a closed profit-and-loss request: it comes from
/// the start date when one is given, else from the end date.
pub open spec fn spec_end_param(req: &ClosedPnlRequest) -> Seq<(Seq<u8>, Seq<u8>)> {
    match req.start_time {
        Some(s) => seq![(encode_utf8("end"@), spec_dec_u64(spec_ddmmyy_millis(s@) as nat))],
        None => match req.end_time {
            Some(e) => seq![(encode_utf8("end"@), spec_dec_u64(spec_ddmmyy_millis(e@) as nat))],
            None => Seq::<(Seq<u8>, Seq<u8>)>::empty(),
        },
    }
}

/// The query parameters of a closed profit-and-loss request, in key order.
pub open spec fn spec_closed_pnl_params(req: &ClosedPnlRequest) -> Seq<(Seq<u8>, Seq<u8>)> {
    seq![(encode_utf8("category"@), cat_bytes(req.category))] + spec_end_param(req)
        + opt_uparam("limit"@, req.limit) + opt_sparam("symbol"@, req.symbol)
}

/// The query parameters of a position information request, in key order.
pub open spec fn spec_position_info_params(req: &PositionRequest) -> Seq<(Seq<u8>, Seq<u8>)> {
    opt_sparam("baseCoin"@, req.base_coin) + seq![(encode_utf8("category"@), cat_bytes(
        req.category,
    ))] + opt_uparam("limit"@, req.limit) + opt_sparam("settleCoin"@, req.settle_coin)
        + opt_sparam("symbol"@, req.symbol)
}

impl PositionManager {
    /// The query string asking for position information.
    pub fn get_info(&self, req: &PositionRequest) -> (r: String)
        ensures
            r@ == ascii_chars_of(spec_query(spec_position_info_params(req))),
    {
        let ghost f1 = opt_sparam("baseCoin"@, req.base_coin);
        let ghost f2 = f1 + seq![(encode_utf8("category"@), cat_bytes(req.category))];
        let ghost f3 = f2 + opt_uparam("limit"@, req.limit);
        let ghost f4 = f3 + opt_sparam("settleCoin"@, req.settle_coin);
        let ghost f5 = f4 + opt_sparam("symbol"@, req.symbol);
        let mut params: Vec<(String, String)> = Vec::new();
        proof {
            assert(param_bytes(params@) =~= Seq::<(Seq<u8>, Seq<u8>)>::empty());
        }
        match &req.base_coin {
            Some(s) => {
                push_param(&mut params, "baseCoin", s.clone());
                proof {
                    assert(param_bytes(params@) =~= f1);
                }
            },
            None => {
                proof {
                    assert(param_bytes(params@) =~= f1);
                }
            },
        }
        push_param(&mut params, "category", category_string(req.category));
        proof {
            assert(param_bytes(params@) =~= f2);
        }
        match req.limit {
            Some(n) => {
                push_param(&mut params, "limit", u64_to_string(n));
                proof {
                    assert(param_bytes(params@) =~= f3);
                }
            },
            None => {
                proof {
                    assert(param_bytes(params@) =~= f3);
                }
            },
        }
        match &req.settle_coin {
            Some(s) => {
                push_param(&mut params, "settleCoin", s.clone());
                proof {
                    assert(param_bytes(params@) =~= f4);
                }
            },
            None => {
                proof {
                    assert(param_bytes(params@) =~= f4);
                }
            },
        }
        match &req.symbol {
            Some(s) => {
                push_param(&mut params, "symbol", s.clone());
                proof {
                    assert(param_bytes(params@) =~= f5);
                }
            },
            None => {
                proof {
                    assert(param_bytes(params@) =~= f5);
                }
            },
        }
        proof {
            assert(f5 =~= spec_position_info_params(req));
        }
        build_request(&params)
    }

    /// The JSON body setting a symbol's leverage.
    pub fn set_leverage(&self, req: &LeverageRequest) -> (r: String)
        requires
            vstd::utf8::is_ascii_chars(req.symbol@),
        ensures
            r@ == ascii_chars_of(spec_json_obj_bytes(spec_leverage_params(req))),
    {
        proof {
            reveal_strlit("buyLeverage");
            reveal_strlit("category");
            reveal_strlit("sellLeverage");
            reveal_strlit("symbol");
        }
        let ghost f1 = seq![(encode_utf8("buyLeverage"@), spec_quoted(spec_dec_i64(req.leverage)))];
        let ghost f2 = f1 + seq![(encode_utf8("category"@), spec_quoted(cat_bytes(req.category)))];
        let ghost f3 = f2 + seq![(
            encode_utf8("sellLeverage"@),
            spec_quoted(spec_dec_i64(req.leverage)),
        )];
        let ghost f4 = f3 + seq![(encode_utf8("symbol"@), spec_quoted(encode_utf8(req.symbol@)))];
        let mut params: Vec<(String, ParamValue)> = Vec::new();
        proof {
            assert(jparam_bytes(params@) =~= Seq::<(Seq<u8>, Seq<u8>)>::empty());
        }
        push_jparam(&mut params, "buyLeverage", ParamValue::Text(i64_to_string(req.leverage)));
        proof {
            assert(jparam_bytes(params@) =~= f1);
        }
        push_jparam(&mut params, "category", ParamValue::Text(category_string(req.category)));
        proof {
            assert(jparam_bytes(params@) =~= f2);
        }
        push_jparam(&mut params, "sellLeverage", ParamValue::Text(i64_to_string(req.leverage)));
        proof {
            assert(jparam_bytes(params@) =~= f3);
        }
        push_jparam(&mut params, "symbol", ParamValue::Text(req.symbol.clone()));
        proof {
            assert(jparam_bytes(params@) =~= f4);
            assert(f4 =~= spec_leverage_params(req));
            lemma_json_request_bytes(params@);
        }
        build_json_request(&params)
    }

    /// The JSON body switching a symbol between cross and isolated margin.
    pub fn set_margin_mode(&self, req: &ChangeMarginRequest) -> (r: String)
        requires
            vstd::utf8::is_ascii_chars(req.symbol@),
        ensures
            r@ == ascii_chars_of(spec_json_obj_bytes(spec_margin_mode_params(req))),
    {
        proof {
            reveal_strlit("category");
            reveal_strlit("symbol");
            reveal_strlit("tradeMode");
        }
        let ghost f1 = seq![(encode_utf8("category"@), spec_quoted(cat_bytes(req.category)))];
        let ghost f2 = f1 + seq![(encode_utf8("symbol"@), spec_quoted(encode_utf8(req.symbol@)))];
        let ghost f3 = f2 + seq![(encode_utf8("tradeMode"@), spec_dec_i64(req.trade_mode))];
        let mut params: Vec<(String, ParamValue)> = Vec::new();
        proof {
            assert(jparam_bytes(params@) =~= Seq::<(Seq<u8>, Seq<u8>)>::empty());
        }
        push_jparam(&mut params, "category", ParamValue::Text(category_string(req.category)));
        proof {
            assert(jparam_bytes(params@) =~= f1);
        }
        push_jparam(&mut params, "symbol", ParamValue::Text(req.symbol.clone()));
        proof {
            assert(jparam_bytes(params@) =~= f2);
        }
        push_jparam(&mut params, "tradeMode", ParamValue::Int(req.trade_mode));
        proof {
            assert(jparam_bytes(params@) =~= f3);
            assert(f3 =~= spec_margin_mode_params(req));
            lemma_json_request_bytes(params@);
        }
        build_json_request(&params)
    }

    /// The JSON body switching the position mode.
    pub fn set_position_mode(&self, req: &MarginModeRequest) -> (r: String)
        requires
            opt_ascii(req.symbol),
            opt_ascii(req.coin),
        ensures
            r@ == ascii_chars_of(spec_json_obj_bytes(spec_position_mode_params(req))),
    {
        proof {
            reveal_strlit("category");
            reveal_strlit("coin");
            reveal_strlit("mode");
            reveal_strlit("symbol");
        }
        let ghost f1 = seq![(encode_utf8("category"@), spec_quoted(cat_bytes(req.category)))];
        let ghost f2 = f1 + opt_jtext("coin"@, req.coin);
        let ghost f3 = f2 + seq![(encode_utf8("mode"@), spec_dec_i64(req.mode))];
        let ghost f4 = f3 + opt_jtext("symbol"@, req.symbol);
        let mut params: Vec<(String, ParamValue)> = Vec::new();
        proof {
            assert(jparam_bytes(params@) =~= Seq::<(Seq<u8>, Seq<u8>)>::empty());
        }
        push_jparam(&mut params, "category", ParamValue::Text(category_string(req.category)));
        proof {
            assert(jparam_bytes(params@) =~= f1);
        }
        match &req.coin {
            Some(s) => {
                push_jparam(&mut params, "coin", ParamValue::Text(s.clone()));
                proof {
                    assert(jparam_bytes(params@) =~= f2);
                }
            },
            None => {
                proof {
                    assert(jparam_bytes(params@) =~= f2);
                }
            },
        }
        push_jparam(&mut params, "mode", ParamValue::Int(req.mode));
        proof {
            assert(jparam_bytes(params@) =~= f3);
        }
        match &req.symbol {
            Some(s) => {
                push_jparam(&mut params, "symbol", ParamValue::Text(s.clone()));
                proof {
                    assert(jparam_bytes(params@) =~= f4);
                }
            },
            None => {
                proof {
                    assert(jparam_bytes(params@) =~= f4);
                }
            },
        }
        proof {
            assert(f4 =~= spec_position_mode_params(req));
            lemma_json_request_bytes(params@);
        }
        build_json_request(&params)
    }

    /// The JSON body setting a symbol's risk limit.
    pub fn set_risk_limit(&self, req: &SetRiskLimit) -> (r: String)
        requires
            vstd::utf8::is_ascii_chars(req.symbol@),
        ensures
            r@ == ascii_chars_of(spec_json_obj_bytes(spec_risk_limit_params(req))),
    {
        proof {
            reveal_strlit("category");
            reveal_strlit("positionIdx");
            reveal_strlit("riskId");
            reveal_strlit("symbol");
        }
        let ghost f1 = seq![(encode_utf8("category"@), spec_quoted(cat_bytes(req.category)))];
        let ghost f2 = f1 + opt_jint("positionIdx"@, req.position_idx);
        let ghost f3 = f2 + seq![(encode_utf8("riskId"@), spec_dec_i64(req.risk_id))];
        let ghost f4 = f3 + seq![(encode_utf8("symbol"@), spec_quoted(encode_utf8(req.symbol@)))];
        let mut params: Vec<(String, ParamValue)> = Vec::new();
        proof {
            assert(jparam_bytes(params@) =~= Seq::<(Seq<u8>, Seq<u8>)>::empty());
        }
        push_jparam(&mut params, "category", ParamValue::Text(category_string(req.category)));
        proof {
            assert(jparam_bytes(params@) =~= f1);
        }
        match req.position_idx {
            Some(n) => {
                push_jparam(&mut params, "positionIdx", ParamValue::Int(n));
                proof {
                    assert(jparam_bytes(params@) =~= f2);
                }
            },
            None => {
                proof {
                    assert(jparam_bytes(params@) =~= f2);
                }
            },
        }
        push_jparam(&mut params, "riskId", ParamValue::Int(req.risk_id));
        proof {
            assert(jparam_bytes(params@) =~= f3);
        }
        push_jparam(&mut params, "symbol", ParamValue::Text(req.symbol.clone()));
        proof {
            assert(jparam_bytes(params@) =~= f4);
            assert(f4 =~= spec_risk_limit_params(req));
            lemma_json_request_bytes(params@);
        }
        build_json_request(&params)
    }

    /// The JSON body setting take-profit, stop-loss and trailing parameters.
    pub fn set_trading_stop(&self, req: &TradingStopRequest) -> (r: String)
        requires
            vstd::utf8::is_ascii_chars(req.symbol@),
            opt_ascii(req.take_profit),
            opt_ascii(req.stop_loss),
            opt_ascii(req.tp_trigger_by),
            opt_ascii(req.sl_trigger_by),
            opt_ascii(req.tpsl_mode),
            opt_ascii(req.tp_order_type),
            opt_ascii(req.sl_order_type),
            opt_ascii(req.tp_size),
            opt_ascii(req.sl_size),
            opt_ascii(req.tp_limit_price),
            opt_ascii(req.sl_limit_price),
        ensures
            r@ == ascii_chars_of(spec_json_obj_bytes(spec_trading_stop_params(req))),
    {
        let mut params: Vec<(String, ParamValue)> = Vec::new();
        proof {
            assert(jparam_bytes(params@) =~= Seq::<(Seq<u8>, Seq<u8>)>::empty());
        }
        trading_stop_params_a(&mut params, req);
        trading_stop_params_b(&mut params, req);
        trading_stop_params_c(&mut params, req);
        proof {
            assert(jparam_bytes(params@) =~= spec_trading_stop_params(req));
            lemma_json_request_bytes(params@);
        }
        build_json_request(&params)
    }

    /// The JSON body turning automatic margin addition on or off: the flag is
    /// sent as the number one or zero.
    pub fn set_add_margin(&self, req: &AddMarginRequest) -> (r: String)
        requires
            vstd::utf8::is_ascii_chars(req.symbol@),
        ensures
            r@ == ascii_chars_of(spec_json_obj_bytes(spec_add_margin_params(req))),
    {
        proof {
            reveal_strlit("autoAddMargin");
            reveal_strlit("category");
            reveal_strlit("positionIdx");
            reveal_strlit("symbol");
        }
        let ghost f1 = seq![(encode_utf8("autoAddMargin"@), spec_dec_i64(
            if req.auto_add {
                1i64
            } else {
                0i64
            },
        ))];
        let ghost f2 = f1 + seq![(encode_utf8("category"@), spec_quoted(cat_bytes(req.category)))];
        let ghost f3 = f2 + opt_jint("positionIdx"@, req.position_idx);
        let ghost f4 = f3 + seq![(encode_utf8("symbol"@), spec_quoted(encode_utf8(req.symbol@)))];
        let mut params: Vec<(String, ParamValue)> = Vec::new();
        proof {
            assert(jparam_bytes(params@) =~= Seq::<(Seq<u8>, Seq<u8>)>::empty());
        }
        if req.auto_add {
            push_jparam(&mut params, "autoAddMargin", ParamValue::Int(1));
            proof {
                assert(jparam_bytes(params@) =~= f1);
            }
        } else {
            push_jparam(&mut params, "autoAddMargin", ParamValue::Int(0));
            proof {
                assert(jparam_bytes(params@) =~= f1);
            }
        }
        push_jparam(&mut params, "category", ParamValue::Text(category_string(req.category)));
        proof {
            assert(jparam_bytes(params@) =~= f2);
        }
        match req.position_idx {
            Some(n) => {
                push_jparam(&mut params, "positionIdx", ParamValue::Int(n));
                proof {
                    assert(jparam_bytes(params@) =~= f3);
                }
            },
            None => {
                proof {
                    assert(jparam_bytes(params@) =~= f3);
                }
            },
        }
        push_jparam(&mut params, "symbol", ParamValue::Text(req.symbol.clone()));
        proof {
            assert(jparam_bytes(params@) =~= f4);
            assert(f4 =~= spec_add_margin_params(req));
            lemma_json_request_bytes(params@);
        }
        build_json_request(&params)
    }

    /// The JSON body adding to or reducing a position's margin.
    pub fn add_or_reduce_margin(&self, req: &AddReduceMarginRequest) -> (r: String)
        requires
            vstd::utf8::is_ascii_chars(req.symbol@),
            vstd::utf8::is_ascii_chars(req.margin@),
        ensures
            r@ == ascii_chars_of(spec_json_obj_bytes(spec_add_reduce_margin_params(req))),
    {
        proof {
            reveal_strlit("category");
            reveal_strlit("margin");
            reveal_strlit("positionIdx");
            reveal_strlit("symbol");
        }
        let ghost f1 = seq![(encode_utf8("category"@), spec_quoted(cat_bytes(req.category)))];
        let ghost f2 = f1 + seq![(encode_utf8("margin"@), spec_quoted(encode_utf8(req.margin@)))];
        let ghost f3 = f2 + opt_jint("positionIdx"@, req.position_idx);
        let ghost f4 = f3 + seq![(encode_utf8("symbol"@), spec_quoted(encode_utf8(req.symbol@)))];
        let mut params: Vec<(String, ParamValue)> = Vec::new();
        proof {
            assert(jparam_bytes(params@) =~= Seq::<(Seq<u8>, Seq<u8>)>::empty());
        }
        push_jparam(&mut params, "category", ParamValue::Text(category_string(req.category)));
        proof {
            assert(jparam_bytes(params@) =~= f1);
        }
        push_jparam(&mut params, "margin", ParamValue::Text(req.margin.clone()));
        proof {
            assert(jparam_bytes(params@) =~= f2);
        }
        match req.position_idx {
            Some(n) => {
                push_jparam(&mut params, "positionIdx", ParamValue::Int(n));
                proof {
                    assert(jparam_bytes(params@) =~= f3);
                }
            },
            None => {
                proof {
                    assert(jparam_bytes(params@) =~= f3);
                }
            },
        }
        push_jparam(&mut params, "symbol", ParamValue::Text(req.symbol.clone()));
        proof {
            assert(jparam_bytes(params@) =~= f4);
            assert(f4 =~= spec_add_reduce_margin_params(req));
            lemma_json_request_bytes(params@);
        }
        build_json_request(&params)
    }

    /// The query string asking for closed profit-and-loss records.
    pub fn get_closed_pnl(&self, req: &ClosedPnlRequest) -> (r: String)
        requires
            (match req.start_time {
                Some(s) => crate::util::spec_valid_ddmmyy(s@),
                None => true,
            }),
            (match req.end_time {
                Some(s) => crate::util::spec_valid_ddmmyy(s@),
                None => true,
            }),
        ensures
            r@ == ascii_chars_of(spec_query(spec_closed_pnl_params(req))),
    {
        let ghost f1 = seq![(encode_utf8("category"@), cat_bytes(req.category))];
        let ghost f2 = f1 + spec_end_param(req);
        let ghost f3 = f2 + opt_uparam("limit"@, req.limit);
        let ghost f4 = f3 + opt_sparam("symbol"@, req.symbol);
        let mut params: Vec<(String, String)> = Vec::new();
        proof {
            assert(param_bytes(params@) =~= Seq::<(Seq<u8>, Seq<u8>)>::empty());
        }
        push_param(&mut params, "category", category_string(req.category));
        proof {
            assert(param_bytes(params@) =~= f1);
        }
        match &req.start_time {
            Some(s) => {
                let millis = crate::util::date_to_milliseconds(s.as_str());
                push_param(&mut params, "end", u64_to_string(millis));
                proof {
                    assert(param_bytes(params@) =~= f2);
                }
            },
            None => {
                match &req.end_time {
                    Some(e) => {
                        let millis = crate::util::date_to_milliseconds(e.as_str());
                        push_param(&mut params, "end", u64_to_string(millis));
                        proof {
                            assert(param_bytes(params@) =~= f2);
                        }
                    },
                    None => {
                        proof {
                            assert(param_bytes(params@) =~= f2);
                        }
                    },
                }
            },
        }
        match req.limit {
            Some(n) => {
                push_param(&mut params, "limit", u64_to_string(n));
                proof {
                    assert(param_bytes(params@) =~= f3);
                }
            },
            None => {
                proof {
                    assert(param_bytes(params@) =~= f3);
                }
            },
        }
        match &req.symbol {
            Some(s) => {
                push_param(&mut params, "symbol", s.clone());
                proof {
                    assert(param_bytes(params@) =~= f4);
                }
            },
            None => {
                proof {
                    assert(param_bytes(params@) =~= f4);
                }
            },
        }
        proof {
            assert(f4 =~= spec_closed_pnl_params(req));
        }
        build_request(&params)
    }
}

} // verus!
