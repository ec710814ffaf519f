//! The asset manager: builds the exact request payloads of the asset and
//! conversion REST endpoints.

use vstd::prelude::*;
use vstd::string::StringSliceAdditionalSpecFns;
use vstd::utf8::encode_utf8;

use crate::codec::spec_quoted;
use crate::util::{ascii_chars_of, build_json_request, build_request, jparam_bytes,
    lemma_json_request_bytes, param_bytes, push_jparam, push_param, spec_json_obj_bytes,
    spec_query, ParamValue};

verus! {

/// Account whose balances are queried.
#[derive(Clone, Copy, PartialEq, Eq, Structural, Debug)]
pub enum AccountType {
    Unified,
    Contract,
    Spot,
    Investment,
    Fund,
}

impl AccountType {
    /// The wire name of the account type.
    pub fn as_str(&self) -> (r: &'static str)
        ensures
            (match self {
                AccountType::Unified => r@ == "UNIFIED"@,
                AccountType::Contract => r@ == "CONTRACT"@,
                AccountType::Spot => r@ == "SPOT"@,
                AccountType::Investment => r@ == "INVESTMENT"@,
                AccountType::Fund => r@ == "FUND"@,
            }),
    {
        match self {
            AccountType::Unified => "UNIFIED",
            AccountType::Contract => "CONTRACT",
            AccountType::Spot => "SPOT",
            AccountType::Investment => "INVESTMENT",
            AccountType::Fund => "FUND",
        }
    }
}

/// The wire name bytes of an account type.
pub open spec fn account_type_bytes(a: AccountType) -> Seq<u8> {
    match a {
        AccountType::Unified => encode_utf8("UNIFIED"@),
        AccountType::Contract => encode_utf8("CONTRACT"@),
        AccountType::Spot => encode_utf8("SPOT"@),
        AccountType::Investment => encode_utf8("INVESTMENT"@),
        AccountType::Fund => encode_utf8("FUND"@),
    }
}

/// The wire name of an account type as an owned string.
pub fn account_type_string(a: AccountType) -> (r: String)
    ensures
        encode_utf8(r@) == account_type_bytes(a),
        vstd::utf8::is_ascii_chars(r@),
{
    proof {
        reveal_strlit("UNIFIED");
        reveal_strlit("CONTRACT");
        reveal_strlit("SPOT");
        reveal_strlit("INVESTMENT");
        reveal_strlit("FUND");
    }
    let s = a.as_str();
    <String as vstd::string::StringExecFns>::from_str(s)
}

/// Wallet the quote conversion draws from.
#[derive(Clone, Copy, PartialEq, Eq, Structural, Debug)]
pub enum QuotaAccountType {
    Funding,
    Unified,
    Spot,
    Contract,
}

impl QuotaAccountType {
    /// The wire name of the conversion wallet.
    pub fn as_str(&self) -> (r: &'static str)
        ensures
            (match self {
                QuotaAccountType::Funding => r@ == "eb_convert_funding"@,
                QuotaAccountType::Unified => r@ == "eb_convert_uta"@,
                QuotaAccountType::Spot => r@ == "eb_convert_spot"@,
                QuotaAccountType::Contract => r@ == "eb_convert_contract"@,
            }),
    {
        match self {
            QuotaAccountType::Funding => "eb_convert_funding",
            QuotaAccountType::Unified => "eb_convert_uta",
            QuotaAccountType::Spot => "eb_convert_spot",
            QuotaAccountType::Contract => "eb_convert_contract",
        }
    }
}

/// The wire name bytes of a conversion wallet.
pub open spec fn quota_account_bytes(a: QuotaAccountType) -> Seq<u8> {
    match a {
        QuotaAccountType::Funding => encode_utf8("eb_convert_funding"@),
        QuotaAccountType::Unified => encode_utf8("eb_convert_uta"@),
        QuotaAccountType::Spot => encode_utf8("eb_convert_spot"@),
        QuotaAccountType::Contract => encode_utf8("eb_convert_contract"@),
    }
}

fn quota_account_string(a: QuotaAccountType) -> (r: String)
    ensures
        encode_utf8(r@) == quota_account_bytes(a),
        vstd::utf8::is_ascii_chars(r@),
{
    proof {
        reveal_strlit("eb_convert_funding");
        reveal_strlit("eb_convert_uta");
        reveal_strlit("eb_convert_spot");
        reveal_strlit("eb_convert_contract");
    }
    let s = a.as_str();
    <String as vstd::string::StringExecFns>::from_str(s)
}

/// The byte strings of a coin list joined with commas.
pub open spec fn spec_join_comma(ss: Seq<String>) -> Seq<u8>
    decreases ss.len(),
{
    if ss.len() == 0 {
        Seq::<u8>::empty()
    } else if ss.len() == 1 {
        encode_utf8(ss[0]@)
    } else {
        encode_utf8(ss[0]@) + seq![44u8] + spec_join_comma(ss.skip(1))
    }
}

/// Every coin name is ASCII.
pub open spec fn coins_ascii(ss: Seq<String>) -> bool {
    forall|i: int| 0 <= i < ss.len() ==> vstd::utf8::is_ascii_chars(#[trigger] ss[i]@)
}

/// Joins coin names with commas.
fn join_comma(coins: &Vec<String>) -> (r: String)
    requires
        coins_ascii(coins@),
    ensures
        encode_utf8(r@) == spec_join_comma(coins@),
        vstd::utf8::is_ascii_chars(r@),
{
    let ghost cs = coins@;
    let mut out: Vec<u8> = Vec::new();
    let mut i: usize = 0;
    proof {
        assert(cs.skip(0) =~= cs);
    }
    while i < coins.len()
        invariant
            i <= coins@.len(),
            cs == coins@,
            coins_ascii(cs),
            out@ + spec_join_comma(cs.skip(i as int)) == spec_join_comma(cs),
            forall|j: int| 0 <= j < out@.len() ==> #[trigger] out@[j] < 128,
        decreases coins@.len() - i,
    {
        proof {
            assert(cs.skip(i as int)[0] == cs[i as int]);
            assert(cs.skip(i as int).skip(1) =~= cs.skip(i + 1));
        }
        let ghost out_before = out@;
        crate::codec::push_bytes(&mut out, coins[i].as_str().as_bytes());
        if i + 1 < coins.len() {
            out.push(44);
        }
        proof {
            assert(out@ + spec_join_comma(cs.skip(i + 1)) =~= spec_join_comma(cs));
            assert(vstd::utf8::is_ascii_chars(cs[i as int]@));
            vstd::utf8::is_ascii_chars_encode_utf8(cs[i as int]@);
            assert forall|j: int| 0 <= j < out@.len() implies #[trigger] out@[j] < 128 by {
                if j < out_before.len() {
                } else if j < out_before.len() + encode_utf8(cs[i as int]@).len() {
                    assert(out@[j] == encode_utf8(cs[i as int]@)[j - out_before.len()]);
                    assert(encode_utf8(cs[i as int]@)[j - out_before.len()] == cs[i as int]@[j
                        - out_before.len()] as u8);
                    assert(cs[i as int]@[j - out_before.len()] <= '\u{7f}');
                } else {
                    assert(out@[j] == 44u8);
                }
            }
        }
        i = i + 1;
    }
    proof {
        assert(spec_join_comma(cs.skip(cs.len() as int)) =~= Seq::<u8>::empty());
        assert(out@ + Seq::<u8>::empty() =~= out@);
        crate::util::lemma_encode_ascii_chars(out@);
    }
    crate::util::ascii_to_string(out)
}

/// Builds the asset endpoints' request payloads.
#[derive(Clone, Debug)]
pub struct AssetManager {
    pub recv_window: u16,
}

/// The query parameters of an all-coin balance request, in key order.
pub open spec fn spec_all_coins_params(
    account_type: AccountType,
    coins: &Option<Vec<String>>,
) -> Seq<(Seq<u8>, Seq<u8>)> {
    seq![(encode_utf8("accountType"@), account_type_bytes(account_type))] + (match coins {
        Some(cs) => seq![(encode_utf8("coins"@), spec_join_comma(cs@))],
        None => Seq::<(Seq<u8>, Seq<u8>)>::empty(),
    })
}

/// The JSON body parameters of a conversion quote request, in the request
/// schema's field order.
pub open spec fn spec_quota_params(
    from_coin: Seq<char>,
    to_coin: Seq<char>,
    request_coin: Seq<char>,
    request_amount: Seq<char>,
    account_type: QuotaAccountType,
) -> Seq<(Seq<u8>, Seq<u8>)> {
    seq![(encode_utf8("fromCoin"@), spec_quoted(encode_utf8(from_coin)))] + seq![(
        encode_utf8("toCoin"@),
        spec_quoted(encode_utf8(to_coin)),
    )] + seq![(encode_utf8("requestCoin"@), spec_quoted(encode_utf8(request_coin)))] + seq![(
        encode_utf8("requestAmount"@),
        spec_quoted(encode_utf8(request_amount)),
    )] + seq![(encode_utf8("accountType"@), spec_quoted(quota_account_bytes(account_type)))]
}

impl AssetManager {
    /// The query string asking for all coin balances of an account, with an
    /// optional comma-joined coin filter.
    pub fn query_all_coins(&self, account_type: AccountType, coins: &Option<Vec<String>>) -> (r:
        String)
        requires
            (match coins {
                Some(cs) => coins_ascii(cs@),
                None => true,
            }),
        ensures
            r@ == ascii_chars_of(spec_query(spec_all_coins_params(account_type, coins))),
    {
        let ghost f1 = seq![(encode_utf8("accountType"@), account_type_bytes(account_type))];
        let ghost f2 = spec_all_coins_params(account_type, coins);
        let mut params: Vec<(String, String)> = Vec::new();
        proof {
            assert(param_bytes(params@) =~= Seq::<(Seq<u8>, Seq<u8>)>::empty());
        }
        push_param(&mut params, "accountType", account_type_string(account_type));
        proof {
            assert(param_bytes(params@) =~= f1);
        }
        match coins {
            Some(cs) => {
                push_param(&mut params, "coins", join_comma(cs));
                proof {
                    assert(param_bytes(params@) =~= f2);
                }
            },
            None => {
                proof {
                    assert(param_bytes(params@) =~= f2);
                }
            },
        }
        build_request(&params)
    }

    /// The JSON body applying for a conversion quote.
    pub fn apply_for_quota(
        &self,
        from_coin: &str,
        to_coin: &str,
        request_coin: &str,
        request_amount: String,
        account_type: QuotaAccountType,
    ) -> (r: String)
        requires
            vstd::utf8::is_ascii_chars(from_coin@),
            vstd::utf8::is_ascii_chars(to_coin@),
            vstd::utf8::is_ascii_chars(request_coin@),
            vstd::utf8::is_ascii_chars(request_amount@),
        ensures
            r@ == ascii_chars_of(
                spec_json_obj_bytes(
                    spec_quota_params(
                        from_coin@,
                        to_coin@,
                        request_coin@,
                        request_amount@,
                        account_type,
                    ),
                ),
            ),
    {
        proof {
            reveal_strlit("fromCoin");
            reveal_strlit("toCoin");
            reveal_strlit("requestCoin");
            reveal_strlit("requestAmount");
            reveal_strlit("accountType");
        }
        let ghost amount_chars = request_amount@;
        let ghost f1 = seq![(encode_utf8("fromCoin"@), spec_quoted(encode_utf8(from_coin@)))];
        let ghost f2 = f1 + seq![(encode_utf8("toCoin"@), spec_quoted(encode_utf8(to_coin@)))];
        let ghost f3 = f2 + seq![(
            encode_utf8("requestCoin"@),
            spec_quoted(encode_utf8(request_coin@)),
        )];
        let ghost f4 = f3 + seq![(
            encode_utf8("requestAmount"@),
            spec_quoted(encode_utf8(amount_chars)),
        )];
        let ghost f5 = f4 + seq![(
            encode_utf8("accountType"@),
            spec_quoted(quota_account_bytes(account_type)),
        )];
        let mut params: Vec<(String, ParamValue)> = Vec::new();
        proof {
            assert(jparam_bytes(params@) =~= Seq::<(Seq<u8>, Seq<u8>)>::empty());
        }
        push_jparam(&mut params, "fromCoin", ParamValue::Text(from_coin.to_owned()));
        proof {
            assert(jparam_bytes(params@) =~= f1);
        }
        push_jparam(&mut params, "toCoin", ParamValue::Text(to_coin.to_owned()));
        proof {
            assert(jparam_bytes(params@) =~= f2);
        }
        push_jparam(&mut params, "requestCoin", ParamValue::Text(request_coin.to_owned()));
        proof {
            assert(jparam_bytes(params@) =~= f3);
        }
        push_jparam(&mut params, "requestAmount", ParamValue::Text(request_amount));
        proof {
            assert(jparam_bytes(params@) =~= f4);
        }
        push_jparam(&mut params, "accountType", ParamValue::Text(quota_account_string(
            account_type,
        )));
        proof {
            assert(jparam_bytes(params@) =~= f5);
            assert(f5 =~= spec_quota_params(
                from_coin@,
                to_coin@,
                request_coin@,
                amount_chars,
                account_type,
            ));
            lemma_json_request_bytes(params@);
        }
        build_json_request(&params)
    }
}

} // verus!
