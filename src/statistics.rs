use vstd::prelude::*;

use crate::error::YahooError;
use crate::json::{field, non_null_field, JsonValue};
use crate::tolerant::{
    member_decodes, optional_accepts, optional_decodes, optional_member, tolerant_member, DecimalValue,
    IntegerValue, OffsetDateTimeValue, TolerantValue,
};

verus! {

/// Key statistics of a ticker; the provider leaves any of them out.
#[derive(Debug)]
pub struct KeyStatistics {
    pub enterprise_value: Option<IntegerValue>,
    pub float_shares: Option<IntegerValue>,
    pub held_percent_insiders: Option<DecimalValue>,
    pub held_percent_institutions: Option<DecimalValue>,
    pub most_recent_quarter: Option<OffsetDateTimeValue>,
    pub net_income_to_common: Option<IntegerValue>,
    pub next_fiscal_year_end: Option<OffsetDateTimeValue>,
    pub price_to_book: Option<DecimalValue>,
    pub shares_outstanding: Option<IntegerValue>,
    pub total_assets: Option<IntegerValue>,
    pub trailing_eps: Option<DecimalValue>,
}

/// Financial data of a ticker.
#[derive(Debug)]
pub struct FinancialData {
    pub current_ratio: Option<DecimalValue>,
    pub debt_to_equity: DecimalValue,
    pub ebitda: IntegerValue,
    pub financial_currency: Option<String>,
    pub free_cashflow: IntegerValue,
    pub operating_cashflow: IntegerValue,
    pub quick_ratio: DecimalValue,
    pub return_on_assets: DecimalValue,
    pub total_cash: IntegerValue,
    pub total_debt: IntegerValue,
    pub total_revenue: IntegerValue,
}

/// The summary store of the key-statistics page.
#[derive(Debug)]
pub struct YQuoteSummaryStore {
    pub default_key_statistics: KeyStatistics,
    pub financial_data: Option<FinancialData>,
}

/// The stores of the key-statistics page.
#[derive(Debug)]
pub struct YStatisticsResponse {
    pub quote_summary_store: Option<YQuoteSummaryStore>,
}

/// Every member of a key-statistics object is absent, null, or decodes.
pub open spec fn key_statistics_accepts<F>(v: JsonValue<F>) -> bool {
    &&& v is Object
    &&& optional_accepts::<F, IntegerValue>(v, "enterpriseValue"@)
    &&& optional_accepts::<F, IntegerValue>(v, "floatShares"@)
    &&& optional_accepts::<F, DecimalValue>(v, "heldPercentInsiders"@)
    &&& optional_accepts::<F, DecimalValue>(v, "heldPercentInstitutions"@)
    &&& optional_accepts::<F, OffsetDateTimeValue>(v, "mostRecentQuarter"@)
    &&& optional_accepts::<F, IntegerValue>(v, "netIncomeToCommon"@)
    &&& optional_accepts::<F, OffsetDateTimeValue>(v, "nextFiscalYearEnd"@)
    &&& optional_accepts::<F, DecimalValue>(v, "priceToBook"@)
    &&& optional_accepts::<F, IntegerValue>(v, "sharesOutstanding"@)
    &&& optional_accepts::<F, IntegerValue>(v, "totalAssets"@)
    &&& optional_accepts::<F, DecimalValue>(v, "trailingEps"@)
}

/// `k` holds what each member of the key-statistics object decodes to.
pub open spec fn key_statistics_decodes<F>(v: JsonValue<F>, k: KeyStatistics) -> bool {
    &&& optional_decodes::<F, IntegerValue>(v, "enterpriseValue"@, k.enterprise_value)
    &&& optional_decodes::<F, IntegerValue>(v, "floatShares"@, k.float_shares)
    &&& optional_decodes::<F, DecimalValue>(v, "heldPercentInsiders"@, k.held_percent_insiders)
    &&& optional_decodes::<F, DecimalValue>(
        v,
        "heldPercentInstitutions"@,
        k.held_percent_institutions,
    )
    &&& optional_decodes::<F, OffsetDateTimeValue>(
        v,
        "mostRecentQuarter"@,
        k.most_recent_quarter,
    )
    &&& optional_decodes::<F, IntegerValue>(v, "netIncomeToCommon"@, k.net_income_to_common)
    &&& optional_decodes::<F, OffsetDateTimeValue>(
        v,
        "nextFiscalYearEnd"@,
        k.next_fiscal_year_end,
    )
    &&& optional_decodes::<F, DecimalValue>(v, "priceToBook"@, k.price_to_book)
    &&& optional_decodes::<F, IntegerValue>(v, "sharesOutstanding"@, k.shares_outstanding)
    &&& optional_decodes::<F, IntegerValue>(v, "totalAssets"@, k.total_assets)
    &&& optional_decodes::<F, DecimalValue>(v, "trailingEps"@, k.trailing_eps)
}

/// `r` is the outcome of decoding `v` as key statistics: the decoded
/// members when every one is absent, null or decodes, else a type mismatch.
pub open spec fn key_statistics_outcome<F>(v: JsonValue<F>, r: Result<KeyStatistics, YahooError>) -> bool {
    if key_statistics_accepts(v) {
        r matches Ok(k) && key_statistics_decodes(v, k)
    } else {
        r == Err::<KeyStatistics, YahooError>(YahooError::TypeMismatch)
    }
}

impl KeyStatistics {
    /// Decodes a key-statistics object; any member may be absent or null.
    pub fn from_json<F>(v: &JsonValue<F>) -> (r: Result<KeyStatistics, YahooError>)
        ensures
            key_statistics_outcome(*v, r),
    {
        if !matches!(v, JsonValue::Object(_)) {
            return Err(YahooError::TypeMismatch);
        }
        let enterprise_value = optional_member(v, "enterpriseValue")?;
        let float_shares = optional_member(v, "floatShares")?;
        let held_percent_insiders = optional_member(v, "heldPercentInsiders")?;
        let held_percent_institutions = optional_member(v, "heldPercentInstitutions")?;
        let most_recent_quarter = optional_member(v, "mostRecentQuarter")?;
        let net_income_to_common = optional_member(v, "netIncomeToCommon")?;
        let next_fiscal_year_end = optional_member(v, "nextFiscalYearEnd")?;
        let price_to_book = optional_member(v, "priceToBook")?;
        let shares_outstanding = optional_member(v, "sharesOutstanding")?;
        let total_assets = optional_member(v, "totalAssets")?;
        let trailing_eps = optional_member(v, "trailingEps")?;
        Ok(KeyStatistics {
            enterprise_value,
            float_shares,
            held_percent_insiders,
            held_percent_institutions,
            most_recent_quarter,
            net_income_to_common,
            next_fiscal_year_end,
            price_to_book,
            shares_outstanding,
            total_assets,
            trailing_eps,
        })
    }
}

/// The text of an optional string member: `Ok(None)` when absent or null,
/// `Err` when it is no string.
pub open spec fn optional_text<F>(v: JsonValue<F>, key: Seq<char>) -> Result<Option<Seq<char>>, ()> {
    match non_null_field(v, key) {
        None => Ok(None),
        Some(JsonValue::Str(s)) => Ok(Some(s@)),
        Some(_) => Err(()),
    }
}

fn optional_string<F>(v: &JsonValue<F>, key: &str) -> (r: Result<Option<String>, YahooError>)
    ensures
        r is Ok <==> optional_text(*v, key@) is Ok,
        r matches Ok(o) ==> optional_text(*v, key@) == Ok::<_, ()>(
            match o {
                Some(s) => Some(s@),
                None => None,
            },
        ),
        r matches Err(e) ==> e == YahooError::TypeMismatch,
{
    match v.get_non_null(key) {
        None => Ok(None),
        Some(JsonValue::Str(s)) => Ok(Some(s.clone())),
        Some(_) => Err(YahooError::TypeMismatch),
    }
}

/// Every member of a financial-data object is absent, null, or decodes.
pub open spec fn financial_data_accepts<F>(v: JsonValue<F>) -> bool {
    &&& optional_accepts::<F, DecimalValue>(v, "currentRatio"@)
    &&& optional_accepts::<F, DecimalValue>(v, "debtToEquity"@)
    &&& optional_accepts::<F, IntegerValue>(v, "ebitda"@)
    &&& optional_text(v, "financialCurrency"@) is Ok
    &&& optional_accepts::<F, IntegerValue>(v, "freeCashflow"@)
    &&& optional_accepts::<F, IntegerValue>(v, "operatingCashflow"@)
    &&& optional_accepts::<F, DecimalValue>(v, "quickRatio"@)
    &&& optional_accepts::<F, DecimalValue>(v, "returnOnAssets"@)
    &&& optional_accepts::<F, IntegerValue>(v, "totalCash"@)
    &&& optional_accepts::<F, IntegerValue>(v, "totalDebt"@)
    &&& optional_accepts::<F, IntegerValue>(v, "totalRevenue"@)
}

/// `d` holds what each member of the financial-data object decodes to; an
/// absent or null member holds no value.
pub open spec fn financial_data_decodes<F>(v: JsonValue<F>, d: FinancialData) -> bool {
    &&& optional_decodes::<F, DecimalValue>(v, "currentRatio"@, d.current_ratio)
    &&& member_decodes::<F, DecimalValue>(v, "debtToEquity"@, d.debt_to_equity)
    &&& member_decodes::<F, IntegerValue>(v, "ebitda"@, d.ebitda)
    &&& optional_text(v, "financialCurrency"@) == Ok::<_, ()>(
        match d.financial_currency {
            Some(s) => Some(s@),
            None => None,
        },
    )
    &&& member_decodes::<F, IntegerValue>(v, "freeCashflow"@, d.free_cashflow)
    &&& member_decodes::<F, IntegerValue>(v, "operatingCashflow"@, d.operating_cashflow)
    &&& member_decodes::<F, DecimalValue>(v, "quickRatio"@, d.quick_ratio)
    &&& member_decodes::<F, DecimalValue>(v, "returnOnAssets"@, d.return_on_assets)
    &&& member_decodes::<F, IntegerValue>(v, "totalCash"@, d.total_cash)
    &&& member_decodes::<F, IntegerValue>(v, "totalDebt"@, d.total_debt)
    &&& member_decodes::<F, IntegerValue>(v, "totalRevenue"@, d.total_revenue)
}

/// `r` is the outcome of decoding `v` as financial data: a type mismatch
/// for a value that is no object, else the decoded members when each is
/// absent, null or decodes, else a type mismatch.
pub open spec fn financial_data_outcome<F>(v: JsonValue<F>, r: Result<FinancialData, YahooError>) -> bool {
    if v is Object && financial_data_accepts(v) {
        r matches Ok(d) && financial_data_decodes(v, d)
    } else {
        r == Err::<FinancialData, YahooError>(YahooError::TypeMismatch)
    }
}

impl FinancialData {
    /// Decodes a financial-data object; any member may be absent or null and
    /// then holds no value. Fails with `TypeMismatch` when the value is no
    /// object or a member does not decode.
    pub fn from_json<F>(v: &JsonValue<F>) -> (r: Result<FinancialData, YahooError>)
        ensures
            financial_data_outcome(*v, r),
    {
        if !matches!(v, JsonValue::Object(_)) {
            return Err(YahooError::TypeMismatch);
        }
        let current_ratio = optional_member(v, "currentRatio")?;
        let debt_to_equity = tolerant_member(v, "debtToEquity")?;
        let ebitda = tolerant_member(v, "ebitda")?;
        let financial_currency = optional_string(v, "financialCurrency")?;
        let free_cashflow = tolerant_member(v, "freeCashflow")?;
        let operating_cashflow = tolerant_member(v, "operatingCashflow")?;
        let quick_ratio = tolerant_member(v, "quickRatio")?;
        let return_on_assets = tolerant_member(v, "returnOnAssets")?;
        let total_cash = tolerant_member(v, "totalCash")?;
        let total_debt = tolerant_member(v, "totalDebt")?;
        let total_revenue = tolerant_member(v, "totalRevenue")?;
        Ok(FinancialData {
            current_ratio,
            debt_to_equity,
            ebitda,
            financial_currency,
            free_cashflow,
            operating_cashflow,
            quick_ratio,
            return_on_assets,
            total_cash,
            total_debt,
            total_revenue,
        })
    }
}

/// `r` is the outcome of decoding `v` as the summary store: the key
/// statistics are required, the financial data optional.
pub open spec fn summary_store_outcome<F>(v: JsonValue<F>, r: Result<YQuoteSummaryStore, YahooError>) -> bool {
    if !(v is Object) {
        r == Err::<YQuoteSummaryStore, YahooError>(YahooError::TypeMismatch)
    } else {
        match field(v, "defaultKeyStatistics"@) {
            None => r == Err::<YQuoteSummaryStore, YahooError>(YahooError::MissingField),
            Some(k) => if !key_statistics_accepts(k) {
                r == Err::<YQuoteSummaryStore, YahooError>(YahooError::TypeMismatch)
            } else {
                match non_null_field(v, "financialData"@) {
                    None => (r matches Ok(s) && key_statistics_decodes(k, s.default_key_statistics)
                        && s.financial_data is None),
                    Some(f) => match r {
                        Ok(s) => key_statistics_decodes(k, s.default_key_statistics) && (
                        s.financial_data matches Some(d) && financial_data_outcome(f, Ok(d))),
                        Err(e) => financial_data_outcome(f, Err(e)),
                    },
                }
            },
        }
    }
}

impl YQuoteSummaryStore {
    /// Decodes the summary store.
    pub fn from_json<F>(v: &JsonValue<F>) -> (r: Result<YQuoteSummaryStore, YahooError>)
        ensures
            summary_store_outcome(*v, r),
    {
        if !matches!(v, JsonValue::Object(_)) {
            return Err(YahooError::TypeMismatch);
        }
        let default_key_statistics = match v.get("defaultKeyStatistics") {
            None => {
                return Err(YahooError::MissingField);
            },
            Some(k) => KeyStatistics::from_json(k)?,
        };
        let financial_data = match v.get_non_null("financialData") {
            None => None,
            Some(f) => Some(FinancialData::from_json(f)?),
        };
        Ok(YQuoteSummaryStore { default_key_statistics, financial_data })
    }
}

/// `r` is the outcome of decoding the page stores `v`: the summary store is
/// optional.
pub open spec fn statistics_outcome<F>(v: JsonValue<F>, r: Result<YStatisticsResponse, YahooError>) -> bool {
    if !(v is Object) {
        r == Err::<YStatisticsResponse, YahooError>(YahooError::TypeMismatch)
    } else {
        match non_null_field(v, "QuoteSummaryStore"@) {
            None => (r matches Ok(s) && s.quote_summary_store is None),
            Some(q) => match r {
                Ok(s) => s.quote_summary_store matches Some(t) && summary_store_outcome(q, Ok(t)),
                Err(e) => summary_store_outcome(q, Err(e)),
            },
        }
    }
}

impl YStatisticsResponse {
    /// Decodes the stores of the key-statistics page.
    pub fn from_json<F>(v: &JsonValue<F>) -> (r: Result<YStatisticsResponse, YahooError>)
        ensures
            statistics_outcome(*v, r),
    {
        if !matches!(v, JsonValue::Object(_)) {
            return Err(YahooError::TypeMismatch);
        }
        let quote_summary_store = match v.get_non_null("QuoteSummaryStore") {
            None => None,
            Some(q) => Some(YQuoteSummaryStore::from_json(q)?),
        };
        Ok(YStatisticsResponse { quote_summary_store })
    }
}

} // verus!
