//! The requests that the API builds from a security code.
use vstd::prelude::*;
use vstd::utf8::encode_utf8;
use crate::exchange::constants::MarketType;
use crate::exchange::symbol::{detect_market, spec_detect};
use crate::quotes::base_consts::QuotesError;
use crate::quotes::cmd_minute_time_data::{HistoryMinuteTimeRequest, MinuteTimeRequest};
use crate::quotes::cmd_security_bars::{SecurityBarsRequest, SECURITY_BARS_MAX};
use crate::quotes::cmd_transaction_data::{HistoryTransactionRequest, TransactionRequest, TRANSACTION_MAX};
use crate::quotes::cmd_xdxr_info::XdxrInfoRequest;
use crate::quotes::cmd_finance_info::FinanceInfoRequest;

verus! {

/// A code is usable when the code part of it is six bytes long.
pub open spec fn code_usable(code: Seq<char>) -> bool {
    encode_utf8(spec_detect(code).2).len() == 6
}

/// The market and six code bytes of a security code such as `"sh600000"`;
/// a code part that is not six bytes long is `InvalidSecurityCode`.
pub fn security_code_bytes(code: &str) -> (r: Result<(MarketType, [u8; 6]), QuotesError>)
    ensures
        !code_usable(code@) ==> r == Err::<(MarketType, [u8; 6]), QuotesError>(QuotesError::InvalidSecurityCode),
        code_usable(code@) ==> r is Ok && r.unwrap().0 == spec_detect(code@).0
            && r.unwrap().1@ == encode_utf8(spec_detect(code@).2),
{
    let (market, _, symbol) = detect_market(code);
    let b = symbol.as_str().as_bytes();
    if b.len() != 6 {
        return Err(QuotesError::InvalidSecurityCode);
    }
    let bytes = [b[0], b[1], b[2], b[3], b[4], b[5]];
    assert(bytes@ =~= b@);
    Ok((market, bytes))
}

/// The request for candlestick bars of a security: at most 800 bars.
pub fn kline_request(code: &str, category: u16, start: u16, count: u16) -> (r: Result<SecurityBarsRequest, QuotesError>)
    ensures
        count > SECURITY_BARS_MAX ==> r == Err::<SecurityBarsRequest, QuotesError>(QuotesError::CountExceeded),
        count <= SECURITY_BARS_MAX && !code_usable(code@)
            ==> r == Err::<SecurityBarsRequest, QuotesError>(QuotesError::InvalidSecurityCode),
        count <= SECURITY_BARS_MAX && code_usable(code@) ==> {
            &&& r is Ok
            &&& r.unwrap().market == spec_detect(code@).0
            &&& r.unwrap().code@ == encode_utf8(spec_detect(code@).2)
            &&& r.unwrap().category == category && r.unwrap().i == 0
            &&& r.unwrap().start == start && r.unwrap().count == count
        },
{
    if count as usize > SECURITY_BARS_MAX {
        return Err(QuotesError::CountExceeded);
    }
    let (market, code) = match security_code_bytes(code) {
        Ok(mc) => mc,
        Err(e) => return Err(e),
    };
    Ok(SecurityBarsRequest { market, code, category, i: 0, start, count })
}

/// The request for the minute prices of a security on a day.
pub fn minute_time_request(code: &str, date: u32) -> (r: Result<MinuteTimeRequest, QuotesError>)
    ensures
        !code_usable(code@) ==> r == Err::<MinuteTimeRequest, QuotesError>(QuotesError::InvalidSecurityCode),
        code_usable(code@) ==> r is Ok && r.unwrap().market == spec_detect(code@).0
            && r.unwrap().code@ == encode_utf8(spec_detect(code@).2) && r.unwrap().date == date,
{
    let (market, code) = match security_code_bytes(code) {
        Ok(mc) => mc,
        Err(e) => return Err(e),
    };
    Ok(MinuteTimeRequest { market, code, date })
}

/// The request for the minute prices of a security on a past day.
pub fn history_minute_time_request(code: &str, date: u32) -> (r: Result<HistoryMinuteTimeRequest, QuotesError>)
    ensures
        !code_usable(code@) ==> r == Err::<HistoryMinuteTimeRequest, QuotesError>(QuotesError::InvalidSecurityCode),
        code_usable(code@) ==> r is Ok && r.unwrap().market == spec_detect(code@).0 as u8
            && r.unwrap().code@ == encode_utf8(spec_detect(code@).2) && r.unwrap().date == date,
{
    let (market, code) = match security_code_bytes(code) {
        Ok(mc) => mc,
        Err(e) => return Err(e),
    };
    Ok(HistoryMinuteTimeRequest { date, market: market as u8, code })
}

/// The request for today's trades of a security: at most 1800 trades.
pub fn transaction_request(code: &str, start: u16, count: u16) -> (r: Result<TransactionRequest, QuotesError>)
    ensures
        count > TRANSACTION_MAX ==> r == Err::<TransactionRequest, QuotesError>(QuotesError::CountExceeded),
        count <= TRANSACTION_MAX && !code_usable(code@)
            ==> r == Err::<TransactionRequest, QuotesError>(QuotesError::InvalidSecurityCode),
        count <= TRANSACTION_MAX && code_usable(code@) ==> r is Ok
            && r.unwrap().market == spec_detect(code@).0 && r.unwrap().code@ == encode_utf8(spec_detect(code@).2)
            && r.unwrap().start == start && r.unwrap().count == count,
{
    if count as usize > TRANSACTION_MAX {
        return Err(QuotesError::CountExceeded);
    }
    let (market, code) = match security_code_bytes(code) {
        Ok(mc) => mc,
        Err(e) => return Err(e),
    };
    Ok(TransactionRequest { market, code, start, count })
}

/// The request for a past day's trades of a security: at most 1800 trades.
pub fn history_transaction_request(code: &str, date: u32, start: u16, count: u16) -> (r: Result<HistoryTransactionRequest, QuotesError>)
    ensures
        count > TRANSACTION_MAX ==> r == Err::<HistoryTransactionRequest, QuotesError>(QuotesError::CountExceeded),
        count <= TRANSACTION_MAX && !code_usable(code@)
            ==> r == Err::<HistoryTransactionRequest, QuotesError>(QuotesError::InvalidSecurityCode),
        count <= TRANSACTION_MAX && code_usable(code@) ==> r is Ok && r.unwrap().date == date
            && r.unwrap().market == spec_detect(code@).0 && r.unwrap().code@ == encode_utf8(spec_detect(code@).2)
            && r.unwrap().start == start && r.unwrap().count == count,
{
    if count as usize > TRANSACTION_MAX {
        return Err(QuotesError::CountExceeded);
    }
    let (market, code) = match security_code_bytes(code) {
        Ok(mc) => mc,
        Err(e) => return Err(e),
    };
    Ok(HistoryTransactionRequest { date, market, code, start, count })
}

/// The request for the ex-rights events of a security.
pub fn xdxr_info_request(code: &str) -> (r: Result<XdxrInfoRequest, QuotesError>)
    ensures
        !code_usable(code@) ==> r == Err::<XdxrInfoRequest, QuotesError>(QuotesError::InvalidSecurityCode),
        code_usable(code@) ==> r is Ok && r.unwrap().market == spec_detect(code@).0 as u8
            && r.unwrap().code@ == encode_utf8(spec_detect(code@).2),
{
    let (market, code) = match security_code_bytes(code) {
        Ok(mc) => mc,
        Err(e) => return Err(e),
    };
    Ok(XdxrInfoRequest { market: market as u8, code })
}

/// The request for the financial summary of a security (one record).
pub fn finance_info_request(code: &str) -> (r: Result<FinanceInfoRequest, QuotesError>)
    ensures
        !code_usable(code@) ==> r == Err::<FinanceInfoRequest, QuotesError>(QuotesError::InvalidSecurityCode),
        code_usable(code@) ==> r is Ok && r.unwrap().count == 1 && r.unwrap().market == spec_detect(code@).0 as u8
            && r.unwrap().code@ == encode_utf8(spec_detect(code@).2),
{
    let (market, code) = match security_code_bytes(code) {
        Ok(mc) => mc,
        Err(e) => return Err(e),
    };
    Ok(FinanceInfoRequest { count: 1, market: market as u8, code })
}

} // verus!
