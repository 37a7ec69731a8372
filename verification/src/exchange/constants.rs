//! Market identifiers and flags.
use vstd::prelude::*;

verus! {

pub type MarketType = u16;

pub const MARKET_ID_SHENZHEN: MarketType = 0;
pub const MARKET_ID_SHANGHAI: MarketType = 1;
pub const MARKET_ID_BEIJING: MarketType = 2;
pub const MARKET_ID_HONG_KONG: MarketType = 21;
pub const MARKET_ID_USA: MarketType = 22;

pub const MARKET_FLAG_SHANGHAI: &'static str = "sh";
pub const MARKET_FLAG_SHENZHEN: &'static str = "sz";
pub const MARKET_FLAG_BEIJING: &'static str = "bj";
pub const MARKET_FLAG_HONG_KONG: &'static str = "hk";
pub const MARKET_FLAG_USA: &'static str = "us";

pub const MARKET_CN_FIRST_DATE: &'static str = "19901219";
pub const MARKET_CH_FIRST_LISTTIME: &'static str = "1990-12-19";

pub const STOCK_DELISTING: &'static str = "DELISTING";

/// The two-letter lower-case flag of a market; unknown markets read as
/// Shanghai.
pub open spec fn flag_chars(market: MarketType) -> Seq<char> {
    if market == MARKET_ID_SHENZHEN {
        seq!['s', 'z']
    } else if market == MARKET_ID_BEIJING {
        seq!['b', 'j']
    } else if market == MARKET_ID_HONG_KONG {
        seq!['h', 'k']
    } else if market == MARKET_ID_USA {
        seq!['u', 's']
    } else {
        seq!['s', 'h']
    }
}

/// The flag of a market, as text.
pub fn get_market_flag(market: MarketType) -> (r: &'static str)
    ensures
        r@ == flag_chars(market),
{
    if market == MARKET_ID_SHENZHEN {
        proof { reveal_strlit("sz"); }
        "sz"
    } else if market == MARKET_ID_BEIJING {
        proof { reveal_strlit("bj"); }
        "bj"
    } else if market == MARKET_ID_HONG_KONG {
        proof { reveal_strlit("hk"); }
        "hk"
    } else if market == MARKET_ID_USA {
        proof { reveal_strlit("us"); }
        "us"
    } else {
        proof { reveal_strlit("sh"); }
        "sh"
    }
}

/// The flag of a market, as characters.
pub fn flag_vec(market: MarketType) -> (r: Vec<char>)
    ensures
        r@ == flag_chars(market),
{
    let r = if market == MARKET_ID_SHENZHEN {
        vec!['s', 'z']
    } else if market == MARKET_ID_BEIJING {
        vec!['b', 'j']
    } else if market == MARKET_ID_HONG_KONG {
        vec!['h', 'k']
    } else if market == MARKET_ID_USA {
        vec!['u', 's']
    } else {
        vec!['s', 'h']
    };
    assert(r@ =~= flag_chars(market));
    r
}

} // verus!
