//! What a snapshot request asks for, and the exchange's trading state.
use vstd::prelude::*;
use vstd::utf8::encode_utf8;
use crate::exchange::symbol::{detect_market, spec_detect};
use crate::quotes::base_consts::QuotesError;
use crate::quotes::cmd_security_quotes::SECURITY_QUOTES_MAX;
use crate::quotes::code_map::Stock;

verus! {

/// Trading state of the exchange.
#[derive(Debug, Clone, Copy, PartialEq, Eq, Structural)]
pub enum ExchangeState {
    Delisting,
    Closing,
    Normal,
    Pause,
}

impl Default for ExchangeState {
    fn default() -> (r: Self)
        ensures
            r == ExchangeState::Normal,
    {
        ExchangeState::Normal
    }
}

impl ExchangeState {
    /// The number of the state.
    pub fn code(&self) -> (r: i32)
        ensures
            *self == ExchangeState::Delisting ==> r == -1,
            *self == ExchangeState::Closing ==> r == 0,
            *self == ExchangeState::Normal ==> r == 1,
            *self == ExchangeState::Pause ==> r == 2,
    {
        match self {
            ExchangeState::Delisting => -1,
            ExchangeState::Closing => 0,
            ExchangeState::Normal => 1,
            ExchangeState::Pause => 2,
        }
    }
}

/// The stocks a list of security codes asks for, in order: each code's
/// market and code part, kept when the code part is six bytes long.
pub open spec fn snapshot_stocks(codes: Seq<Seq<char>>) -> Seq<(u8, Seq<char>)>
    decreases codes.len(),
{
    if codes.len() == 0 {
        Seq::empty()
    } else {
        let d = spec_detect(codes.last());
        let rest = snapshot_stocks(codes.drop_last());
        if encode_utf8(d.2).len() == 6 { rest.push((d.0 as u8, d.2)) } else { rest }
    }
}

/// The stocks to request for a snapshot of the given codes: at least one
/// and at most eighty codes, of which at least one must be valid.
pub fn stocks_from_codes(codes: &Vec<String>) -> (r: Result<Vec<Stock>, QuotesError>)
    ensures
        codes@.len() == 0 ==> r == Err::<Vec<Stock>, QuotesError>(QuotesError::EmptyRequest),
        codes@.len() > SECURITY_QUOTES_MAX ==> r == Err::<Vec<Stock>, QuotesError>(QuotesError::TooManyStocks),
        0 < codes@.len() <= SECURITY_QUOTES_MAX ==> {
            let picked = snapshot_stocks(codes@.map_values(|c: String| c@));
            &&& picked.len() == 0 ==> r == Err::<Vec<Stock>, QuotesError>(QuotesError::InvalidSecurityCode)
            &&& picked.len() > 0 ==> r is Ok && r.unwrap()@.map_values(|s: Stock| (s.market, s.code@)) == picked
        },
{
    if codes.len() == 0 {
        return Err(QuotesError::EmptyRequest);
    }
    if codes.len() > SECURITY_QUOTES_MAX {
        return Err(QuotesError::TooManyStocks);
    }
    let ghost cs = codes@.map_values(|c: String| c@);
    let mut out: Vec<Stock> = Vec::new();
    let mut i: usize = 0;
    while i < codes.len()
        invariant
            i <= codes@.len(),
            cs == codes@.map_values(|c: String| c@),
            out@.map_values(|s: Stock| (s.market, s.code@)) == snapshot_stocks(cs.take(i as int)),
        decreases codes.len() - i,
    {
        let (m, _, sym) = detect_market(codes[i].as_str());
        let ghost d = spec_detect(codes@[i as int]@);
        assert(m == d.0 && sym@ == d.2);
        assert(cs.take(i + 1).drop_last() == cs.take(i as int));
        assert(cs.take(i + 1).last() == codes@[i as int]@);
        assert(snapshot_stocks(cs.take(i + 1)) == if encode_utf8(d.2).len() == 6 {
            snapshot_stocks(cs.take(i as int)).push((d.0 as u8, d.2))
        } else {
            snapshot_stocks(cs.take(i as int))
        });
        if sym.as_str().as_bytes().len() == 6 {
            let ghost before = out@.map_values(|s: Stock| (s.market, s.code@));
            out.push(Stock { market: m as u8, code: sym });
            assert(out@.map_values(|s: Stock| (s.market, s.code@)) =~= before.push((m as u8, spec_detect(codes@[i as int]@).2)));
        }
        i = i + 1;
    }
    assert(cs.take(cs.len() as int) == cs);
    if out.len() == 0 {
        return Err(QuotesError::InvalidSecurityCode);
    }
    Ok(out)
}

/// The running sums of five volumes, left to right, as `i32` arithmetic
/// takes them.
pub open spec fn sum5(v: [i32; 5]) -> int {
    v[0] + v[1] + v[2] + v[3] + v[4]
}

/// Whether every running sum of the five volumes stays within `i32`.
pub open spec fn sum5_fits(v: [i32; 5]) -> bool {
    &&& i32::MIN <= v[0] + v[1] <= i32::MAX
    &&& i32::MIN <= v[0] + v[1] + v[2] <= i32::MAX
    &&& i32::MIN <= v[0] + v[1] + v[2] + v[3] <= i32::MAX
    &&& i32::MIN <= sum5(v) <= i32::MAX
}

fn sum5_exec(v: [i32; 5]) -> (r: Option<i32>)
    ensures
        sum5_fits(v) ==> r == Some(sum5(v) as i32),
        !sum5_fits(v) ==> r is None,
{
    let mut t: i64 = v[0] as i64;
    let mut i: usize = 1;
    while i < 5
        invariant
            1 <= i <= 5,
            t == (if i == 1 { v[0] as int } else if i == 2 { v[0] + v[1] } else if i == 3 { v[0] + v[1] + v[2] }
                else if i == 4 { v[0] + v[1] + v[2] + v[3] } else { sum5(v) }),
            i >= 2 ==> i32::MIN <= v[0] + v[1] <= i32::MAX,
            i >= 3 ==> i32::MIN <= v[0] + v[1] + v[2] <= i32::MAX,
            i >= 4 ==> i32::MIN <= v[0] + v[1] + v[2] + v[3] <= i32::MAX,
            i >= 5 ==> i32::MIN <= sum5(v) <= i32::MAX,
        decreases 5 - i,
    {
        t = t + v[i] as i64;
        if t < -0x8000_0000 || t > 0x7fff_ffff {
            return None;
        }
        i = i + 1;
    }
    Some(t as i32)
}

/// The bid volume less the ask volume of five book levels, `None` where
/// the `i32` sums overflow.
pub fn volume_direction(bid_vols: [i32; 5], ask_vols: [i32; 5]) -> (r: Option<i32>)
    ensures
        sum5_fits(bid_vols) && sum5_fits(ask_vols)
            && i32::MIN <= sum5(bid_vols) - sum5(ask_vols) <= i32::MAX
            ==> r == Some((sum5(bid_vols) - sum5(ask_vols)) as i32),
        !(sum5_fits(bid_vols) && sum5_fits(ask_vols)
            && i32::MIN <= sum5(bid_vols) - sum5(ask_vols) <= i32::MAX) ==> r is None,
{
    let b = match sum5_exec(bid_vols) {
        Some(b) => b,
        None => return None,
    };
    let a = match sum5_exec(ask_vols) {
        Some(a) => a,
        None => return None,
    };
    let d = b as i64 - a as i64;
    if d < -0x8000_0000 || d > 0x7fff_ffff {
        return None;
    }
    Some(d as i32)
}

/// A tenth (rounded toward zero) of the volume on both sides of five book
/// levels, `None` where the `i32` sums overflow.
pub fn average_bidding_volume(bid_vols: [i32; 5], ask_vols: [i32; 5]) -> (r: Option<i32>)
    ensures
        sum5_fits(bid_vols) && sum5_fits(ask_vols)
            && i32::MIN <= sum5(bid_vols) + sum5(ask_vols) <= i32::MAX
            ==> r == Some(crate::internal::helpers::tdiv(sum5(bid_vols) + sum5(ask_vols), 10) as i32),
        !(sum5_fits(bid_vols) && sum5_fits(ask_vols)
            && i32::MIN <= sum5(bid_vols) + sum5(ask_vols) <= i32::MAX) ==> r is None,
{
    let b = match sum5_exec(bid_vols) {
        Some(b) => b,
        None => return None,
    };
    let a = match sum5_exec(ask_vols) {
        Some(a) => a,
        None => return None,
    };
    let t = b as i64 + a as i64;
    if t < -0x8000_0000 || t > 0x7fff_ffff {
        return None;
    }
    let t32 = t as i32;
    let q = t32 / 10;
    proof {
        if t32 >= 0 {
            assert(q == t32 as int / 10);
        } else {
            assert(q == -((-t32 as int) / 10));
        }
    }
    Some(q)
}

} // verus!
