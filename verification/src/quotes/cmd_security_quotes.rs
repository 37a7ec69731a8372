//! Real-time quotes of a list of securities (first protocol version).
use vstd::prelude::*;
use crate::exchange::classify::{assert_index_by_market_and_code, is_index_code};
use crate::internal::bytes::{le_u16, u16_le, copy_range, push_u16_le, read_u16_le};
use crate::internal::helpers::{
    Decoded, parse_list, list_progress, lemma_list_step, lemma_list_error, lemma_list_done, spec_time_from_int,
    time_from_int,
};
use crate::internal::text::{lossy_utf8, push_char, trim_end_nul, trim_end_nul_exec, utf8_lossy};
use crate::proto::{FLAG_NOT_ZIPPED, STD_MSG_SECURITY_QUOTES_OLD};
use crate::quotes::base_consts::QuotesError;
use crate::quotes::code_map::{
    CodeEntry, QuoteKey, Stock, build_entries, copy_string, drop_key, drop_key_exec, drop_live, entries, fix_codes, fix_one,
    fix_one_exec, fix_rest, key_of, quote_key, stock_entries,
};
use crate::quotes::fields::{Field, field_value_ok, fields_run, read_fields};
use crate::quotes::message::{Message, StdRequestHeader, StdResponseHeader, request_header_bytes};
use vstd::utf8::encode_utf8;

verus! {

pub const SECURITY_QUOTES_MAX: usize = 80;

/// Trading state of a security: delisted when both the open and the last
/// close are zero, suspended when only the open is.
#[derive(Debug, Clone, Copy, PartialEq, Eq, Structural)]
pub enum TradeState {
    Delisting,
    Normal,
    Suspend,
}

impl Default for TradeState {
    fn default() -> (r: Self)
        ensures
            r == TradeState::Normal,
    {
        TradeState::Normal
    }
}

impl TradeState {
    /// The protocol's number of the state.
    pub fn code(&self) -> (r: i32)
        ensures
            *self == TradeState::Delisting ==> r == 0,
            *self == TradeState::Normal ==> r == 1,
            *self == TradeState::Suspend ==> r == 2,
    {
        match self {
            TradeState::Delisting => 0,
            TradeState::Normal => 1,
            TradeState::Suspend => 2,
        }
    }
}

#[derive(Debug, Clone)]
pub struct SecurityQuotesRequest {
    pub stock_list: Vec<Stock>,
}

/// One quote. Prices are raw numerators, to be divided by the security's
/// price unit (a positive number, so a price is zero exactly when its
/// numerator is); `amount` is the raw packed amount that `int_to_f64`
/// decodes; `rate` is in hundredths. Volume at the open is left to the
/// caller, who knows the price unit.
#[derive(Debug, Clone)]
pub struct SecurityQuote {
    pub state: TradeState,
    pub market: u8,
    pub code: String,
    pub active1: u16,
    pub price: i32,
    pub last_close: i32,
    pub open: i32,
    pub high: i32,
    pub low: i32,
    pub server_time: String,
    pub reversed_bytes0: i32,
    pub reversed_bytes1: i32,
    pub vol: i32,
    pub cur_vol: i32,
    pub amount: i32,
    pub s_vol: i32,
    pub b_vol: i32,
    pub index_open_amount: i32,
    pub stock_open_amount: i32,
    pub index_up: i32,
    pub index_up_limit: i32,
    pub index_down: i32,
    pub index_down_limit: i32,
    pub bid1: i32,
    pub ask1: i32,
    pub bid_vol1: i32,
    pub ask_vol1: i32,
    pub bid2: i32,
    pub ask2: i32,
    pub bid_vol2: i32,
    pub ask_vol2: i32,
    pub bid3: i32,
    pub ask3: i32,
    pub bid_vol3: i32,
    pub ask_vol3: i32,
    pub bid4: i32,
    pub ask4: i32,
    pub bid_vol4: i32,
    pub ask_vol4: i32,
    pub bid5: i32,
    pub ask5: i32,
    pub bid_vol5: i32,
    pub ask_vol5: i32,
    pub reversed_bytes4: u16,
    pub reversed_bytes5: i32,
    pub reversed_bytes6: i32,
    pub reversed_bytes7: i32,
    pub reversed_bytes8: i32,
    pub rate: i16,
    pub active2: u16,
    pub timestamp: String,
}

impl Default for SecurityQuote {
    fn default() -> (r: Self)
        ensures
            r.state == TradeState::Normal,
            r.market == 0,
            r.code@.len() == 0,
            r.active1 == 0,
            r.price == 0,
            r.last_close == 0,
            r.open == 0,
            r.high == 0,
            r.low == 0,
            r.server_time@.len() == 0,
            r.reversed_bytes0 == 0,
            r.reversed_bytes1 == 0,
            r.vol == 0,
            r.cur_vol == 0,
            r.amount == 0,
            r.s_vol == 0,
            r.b_vol == 0,
            r.index_open_amount == 0,
            r.stock_open_amount == 0,
            r.index_up == 0,
            r.index_up_limit == 0,
            r.index_down == 0,
            r.index_down_limit == 0,
            r.bid1 == 0,
            r.ask1 == 0,
            r.bid_vol1 == 0,
            r.ask_vol1 == 0,
            r.bid2 == 0,
            r.ask2 == 0,
            r.bid_vol2 == 0,
            r.ask_vol2 == 0,
            r.bid3 == 0,
            r.ask3 == 0,
            r.bid_vol3 == 0,
            r.ask_vol3 == 0,
            r.bid4 == 0,
            r.ask4 == 0,
            r.bid_vol4 == 0,
            r.ask_vol4 == 0,
            r.bid5 == 0,
            r.ask5 == 0,
            r.bid_vol5 == 0,
            r.ask_vol5 == 0,
            r.reversed_bytes4 == 0,
            r.reversed_bytes5 == 0,
            r.reversed_bytes6 == 0,
            r.reversed_bytes7 == 0,
            r.reversed_bytes8 == 0,
            r.rate == 0,
            r.active2 == 0,
            r.timestamp@.len() == 0,
    {
        SecurityQuote {
            state: TradeState::Normal,
            market: 0,
            code: String::new(),
            active1: 0,
            price: 0,
            last_close: 0,
            open: 0,
            high: 0,
            low: 0,
            server_time: String::new(),
            reversed_bytes0: 0,
            reversed_bytes1: 0,
            vol: 0,
            cur_vol: 0,
            amount: 0,
            s_vol: 0,
            b_vol: 0,
            index_open_amount: 0,
            stock_open_amount: 0,
            index_up: 0,
            index_up_limit: 0,
            index_down: 0,
            index_down_limit: 0,
            bid1: 0,
            ask1: 0,
            bid_vol1: 0,
            ask_vol1: 0,
            bid2: 0,
            ask2: 0,
            bid_vol2: 0,
            ask_vol2: 0,
            bid3: 0,
            ask3: 0,
            bid_vol3: 0,
            ask_vol3: 0,
            bid4: 0,
            ask4: 0,
            bid_vol4: 0,
            ask_vol4: 0,
            bid5: 0,
            ask5: 0,
            bid_vol5: 0,
            ask_vol5: 0,
            reversed_bytes4: 0,
            reversed_bytes5: 0,
            reversed_bytes6: 0,
            reversed_bytes7: 0,
            reversed_bytes8: 0,
            rate: 0,
            active2: 0,
            timestamp: String::new(),
        }
    }
}

#[derive(Debug, Clone)]
pub struct SecurityQuotesReply {
    pub count: u16,
    pub list: Vec<SecurityQuote>,
}

/// The fields of a quote record, in wire order.
pub open spec fn q1_layout() -> Seq<Field> {
    seq![Field::Byte, Field::Code, Field::U16, Field::Varint, Field::Varint, Field::Varint, Field::Varint, Field::Varint, Field::Varint, Field::Varint, Field::Varint, Field::Varint, Field::U32, Field::Varint, Field::Varint, Field::Varint, Field::Varint, Field::Varint, Field::Varint, Field::Varint, Field::Varint, Field::Varint, Field::Varint, Field::Varint, Field::Varint, Field::Varint, Field::Varint, Field::Varint, Field::Varint, Field::Varint, Field::Varint, Field::Varint, Field::Varint, Field::Varint, Field::Varint, Field::Varint, Field::Varint, Field::U16, Field::Varint, Field::Varint, Field::Varint, Field::Varint, Field::I16, Field::Skip2, Field::U16]
}

fn q1_layout_vec() -> (r: Vec<Field>)
    ensures
        r@ == q1_layout(),
{
    let r = vec![Field::Byte, Field::Code, Field::U16, Field::Varint, Field::Varint, Field::Varint, Field::Varint, Field::Varint, Field::Varint, Field::Varint, Field::Varint, Field::Varint, Field::U32, Field::Varint, Field::Varint, Field::Varint, Field::Varint, Field::Varint, Field::Varint, Field::Varint, Field::Varint, Field::Varint, Field::Varint, Field::Varint, Field::Varint, Field::Varint, Field::Varint, Field::Varint, Field::Varint, Field::Varint, Field::Varint, Field::Varint, Field::Varint, Field::Varint, Field::Varint, Field::Varint, Field::Varint, Field::U16, Field::Varint, Field::Varint, Field::Varint, Field::Varint, Field::I16, Field::Skip2, Field::U16];
    assert(r@ =~= q1_layout());
    r
}

pub open spec fn out_of_i32(x: int) -> bool {
    x < i32::MIN || x > i32::MAX
}

/// The integer step taken right after field `j` is read overflows `i32`:
/// the last close, open, high and low (price plus change), the volume and
/// the two opening amounts (times 100), and the bid and ask prices (change
/// plus price).
pub open spec fn q1_op_overflows(v: Seq<int>, j: int) -> bool {
    if 4 <= j <= 7 {
        out_of_i32(v[3] + v[j])
    } else if j == 10 || j == 15 || j == 16 {
        out_of_i32(v[j] * 100)
    } else if 17 <= j <= 36 && (j - 17) % 4 < 2 {
        out_of_i32(v[j] + v[3])
    } else {
        false
    }
}

/// Some step taken after one of the first `n` fields overflows.
pub open spec fn q1_overflows(v: Seq<int>, n: int) -> bool {
    exists|j: int| 0 <= j < n && #[trigger] q1_op_overflows(v, j)
}

/// The quote record at `p`: its start and field values, or the error that
/// ends it, unless the reader's arithmetic overflows first.
#[verifier::opaque]
pub open spec fn q1_record(body: Seq<u8>, p: int) -> Decoded<((int, Seq<int>), ())> {
    let run = fields_run(body, p, q1_layout());
    match run.1 {
        Decoded::Value(vals, q) => if q1_overflows(vals, 45) {
            Decoded::Overflow
        } else {
            Decoded::Value(((p, vals), ()), q)
        },
        Decoded::Error(e) => if q1_overflows(run.0, run.0.len() as int) {
            Decoded::Overflow
        } else {
            Decoded::Error(e)
        },
        Decoded::Overflow => Decoded::Overflow,
    }
}

pub open spec fn q1_step(body: Seq<u8>) -> spec_fn(int, ()) -> Decoded<((int, Seq<int>), ())> {
    |p: int, u: ()| q1_record(body, p)
}

/// The records of a reply: two skipped bytes, a count, then the records.
pub open spec fn q1_records(body: Seq<u8>) -> (Seq<(int, Seq<int>)>, Decoded<()>) {
    parse_list(q1_step(body), 4, le_u16(body, 2) as nat, ())
}

/// The code of the record at `p` (cut at its trailing zero bytes).
pub open spec fn q1_code_text(body: Seq<u8>, p: int) -> Seq<char> {
    trim_end_nul(utf8_lossy(body.subrange(p + 1, p + 7)))
}

pub open spec fn trade_state_of(open: int, last_close: int) -> TradeState {
    if last_close == 0 && open == 0 {
        TradeState::Delisting
    } else if open == 0 {
        TradeState::Suspend
    } else {
        TradeState::Normal
    }
}

pub open spec fn q1_state(v: Seq<int>) -> TradeState {
    trade_state_of(v[3] + v[5], v[3] + v[4])
}

/// The server time text: the packed time when positive, `"0"` otherwise.
pub open spec fn server_time_text(t: int) -> Seq<char> {
    if t > 0 { spec_time_from_int(t as i32) } else { seq!['0'] }
}

/// The `i32` with the bits of a `u32`.
pub open spec fn u32_bits_as_i32(x: int) -> int {
    if x >= 0x8000_0000 { x - 0x1_0000_0000 } else { x }
}

/// The quote of the record at `p` with values `v`, its code and time stamp
/// aside. Index and block codes also report the up and down counts.
pub open spec fn q1_quote_fields(body: Seq<u8>, p: int, v: Seq<int>, q: SecurityQuote) -> bool {
    let idx = is_index_code(v[0] as u16, q1_code_text(body, p));
    &&& q.state == q1_state(v)
    &&& q.server_time@ == server_time_text(v[8])
    &&& q.market == v[0]
    &&& q.active1 == v[2]
    &&& q.price == v[3]
    &&& q.last_close == v[3] + v[4]
    &&& q.open == v[3] + v[5]
    &&& q.high == v[3] + v[6]
    &&& q.low == v[3] + v[7]
    &&& q.reversed_bytes0 == v[8]
    &&& q.reversed_bytes1 == v[9]
    &&& q.vol == v[10] * 100
    &&& q.cur_vol == v[11]
    &&& q.amount == u32_bits_as_i32(v[12])
    &&& q.s_vol == v[13]
    &&& q.b_vol == v[14]
    &&& q.index_open_amount == v[15] * 100
    &&& q.stock_open_amount == v[16] * 100
    &&& q.index_up == if idx { v[19] } else { 0 }
    &&& q.index_up_limit == if idx { v[23] } else { 0 }
    &&& q.index_down == if idx { v[20] } else { 0 }
    &&& q.index_down_limit == if idx { v[24] } else { 0 }
    &&& q.bid1 == v[17] + v[3]
    &&& q.ask1 == v[18] + v[3]
    &&& q.bid_vol1 == v[19]
    &&& q.ask_vol1 == v[20]
    &&& q.bid2 == v[21] + v[3]
    &&& q.ask2 == v[22] + v[3]
    &&& q.bid_vol2 == v[23]
    &&& q.ask_vol2 == v[24]
    &&& q.bid3 == v[25] + v[3]
    &&& q.ask3 == v[26] + v[3]
    &&& q.bid_vol3 == v[27]
    &&& q.ask_vol3 == v[28]
    &&& q.bid4 == v[29] + v[3]
    &&& q.ask4 == v[30] + v[3]
    &&& q.bid_vol4 == v[31]
    &&& q.ask_vol4 == v[32]
    &&& q.bid5 == v[33] + v[3]
    &&& q.ask5 == v[34] + v[3]
    &&& q.bid_vol5 == v[35]
    &&& q.ask_vol5 == v[36]
    &&& q.reversed_bytes4 == v[37]
    &&& q.reversed_bytes5 == v[38]
    &&& q.reversed_bytes6 == v[39]
    &&& q.reversed_bytes7 == v[40]
    &&& q.reversed_bytes8 == v[41]
    &&& q.rate == v[42]
    &&& q.active2 == v[44]
}

/// What the repair sees of the record.
pub open spec fn q1_key(body: Seq<u8>, r: (int, Seq<int>)) -> QuoteKey {
    QuoteKey { market: r.1[0] as u8, code: q1_code_text(body, r.0), delisting: q1_state(r.1) == TradeState::Delisting }
}

pub open spec fn q1_keys(body: Seq<u8>, recs: Seq<(int, Seq<int>)>) -> Seq<QuoteKey> {
    recs.map_values(|r: (int, Seq<int>)| q1_key(body, r))
}

/// The values as integers.
pub open spec fn ints(s: Seq<i64>) -> Seq<int> {
    s.map_values(|x: i64| x as int)
}

/// Whether a value, computed in `i64`, leaves `i32`.
pub(crate) fn leaves_i32(y: i64) -> (r: bool)
    ensures
        r == out_of_i32(y as int),
{
    y < -0x8000_0000 || y > 0x7fff_ffff
}

/// Whether some step after one of the first `n` fields of the values
/// overflows.
fn q1_overflows_exec(v: &Vec<i64>, n: usize) -> (r: bool)
    requires
        n <= v@.len(),
        n <= 45,
        forall|k: int| 0 <= k < n ==> field_value_ok(#[trigger] q1_layout()[k], v@[k] as int),
    ensures
        r == q1_overflows(ints(v@), n as int),
{
    let ghost vi = ints(v@);
    let mut j: usize = 0;
    while j < n
        invariant
            j <= n,
            n <= v@.len(),
            n <= 45,
            vi == ints(v@),
            forall|k: int| 0 <= k < n ==> field_value_ok(#[trigger] q1_layout()[k], v@[k] as int),
            forall|i: int| 0 <= i < j ==> !#[trigger] q1_op_overflows(vi, i),
        decreases n - j,
    {
        assert(vi[j as int] == v@[j as int] as int);
        assert(field_value_ok(q1_layout()[j as int], v@[j as int] as int));
        let x = v[j];
        let o = if 4 <= j && j <= 7 {
            assert(vi[3] == v@[3] as int);
            assert(field_value_ok(q1_layout()[3], v@[3] as int));
            leaves_i32(v[3] + x)
        } else if j == 10 || j == 15 || j == 16 {
            leaves_i32(x * 100)
        } else if 17 <= j && j <= 36 && (j - 17) % 4 < 2 {
            assert(vi[3] == v@[3] as int);
            assert(field_value_ok(q1_layout()[3], v@[3] as int));
            leaves_i32(x + v[3])
        } else {
            false
        };
        if o {
            assert(q1_op_overflows(vi, j as int));
            return true;
        }
        assert(!q1_op_overflows(vi, j as int));
        j = j + 1;
    }
    false
}

/// Reads the record at `*pos`.
fn read_q1_record(body: &[u8], pos: &mut usize) -> (r: Result<Vec<i64>, QuotesError>)
    requires
        *old(pos) <= body@.len(),
        body@.len() + 256 <= usize::MAX,
    ensures
        match q1_record(body@, *old(pos) as int) {
            Decoded::Value(rv, q) => r is Ok && ints(r.unwrap()@) == rv.0.1 && rv.0.0 == *old(pos)
                && *final(pos) == q && q <= body@.len() && q1_rec_ok(body@, *old(pos) as int, r.unwrap()@),
            Decoded::Error(e) => r == Err::<Vec<i64>, QuotesError>(e),
            Decoded::Overflow => r == Err::<Vec<i64>, QuotesError>(QuotesError::Overflow),
        },
{
    reveal(q1_record);
    let layout = q1_layout_vec();
    let mut v: Vec<i64> = Vec::new();
    let r = read_fields(body, pos, &layout, &mut v);
    let ghost run = fields_run(body@, *old(pos) as int, q1_layout());
    assert(ints(v@) =~= run.0);
    let over = q1_overflows_exec(&v, v.len());
    match r {
        Ok(()) => {
            proof {
                if let Decoded::Value(vals, q) = run.1 {
                    assert(q1_layout().last() == Field::U16);
                    assert(ints(v@) =~= vals);
                }
            }
            if over {
                return Err(QuotesError::Overflow);
            }
            proof {
                lemma_q1_record_code(body@, *old(pos) as int);
            }
            Ok(v)
        },
        Err(e) => {
            if over {
                Err(QuotesError::Overflow)
            } else {
                Err(e)
            }
        },
    }
}

/// The code text of the record at `p`.
fn q1_code_string(body: &[u8], p: usize) -> (r: String)
    requires
        p + 7 <= body@.len(),
        body@.len() + 256 <= usize::MAX,
    ensures
        r@ == q1_code_text(body@, p as int),
{
    let b = copy_range(body, p + 1, p + 7);
    trim_end_nul_exec(&lossy_utf8(b.as_slice()))
}

fn server_time_string(t: i64) -> (r: String)
    requires
        i32::MIN <= t <= i32::MAX,
    ensures
        r@ == server_time_text(t as int),
{
    if t > 0 {
        time_from_int(t as i32)
    } else {
        let mut s = String::new();
        push_char(&mut s, '0');
        s
    }
}

fn trade_state(open: i64, last_close: i64) -> (r: TradeState)
    ensures
        r == trade_state_of(open as int, last_close as int),
{
    if last_close == 0 && open == 0 {
        TradeState::Delisting
    } else if open == 0 {
        TradeState::Suspend
    } else {
        TradeState::Normal
    }
}

/// Builds the quote of a record with the given code and time stamp.
#[verifier::rlimit(60)]
fn q1_build(body: &[u8], p: usize, v: &Vec<i64>, code: String, timestamp: &String) -> (q: SecurityQuote)
    requires
        p + 7 <= body@.len(),
        body@.len() + 256 <= usize::MAX,
        v@.len() == 45,
        forall|k: int| 0 <= k < 45 ==> field_value_ok(#[trigger] q1_layout()[k], v@[k] as int),
        !q1_overflows(ints(v@), 45),
    ensures
        q1_quote_fields(body@, p as int, ints(v@), q),
        q.code@ == code@,
        q.timestamp@ == timestamp@,
{
    let ghost vi = ints(v@);
    proof {
        assert forall|k: int| 0 <= k < 45 implies field_value_ok(#[trigger] q1_layout()[k], vi[k]) by {
            assert(vi[k] == v@[k] as int);
        }
        assert forall|j: int| 0 <= j < 45 implies !#[trigger] q1_op_overflows(vi, j) by {}
        assert(q1_layout()[0] == Field::Byte);
        assert(q1_layout()[2] == Field::U16);
        assert(q1_layout()[12] == Field::U32);
        assert(q1_layout()[37] == Field::U16);
        assert(q1_layout()[42] == Field::I16);
        assert(q1_layout()[44] == Field::U16);
        assert forall|k: int| 3 <= k < 45 && k != 12 && k != 37 && k != 42 && k != 43 && k != 44
            implies q1_layout()[k] == Field::Varint by {}
        assert(!q1_op_overflows(vi, 4) && !q1_op_overflows(vi, 5) && !q1_op_overflows(vi, 6));
        assert(!q1_op_overflows(vi, 7) && !q1_op_overflows(vi, 10) && !q1_op_overflows(vi, 15));
        assert(!q1_op_overflows(vi, 16) && !q1_op_overflows(vi, 17) && !q1_op_overflows(vi, 18));
        assert(!q1_op_overflows(vi, 21) && !q1_op_overflows(vi, 22) && !q1_op_overflows(vi, 25));
        assert(!q1_op_overflows(vi, 26) && !q1_op_overflows(vi, 29) && !q1_op_overflows(vi, 30));
        assert(!q1_op_overflows(vi, 33) && !q1_op_overflows(vi, 34));
    }
    let code_text = q1_code_string(body, p);
    let idx = assert_index_by_market_and_code(v[0] as u16, code_text.as_str());
    let state = trade_state(v[3] + v[5], v[3] + v[4]);
    let server_time = server_time_string(v[8]);
    SecurityQuote {
        state,
        code,
        server_time,
        timestamp: copy_string(timestamp),
        market: v[0] as u8,
        active1: v[2] as u16,
        price: v[3] as i32,
        last_close: (v[3] + v[4]) as i32,
        open: (v[3] + v[5]) as i32,
        high: (v[3] + v[6]) as i32,
        low: (v[3] + v[7]) as i32,
        reversed_bytes0: v[8] as i32,
        reversed_bytes1: v[9] as i32,
        vol: (v[10] * 100) as i32,
        cur_vol: v[11] as i32,
        amount: if v[12] >= 0x8000_0000 { (v[12] - 0x1_0000_0000) as i32 } else { v[12] as i32 },
        s_vol: v[13] as i32,
        b_vol: v[14] as i32,
        index_open_amount: (v[15] * 100) as i32,
        stock_open_amount: (v[16] * 100) as i32,
        index_up: if idx { v[19] as i32 } else { 0 },
        index_up_limit: if idx { v[23] as i32 } else { 0 },
        index_down: if idx { v[20] as i32 } else { 0 },
        index_down_limit: if idx { v[24] as i32 } else { 0 },
        bid1: (v[17] + v[3]) as i32,
        ask1: (v[18] + v[3]) as i32,
        bid_vol1: v[19] as i32,
        ask_vol1: v[20] as i32,
        bid2: (v[21] + v[3]) as i32,
        ask2: (v[22] + v[3]) as i32,
        bid_vol2: v[23] as i32,
        ask_vol2: v[24] as i32,
        bid3: (v[25] + v[3]) as i32,
        ask3: (v[26] + v[3]) as i32,
        bid_vol3: v[27] as i32,
        ask_vol3: v[28] as i32,
        bid4: (v[29] + v[3]) as i32,
        ask4: (v[30] + v[3]) as i32,
        bid_vol4: v[31] as i32,
        ask_vol4: v[32] as i32,
        bid5: (v[33] + v[3]) as i32,
        ask5: (v[34] + v[3]) as i32,
        bid_vol5: v[35] as i32,
        ask_vol5: v[36] as i32,
        reversed_bytes4: v[37] as u16,
        reversed_bytes5: v[38] as i32,
        reversed_bytes6: v[39] as i32,
        reversed_bytes7: v[40] as i32,
        reversed_bytes8: v[41] as i32,
        rate: v[42] as i16,
        active2: v[44] as u16,
    }
}

/// The six code bytes a request carries: the code's UTF-8 bytes, cut to
/// six or padded with zeros.
pub open spec fn code6(code: Seq<char>) -> Seq<u8> {
    let b = encode_utf8(code);
    if b.len() >= 6 { b.take(6) } else { b + Seq::new((6 - b.len()) as nat, |i: int| 0u8) }
}

/// Market byte and code bytes of each stock, in order.
pub open spec fn stocks_bytes(stocks: Seq<(u8, Seq<char>)>) -> Seq<u8>
    decreases stocks.len(),
{
    if stocks.len() == 0 {
        Seq::empty()
    } else {
        stocks_bytes(stocks.drop_last()) + seq![stocks.last().0] + code6(stocks.last().1)
    }
}

pub open spec fn stock_views(stocks: Seq<Stock>) -> Seq<(u8, Seq<char>)> {
    stocks.map_values(|s: Stock| (s.market, s.code@))
}

/// Appends the market byte and code bytes of each stock.
pub fn push_stocks(out: &mut Vec<u8>, stocks: &Vec<Stock>)
    ensures
        final(out)@ == old(out)@ + stocks_bytes(stock_views(stocks@)),
{
    let ghost sv = stock_views(stocks@);
    let mut i: usize = 0;
    assert(old(out)@ + stocks_bytes(sv.take(0)) =~= old(out)@);
    while i < stocks.len()
        invariant
            i <= stocks@.len(),
            sv == stock_views(stocks@),
            out@ == old(out)@ + stocks_bytes(sv.take(i as int)),
        decreases stocks.len() - i,
    {
        let s = &stocks[i];
        let ghost before = out@;
        out.push(s.market);
        let bytes = s.code.as_str().as_bytes();
        let n: usize = if bytes.len() < 6 { bytes.len() } else { 6 };
        let mut k: usize = 0;
        while k < n
            invariant
                k <= n <= bytes@.len(),
                n <= 6,
                out@ == before.push(s.market) + bytes@.take(k as int),
            decreases n - k,
        {
            out.push(bytes[k]);
            assert(bytes@.take(k + 1) == bytes@.take(k as int).push(bytes@[k as int]));
            k = k + 1;
        }
        let mut z: usize = n;
        while z < 6
            invariant
                n <= z <= 6,
                out@ == before.push(s.market) + bytes@.take(n as int) + Seq::new((z - n) as nat, |j: int| 0u8),
            decreases 6 - z,
        {
            out.push(0u8);
            assert(Seq::new((z + 1 - n) as nat, |j: int| 0u8) == Seq::new((z - n) as nat, |j: int| 0u8).push(0u8));
            z = z + 1;
        }
        proof {
            let b = encode_utf8(s.code@);
            assert(bytes@ == b);
            if b.len() >= 6 {
                assert(Seq::new(0, |j: int| 0u8) + Seq::<u8>::empty() =~= Seq::<u8>::empty());
                assert(bytes@.take(6) + Seq::new(0, |j: int| 0u8) =~= code6(s.code@));
            } else {
                assert(bytes@.take(n as int) =~= b);
            }
            assert(sv.take(i + 1).drop_last() == sv.take(i as int));
            assert(sv.take(i + 1).last() == (s.market, s.code@));
            assert(out@ =~= before + (seq![s.market] + code6(s.code@)));
        }
        i = i + 1;
    }
    assert(sv.take(sv.len() as int) == sv);
}

pub struct SecurityQuotesPackage {
    pub req_header: StdRequestHeader,
    pub request: SecurityQuotesRequest,
    pub resp_header: Option<StdResponseHeader>,
    pub reply: SecurityQuotesReply,
    /// The requested stocks not yet seen in a reply, under their keys.
    pub map_code: Vec<CodeEntry>,
    /// The time stamp the quotes of the next reply carry, in milliseconds
    /// since the epoch, as text.
    pub timestamp: String,
}

impl SecurityQuotesPackage {
    pub fn new() -> (r: Result<Self, QuotesError>)
        ensures
            r is Ok,
            r.unwrap().req_header == (StdRequestHeader {
                zip_flag: FLAG_NOT_ZIPPED, seq_id: 0, packet_type: 0x01, pkg_len1: 0, pkg_len2: 0,
                method: STD_MSG_SECURITY_QUOTES_OLD,
            }),
            r.unwrap().request.stock_list@.len() == 0,
            r.unwrap().resp_header is None,
            r.unwrap().reply.count == 0,
            r.unwrap().reply.list@.len() == 0,
            r.unwrap().map_code@.len() == 0,
    {
        Ok(Self {
            req_header: StdRequestHeader {
                zip_flag: FLAG_NOT_ZIPPED, seq_id: 0, packet_type: 0x01, pkg_len1: 0, pkg_len2: 0,
                method: STD_MSG_SECURITY_QUOTES_OLD,
            },
            request: SecurityQuotesRequest { stock_list: Vec::new() },
            resp_header: None,
            reply: SecurityQuotesReply { count: 0, list: Vec::new() },
            map_code: Vec::new(),
            timestamp: String::new(),
        })
    }

    /// Takes the request and keys its stocks by market flag and code.
    pub fn set_params(&mut self, request: SecurityQuotesRequest)
        ensures
            final(self).request == request,
            entries(final(self).map_code@) == stock_entries(stock_views(request.stock_list@)),
            final(self).req_header == old(self).req_header,
            final(self).reply == old(self).reply,
            final(self).resp_header == old(self).resp_header,
            final(self).timestamp == old(self).timestamp,
    {
        self.map_code = build_entries(&request.stock_list);
        self.request = request;
    }

    /// Sets the time stamp of the next reply's quotes.
    pub fn set_timestamp(&mut self, timestamp: String)
        ensures
            final(self).timestamp == timestamp,
            final(self).request == old(self).request,
            final(self).map_code == old(self).map_code,
            final(self).req_header == old(self).req_header,
            final(self).reply == old(self).reply,
            final(self).resp_header == old(self).resp_header,
    {
        self.timestamp = timestamp;
    }
}

/// Declared length of a request for `n` stocks.
pub open spec fn quotes_payload_len(n: int) -> int {
    2 + n * 7 + 10
}

/// The request bytes for the stocks under the given header.
pub open spec fn quotes_request_bytes(h: StdRequestHeader, stocks: Seq<(u8, Seq<char>)>) -> Seq<u8> {
    request_header_bytes(h) + seq![0x05u8, 0, 0, 0, 0, 0, 0, 0] + u16_le(stocks.len() as u16) + stocks_bytes(stocks)
}

/// Whether a quotes request may carry the given number of stocks: at least
/// one and at most eighty.
pub fn check_stock_count(n: usize) -> (r: Result<(), QuotesError>)
    ensures
        n == 0 ==> r == Err::<(), QuotesError>(QuotesError::EmptyRequest),
        n > SECURITY_QUOTES_MAX ==> r == Err::<(), QuotesError>(QuotesError::TooManyStocks),
        0 < n <= SECURITY_QUOTES_MAX ==> r == Ok::<(), QuotesError>(()),
{
    if n == 0 {
        Err(QuotesError::EmptyRequest)
    } else if n > SECURITY_QUOTES_MAX {
        Err(QuotesError::TooManyStocks)
    } else {
        Ok(())
    }
}

/// Serializes a quotes request: at least one and at most eighty stocks.
pub fn serialize_quotes(req_header: &mut StdRequestHeader, stocks: &Vec<Stock>, seq_id: u32) -> (r: Result<Vec<u8>, QuotesError>)
    ensures
        stocks@.len() == 0 ==> r == Err::<Vec<u8>, QuotesError>(QuotesError::EmptyRequest)
            && *final(req_header) == *old(req_header),
        stocks@.len() > SECURITY_QUOTES_MAX ==> r == Err::<Vec<u8>, QuotesError>(QuotesError::TooManyStocks)
            && *final(req_header) == *old(req_header),
        0 < stocks@.len() <= SECURITY_QUOTES_MAX ==> {
            &&& *final(req_header) == (StdRequestHeader {
                seq_id,
                pkg_len1: quotes_payload_len(stocks@.len() as int) as u16,
                pkg_len2: quotes_payload_len(stocks@.len() as int) as u16,
                ..*old(req_header)
            })
            &&& r is Ok
            &&& r.unwrap()@ == quotes_request_bytes(*final(req_header), stock_views(stocks@))
        },
{
    if let Err(e) = check_stock_count(stocks.len()) {
        return Err(e);
    }
    let n = stocks.len() as u16;
    let payload_len: u16 = 2 + n * 7 + 10;
    req_header.seq_id = seq_id;
    req_header.pkg_len1 = payload_len;
    req_header.pkg_len2 = payload_len;
    let mut out = req_header.to_bytes().unwrap();
    let ghost h = out@;
    out.push(0x05);
    out.push(0);
    out.push(0);
    out.push(0);
    out.push(0);
    out.push(0);
    out.push(0);
    out.push(0);
    push_u16_le(&mut out, n);
    let ghost mid = out@;
    push_stocks(&mut out, stocks);
    assert(mid =~= h + seq![0x05u8, 0, 0, 0, 0, 0, 0, 0] + u16_le(n));
    assert(stock_views(stocks@).len() == stocks@.len());
    Ok(out)
}

/// A record that was read in full starts with its market byte and code.
proof fn lemma_q1_record_code(body: Seq<u8>, p: int)
    requires
        q1_record(body, p) is Value,
    ensures
        p + 7 <= body.len(),
{
    reveal(q1_record);
    let l = q1_layout();
    let step = crate::quotes::fields::field_step(body, l);
    let e: Seq<int> = Seq::empty();
    assert(l[0] == Field::Byte && l[1] == Field::Code);
    match step(p, e) {
        Decoded::Value(r0, p1) => {
            assert(p1 == p + 1);
            match step(p1, r0.1) {
                Decoded::Value(r1, p2) => {
                    assert(r0.1.len() == 1);
                    assert(p2 == p1 + 6 && p1 + 6 <= body.len());
                },
                _ => {
                    assert(parse_list(step, p1, (l.len() - 1) as nat, r0.1).1 is Error
                        || parse_list(step, p1, (l.len() - 1) as nat, r0.1).1 is Overflow);
                },
            }
        },
        _ => {},
    }
}

/// A record read at `start` with values `v`, ready to be turned into a
/// quote.
pub open spec fn q1_rec_ok(body: Seq<u8>, start: int, v: Seq<i64>) -> bool {
    &&& start + 7 <= body.len()
    &&& v.len() == 45
    &&& !q1_overflows(ints(v), 45)
    &&& forall|k: int| 0 <= k < 45 ==> field_value_ok(#[trigger] q1_layout()[k], v[k] as int)
}

/// Reads the records of a reply: their starts and values, and how reading
/// ended.
fn read_q1_records(body: &[u8], count: u16, starts: &mut Vec<usize>, recs: &mut Vec<Vec<i64>>) -> (res: Result<(), QuotesError>)
    requires
        old(starts)@.len() == 0,
        old(recs)@.len() == 0,
        body@.len() >= 4,
        body@.len() + 256 <= usize::MAX,
        count == le_u16(body@, 2),
    ensures
        final(starts)@.len() == q1_records(body@).0.len(),
        final(recs)@.len() == q1_records(body@).0.len(),
        forall|i: int| 0 <= i < final(starts)@.len() ==> {
            &&& #[trigger] final(starts)@[i] == q1_records(body@).0[i].0
            &&& ints(final(recs)@[i]@) == q1_records(body@).0[i].1
            &&& q1_rec_ok(body@, final(starts)@[i] as int, final(recs)@[i]@)
        },
        match q1_records(body@).1 {
            Decoded::Value(_, _) => res is Ok,
            Decoded::Error(e) => res == Err::<(), QuotesError>(e),
            Decoded::Overflow => res == Err::<(), QuotesError>(QuotesError::Overflow),
        },
{
    let ghost step = q1_step(body@);
    let ghost full = q1_records(body@);
    let ghost mut acc: Seq<(int, Seq<int>)> = Seq::empty();
    let mut pos: usize = 4;
    let mut i: u16 = 0;
    while i < count
        invariant
            i <= count,
            count == le_u16(body@, 2),
            pos <= body@.len(),
            body@.len() + 256 <= usize::MAX,
            step == q1_step(body@),
            full == q1_records(body@),
            full == parse_list(step, 4, count as nat, ()),
            acc.len() == starts@.len(),
            acc.len() == recs@.len(),
            forall|j: int| 0 <= j < acc.len() ==> {
                &&& #[trigger] starts@[j] == acc[j].0
                &&& ints(recs@[j]@) == acc[j].1
                &&& q1_rec_ok(body@, starts@[j] as int, recs@[j]@)
            },
            list_progress(step, full, acc, pos as int, (count - i) as nat, ()),
        decreases count - i,
    {
        let ghost p0 = pos as int;
        proof {
            if !(step(p0, ()) is Value) {
                lemma_list_error(step, full, acc, p0, (count - i) as nat, ());
            }
        }
        let start = pos;
        match read_q1_record(body, &mut pos) {
            Ok(v) => {
                proof {
                    lemma_q1_record_code(body@, p0);
                    let rv = (p0, ints(v@));
                    lemma_list_step(step, full, acc, p0, (count - i) as nat, (), rv, (), pos as int);
                    acc = acc.push(rv);
                }
                starts.push(start);
                recs.push(v);
            },
            Err(e) => {
                return Err(e);
            },
        }
        i = i + 1;
    }
    proof { lemma_list_done(step, full, acc, pos as int, ()); }
    Ok(())
}

/// What the repair sees of a record.
fn q1_key_parts(body: &[u8], start: usize, v: &Vec<i64>) -> (r: (u8, String, bool))
    requires
        q1_rec_ok(body@, start as int, v@),
        body@.len() + 256 <= usize::MAX,
    ensures
        (QuoteKey { market: r.0, code: r.1@, delisting: r.2 }) == q1_key(body@, (start as int, ints(v@))),
{
    let ghost vi = ints(v@);
    assert(vi[0] == v@[0] as int && vi[3] == v@[3] as int && vi[4] == v@[4] as int && vi[5] == v@[5] as int);
    assert(q1_layout()[0] == Field::Byte && q1_layout()[3] == Field::Varint);
    assert(q1_layout()[4] == Field::Varint && q1_layout()[5] == Field::Varint);
    assert(field_value_ok(q1_layout()[0], v@[0] as int));
    let code = q1_code_string(body, start);
    let state = trade_state(v[3] + v[5], v[3] + v[4]);
    (v[0] as u8, code, state == TradeState::Delisting)
}

/// Builds the quotes of the records with the given codes.
fn q1_build_all(body: &[u8], starts: &Vec<usize>, recs: &Vec<Vec<i64>>, codes: &Vec<String>, timestamp: &String) -> (r: Vec<SecurityQuote>)
    requires
        starts@.len() == recs@.len(),
        codes@.len() == recs@.len(),
        body@.len() + 256 <= usize::MAX,
        forall|i: int| 0 <= i < starts@.len() ==> q1_rec_ok(body@, #[trigger] starts@[i] as int, recs@[i]@),
    ensures
        r@.len() == recs@.len(),
        forall|i: int| 0 <= i < r@.len() ==> {
            &&& q1_quote_fields(body@, starts@[i] as int, ints(recs@[i]@), #[trigger] r@[i])
            &&& r@[i].code@ == codes@[i]@
            &&& r@[i].timestamp@ == timestamp@
        },
{
    let mut out: Vec<SecurityQuote> = Vec::new();
    let mut i: usize = 0;
    while i < recs.len()
        invariant
            i <= recs@.len(),
            starts@.len() == recs@.len(),
            codes@.len() == recs@.len(),
            body@.len() + 256 <= usize::MAX,
            forall|j: int| 0 <= j < starts@.len() ==> q1_rec_ok(body@, #[trigger] starts@[j] as int, recs@[j]@),
            out@.len() == i,
            forall|j: int| 0 <= j < i ==> {
                &&& q1_quote_fields(body@, starts@[j] as int, ints(recs@[j]@), #[trigger] out@[j])
                &&& out@[j].code@ == codes@[j]@
                &&& out@[j].timestamp@ == timestamp@
            },
        decreases recs.len() - i,
    {
        assert(q1_rec_ok(body@, starts@[i as int] as int, recs@[i as int]@));
        let q = q1_build(body, starts[i], &recs[i], copy_string(&codes[i]), timestamp);
        out.push(q);
        i = i + 1;
    }
    out
}

impl Message for SecurityQuotesPackage {
    open spec fn accepts(&self, body: Seq<u8>) -> bool {
        body.len() + 256 <= usize::MAX
    }

    /// Header, eight fixed bytes, the number of stocks and each stock's
    /// market and code; no stock, or more than eighty, is an error.
    fn serialize(&mut self, seq_id: u32) -> (r: Result<Vec<u8>, QuotesError>)
        ensures
            old(self).request.stock_list@.len() == 0 ==> r == Err::<Vec<u8>, QuotesError>(QuotesError::EmptyRequest)
                && final(self).req_header == old(self).req_header,
            old(self).request.stock_list@.len() > SECURITY_QUOTES_MAX
                ==> r == Err::<Vec<u8>, QuotesError>(QuotesError::TooManyStocks)
                && final(self).req_header == old(self).req_header,
            0 < old(self).request.stock_list@.len() <= SECURITY_QUOTES_MAX ==> {
                let n = old(self).request.stock_list@.len() as int;
                &&& final(self).req_header == (StdRequestHeader {
                    seq_id,
                    pkg_len1: quotes_payload_len(n) as u16,
                    pkg_len2: quotes_payload_len(n) as u16,
                    ..old(self).req_header
                })
                &&& r is Ok
                &&& r.unwrap()@ == quotes_request_bytes(final(self).req_header, stock_views(old(self).request.stock_list@))
            },
            final(self).request == old(self).request,
            final(self).reply == old(self).reply,
            final(self).resp_header == old(self).resp_header,
            final(self).map_code == old(self).map_code,
            final(self).timestamp == old(self).timestamp,
    {
        serialize_quotes(&mut self.req_header, &self.request.stock_list, seq_id)
    }

    /// Two skipped bytes, a count, then the records. Each quote that is not
    /// delisted takes its stock out of the requested ones; when every record
    /// was read, delisted quotes then have their codes repaired from the
    /// stocks left, and none are left after. Quotes read before an error are
    /// kept, unrepaired.
    fn unserialize(&mut self, header: &StdResponseHeader, body: &[u8]) -> (r: Result<(), QuotesError>)
        ensures
            final(self).resp_header == Some(*header),
            final(self).request == old(self).request,
            final(self).req_header == old(self).req_header,
            final(self).timestamp == old(self).timestamp,
            body@.len() < 4 ==> r == Err::<(), QuotesError>(QuotesError::ResponseTooShort)
                && final(self).reply == old(self).reply && final(self).map_code == old(self).map_code,
            body@.len() >= 4 ==> {
                let recs = q1_records(body@);
                let qs = q1_keys(body@, recs.0);
                let m1 = drop_live(entries(old(self).map_code@), qs);
                &&& final(self).reply.count == le_u16(body@, 2)
                &&& final(self).reply.list@.len() == recs.0.len()
                &&& forall|i: int| 0 <= i < recs.0.len() ==> {
                    &&& q1_quote_fields(body@, recs.0[i].0, recs.0[i].1, #[trigger] final(self).reply.list@[i])
                    &&& final(self).reply.list@[i].timestamp@ == old(self).timestamp@
                }
                &&& match recs.1 {
                    Decoded::Value(_, _) => {
                        &&& r is Ok
                        &&& final(self).map_code@.len() == 0
                        &&& forall|i: int| 0 <= i < recs.0.len()
                            ==> #[trigger] final(self).reply.list@[i].code@ == fix_codes(qs, m1)[i]
                    },
                    _ => {
                        &&& r == Err::<(), QuotesError>(recs.1.error_of())
                        &&& entries(final(self).map_code@) == m1
                        &&& forall|i: int| 0 <= i < recs.0.len() ==> #[trigger] final(self).reply.list@[i].code@ == qs[i].code
                    },
                }
            },
    {
        self.resp_header = Some(*header);
        if body.len() < 4 {
            return Err(QuotesError::ResponseTooShort);
        }
        let count = read_u16_le(body, 2);
        self.reply.count = count;
        let mut starts: Vec<usize> = Vec::new();
        let mut recs: Vec<Vec<i64>> = Vec::new();
        let res = read_q1_records(body, count, &mut starts, &mut recs);
        let ghost parsed = q1_records(body@);
        assert(starts@.len() == parsed.0.len());
        assert(forall|j: int| 0 <= j < starts@.len() ==> #[trigger] starts@[j] == parsed.0[j].0);
        assert forall|j: int| 0 <= j < starts@.len() implies {
            &&& #[trigger] starts@[j] == parsed.0[j].0
            &&& ints(recs@[j]@) == parsed.0[j].1
            &&& q1_rec_ok(body@, starts@[j] as int, recs@[j]@)
        } by {
            assert(starts@[j] == parsed.0[j].0);
        }
        let ghost qs = q1_keys(body@, parsed.0);
        let ghost m0 = entries(self.map_code@);
        let n = recs.len();
        assert(recs@.len() == parsed.0.len());
        assert(starts@.len() == parsed.0.len());
        assert forall|j: int| 0 <= j < n implies {
            &&& #[trigger] starts@[j] == parsed.0[j].0
            &&& ints(recs@[j]@) == parsed.0[j].1
            &&& q1_rec_ok(body@, starts@[j] as int, recs@[j]@)
        } by {
            assert(j < starts@.len());
            assert(starts@[j] == parsed.0[j].0);
            assert(ints(recs@[j]@) == parsed.0[j].1);
        }
        // The parsed codes, and each quote that is not delisted takes its stock out.
        let mut codes: Vec<String> = Vec::new();
        let mut markets: Vec<u8> = Vec::new();
        let mut delisted: Vec<bool> = Vec::new();
        let mut i: usize = 0;
        while i < n
            invariant
                i <= n,
                n == recs@.len(),
                starts@.len() == n,
                parsed == q1_records(body@),
                parsed.0.len() == n,
                qs == q1_keys(body@, parsed.0),
                body@.len() + 256 <= usize::MAX,
                forall|j: int| 0 <= j < n ==> {
                    &&& #[trigger] starts@[j] == parsed.0[j].0
                    &&& ints(recs@[j]@) == parsed.0[j].1
                    &&& q1_rec_ok(body@, starts@[j] as int, recs@[j]@)
                },
                codes@.len() == i && markets@.len() == i && delisted@.len() == i,
                forall|j: int| 0 <= j < i ==> (QuoteKey { market: markets@[j], code: codes@[j]@, delisting: delisted@[j] })
                    == #[trigger] qs[j],
                entries(self.map_code@) == drop_live(m0, qs.take(i as int)),
                self.resp_header == Some(*header),
                self.request == old(self).request,
                self.req_header == old(self).req_header,
                self.timestamp == old(self).timestamp,
                self.reply.count == le_u16(body@, 2),
            decreases n - i,
        {
            assert(starts@[i as int] == parsed.0[i as int].0);
            let (mk, code, del) = q1_key_parts(body, starts[i], &recs[i]);
            assert(qs[i as int] == q1_key(body@, parsed.0[i as int]));
            if !del {
                let key = key_of(mk, &code);
                drop_key_exec(&mut self.map_code, &key);
            }
            assert(qs.take(i + 1).drop_last() == qs.take(i as int));
            assert(qs.take(i + 1).last() == qs[i as int]);
            codes.push(code);
            markets.push(mk);
            delisted.push(del);
            i = i + 1;
        }
        assert(qs.take(n as int) == qs);
        let ghost m1 = entries(self.map_code@);
        if let Err(e) = res {
            self.reply.list = q1_build_all(body, &starts, &recs, &codes, &self.timestamp);
            return Err(e);
        }
        // Delisted quotes have their codes repaired from the stocks left.
        let mut fixed: Vec<String> = Vec::new();
        let mut i: usize = 0;
        assert(qs.skip(0) == qs);
        assert(fixed@.map_values(|c: String| c@) + fix_codes(qs, m1) =~= fix_codes(qs, m1));
        while i < n
            invariant
                i <= n,
                qs.len() == n,
                codes@.len() == n && markets@.len() == n && delisted@.len() == n,
                forall|j: int| 0 <= j < n ==> (QuoteKey { market: markets@[j], code: codes@[j]@, delisting: delisted@[j] })
                    == #[trigger] qs[j],
                fixed@.len() == i,
                fix_codes(qs, m1) == fixed@.map_values(|c: String| c@) + fix_codes(qs.skip(i as int), entries(self.map_code@)),
                self.resp_header == Some(*header),
                self.request == old(self).request,
                self.req_header == old(self).req_header,
                self.timestamp == old(self).timestamp,
                self.reply.count == le_u16(body@, 2),
            decreases n - i,
        {
            let ghost m = entries(self.map_code@);
            let ghost before = fixed@.map_values(|c: String| c@);
            assert(qs.skip(i as int)[0] == qs[i as int]);
            assert(qs.skip(i as int).drop_first() == qs.skip(i + 1));
            let c = fix_one_exec(&mut self.map_code, markets[i], &codes[i], delisted[i]);
            fixed.push(c);
            assert(fixed@.map_values(|c: String| c@) == before.push(fix_one(qs[i as int], m).0));
            assert(before.push(fix_one(qs[i as int], m).0) + fix_codes(qs.skip(i + 1), fix_one(qs[i as int], m).1)
                =~= before + fix_codes(qs.skip(i as int), m));
            i = i + 1;
        }
        assert(fix_codes(qs.skip(n as int), entries(self.map_code@)) =~= Seq::<Seq<char>>::empty());
        assert(fixed@.map_values(|c: String| c@) + Seq::<Seq<char>>::empty() =~= fixed@.map_values(|c: String| c@));
        self.reply.list = q1_build_all(body, &starts, &recs, &fixed, &self.timestamp);
        self.map_code = Vec::new();
        Ok(())
    }
}

pub fn new_security_quotes() -> (r: Result<SecurityQuotesPackage, QuotesError>)
    ensures
        r is Ok,
        r.unwrap().req_header.method == STD_MSG_SECURITY_QUOTES_OLD,
        r.unwrap().reply.list@.len() == 0,
{
    SecurityQuotesPackage::new()
}

/// Level `k` (0 for the best, up to 4) of a quote's order book: bid price,
/// ask price, bid volume and ask volume.
pub open spec fn book_level(q: SecurityQuote, k: int) -> (int, int, int, int) {
    if k == 0 {
        (q.bid1 as int, q.ask1 as int, q.bid_vol1 as int, q.ask_vol1 as int)
    } else if k == 1 {
        (q.bid2 as int, q.ask2 as int, q.bid_vol2 as int, q.ask_vol2 as int)
    } else if k == 2 {
        (q.bid3 as int, q.ask3 as int, q.bid_vol3 as int, q.ask_vol3 as int)
    } else if k == 3 {
        (q.bid4 as int, q.ask4 as int, q.bid_vol4 as int, q.ask_vol4 as int)
    } else {
        (q.bid5 as int, q.ask5 as int, q.bid_vol5 as int, q.ask_vol5 as int)
    }
}

/// The record's price is its fourth field, and the four integers after it
/// are the changes from the price to the last close, the open, the high and
/// the low, in that order.
pub proof fn lemma_quote_prices(body: Seq<u8>, p: int, v: Seq<int>, q: SecurityQuote)
    requires
        q1_quote_fields(body, p, v, q),
    ensures
        forall|n: int| 3 <= n < 8 ==> #[trigger] q1_layout()[n] == Field::Varint,
        q.price == v[3],
        seq![q.last_close as int, q.open as int, q.high as int, q.low as int]
            == Seq::new(4, |i: int| q.price + v[4 + i]),
{
    assert(seq![q.last_close as int, q.open as int, q.high as int, q.low as int]
        =~= Seq::new(4, |i: int| q.price + v[4 + i]));
}

/// All five levels of the order book are read alike. After the eighteen
/// leading fields, the record carries one group of four variable-length
/// integers per level, best level first: bid change, ask change, bid
/// volume, ask volume. Level `k`'s bid and ask are the quote's price plus
/// the first and second integer of group `k`, its bid volume the third and
/// its ask volume the fourth.
pub proof fn lemma_order_book_levels(body: Seq<u8>, p: int, v: Seq<int>, q: SecurityQuote)
    requires
        q1_quote_fields(body, p, v, q),
    ensures
        forall|n: int| 17 <= n < 17 + 4 * 5 ==> #[trigger] q1_layout()[n] == Field::Varint,
        forall|k: int| 0 <= k < 5 ==> #[trigger] book_level(q, k) == (
            q.price + v[17 + 4 * k],
            q.price + v[18 + 4 * k],
            v[19 + 4 * k],
            v[20 + 4 * k],
        ),
{
}

} // verus!
