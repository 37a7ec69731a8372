//! Tick-by-tick trades, of today or of a past day.
use vstd::prelude::*;
use crate::internal::bytes::{le_u16, u16_le, u32_le, push_bytes, push_u16_le, push_u32_le, read_u16_le};
use crate::internal::helpers::{
    Decoded, parse_list, list_progress, lemma_list_step, lemma_list_error, lemma_list_done,
    varint_run, decode_varints, lemma_varint_run_pos, lemma_varint_pos, spec_varint, decode_varint,
    spec_get_time, get_time, fmt_int, push_int,
};
use crate::internal::text::push_char;
use crate::proto::{STD_MSG_HISTORY_TRANSACTION_DATA, STD_MSG_TRANSACTION_DATA};
use crate::quotes::base_consts::QuotesError;
use crate::quotes::cmd_security_quotes::leaves_i32;
use crate::quotes::message::{Message, StdRequestHeader, StdResponseHeader, request_header_bytes};

verus! {

pub const TRANSACTION_MAX: usize = 1800;

/// Side of a trade.
#[derive(Debug, Clone, Copy, PartialEq, Eq, Structural)]
pub enum TradeType {
    Buy,
    Sell,
    Neutral,
    Unknown,
}

impl TradeType {
    /// The protocol's number of the side.
    pub fn code(&self) -> (r: i32)
        ensures
            *self == TradeType::Buy ==> r == 0,
            *self == TradeType::Sell ==> r == 1,
            *self == TradeType::Neutral ==> r == 2,
            *self == TradeType::Unknown ==> r == 3,
    {
        match self {
            TradeType::Buy => 0,
            TradeType::Sell => 1,
            TradeType::Neutral => 2,
            TradeType::Unknown => 3,
        }
    }
}

/// One trade. `price` is the raw price, to be divided by the security's
/// price unit; `vol` is the reported volume times 100, which for an index is
/// the traded amount.
#[derive(Debug, Clone, Default)]
pub struct TickTransaction {
    pub time: String,
    pub price: i32,
    pub vol: i32,
    pub num: i32,
    pub buy_or_sell: i32,
}

pub struct TickView {
    pub time: Seq<char>,
    pub price: i32,
    pub vol: i32,
    pub num: i32,
    pub buy_or_sell: i32,
}

impl View for TickTransaction {
    type V = TickView;

    open spec fn view(&self) -> TickView {
        TickView { time: self.time@, price: self.price, vol: self.vol, num: self.num, buy_or_sell: self.buy_or_sell }
    }
}

#[derive(Debug, Clone, Copy, Default)]
pub struct TransactionRequest {
    pub market: u16,
    pub code: [u8; 6],
    pub start: u16,
    pub count: u16,
}

#[derive(Debug, Clone, Copy, Default)]
pub struct HistoryTransactionRequest {
    pub date: u32,
    pub market: u16,
    pub code: [u8; 6],
    pub start: u16,
    pub count: u16,
}

#[derive(Debug, Clone, Default)]
pub struct TransactionReply {
    pub count: u16,
    pub list: Vec<TickTransaction>,
}

/// `"hh:mm"`.
pub open spec fn hm_text(hm: (u16, u16)) -> Seq<char> {
    fmt_int(hm.0 as int, 2) + seq![':'] + fmt_int(hm.1 as int, 2)
}

/// The trade once its time and first four integers are read, the next
/// byte being at `p2`.
pub open spec fn tick_fields(body: Seq<u8>, history: bool, hm: (u16, u16), v: Seq<i32>, p2: int, last: i32) -> Decoded<(TickView, i32)> {
    let np = last + v[0];
    let sv = v[1] * 100;
    if np < i32::MIN || np > i32::MAX || sv < i32::MIN || sv > i32::MAX {
        Decoded::Overflow
    } else if history {
        Decoded::Value((TickView { time: hm_text(hm), price: np as i32, vol: sv as i32, num: 0, buy_or_sell: v[2] }, np as i32), p2)
    } else {
        match spec_varint(body, p2) {
            Decoded::Value(_, p3) => Decoded::Value(
                (TickView { time: hm_text(hm), price: np as i32, vol: sv as i32, num: v[2], buy_or_sell: v[3] }, np as i32),
                p3,
            ),
            Decoded::Error(e) => Decoded::Error(e),
            Decoded::Overflow => Decoded::Overflow,
        }
    }
}

/// The trade record at `p` once its time is read, the next byte being at `p1`.
pub open spec fn tick_after_time(body: Seq<u8>, history: bool, hm: (u16, u16), p1: int, last: i32) -> Decoded<(TickView, i32)> {
    match varint_run(body, p1, 4).1 {
        Decoded::Value(_, p2) => tick_fields(body, history, hm, varint_run(body, p1, 4).0, p2, last),
        Decoded::Error(e) => Decoded::Error(e),
        Decoded::Overflow => Decoded::Overflow,
    }
}

/// The trade record at `p`, the last price being `last`.
pub open spec fn tick_at(body: Seq<u8>, history: bool, p: int, last: i32) -> Decoded<(TickView, i32)> {
    match spec_get_time(body, p) {
        Decoded::Value(hm, p1) => tick_after_time(body, history, hm, p1, last),
        Decoded::Error(e) => Decoded::Error(e),
        Decoded::Overflow => Decoded::Overflow,
    }
}

/// One trade record: a packed time, then four variable-length integers.
/// Today's records are price change, volume, number of orders and side,
/// followed by one unused integer; past days' records are price change,
/// volume, side and one unused integer. Prices accumulate from zero.
pub open spec fn tick_step(body: Seq<u8>, history: bool) -> spec_fn(int, i32) -> Decoded<(TickView, i32)> {
    |p: int, last: i32| tick_at(body, history, p, last)
}

/// The trades of a body whose records start at `start`.
pub open spec fn tick_list(body: Seq<u8>, start: int, history: bool) -> (Seq<TickView>, Decoded<i32>) {
    parse_list(tick_step(body, history), start, le_u16(body, 0) as nat, 0i32)
}

/// `"hh:mm"` of a time of day.
fn hm_string(hm: (u16, u16)) -> (r: String)
    ensures
        r@ == hm_text(hm),
{
    let mut time = String::new();
    push_int(&mut time, hm.0 as i64, 2);
    push_char(&mut time, ':');
    push_int(&mut time, hm.1 as i64, 2);
    assert(time@ =~= hm_text(hm));
    time
}

/// Reads the rest of a trade record whose time was read, from `*pos`.
#[verifier::rlimit(30)]
fn read_tick_fields(body: &[u8], pos: &mut usize, hm: (u16, u16), last: i32, history: bool) -> (r: Result<(TickTransaction, i32), QuotesError>)
    requires
        *old(pos) <= body@.len(),
    ensures
        match tick_after_time(body@, history, hm, *old(pos) as int, last) {
            Decoded::Value(ts, p) => r is Ok && r.unwrap().0@ == ts.0 && r.unwrap().1 == ts.1
                && *final(pos) == p && p <= body@.len(),
            Decoded::Error(e) => r == Err::<(TickTransaction, i32), QuotesError>(e),
            Decoded::Overflow => r == Err::<(TickTransaction, i32), QuotesError>(QuotesError::Overflow),
        },
{
    let ghost p1 = *pos as int;
    proof { lemma_varint_run_pos(body@, p1, 4); }
    let v = match decode_varints(body, pos, 4) {
        Ok(v) => v,
        Err(e) => return Err(e),
    };
    let ghost p2 = *pos as int;
    let ghost vs = varint_run(body@, p1, 4).0;
    assert(tick_after_time(body@, history, hm, p1, last) == tick_fields(body@, history, hm, vs, p2, last));
    let np = last as i64 + v[0] as i64;
    let sv = v[1] as i64 * 100;
    if leaves_i32(np) || leaves_i32(sv) {
        return Err(QuotesError::Overflow);
    }
    let time = hm_string(hm);
    if history {
        let t = TickTransaction { time, price: np as i32, vol: sv as i32, num: 0, buy_or_sell: v[2] };
        Ok((t, np as i32))
    } else {
        proof { lemma_varint_pos(body@, p2); }
        match decode_varint(body, pos) {
            Ok(_) => {},
            Err(e) => return Err(e),
        }
        let t = TickTransaction { time, price: np as i32, vol: sv as i32, num: v[2], buy_or_sell: v[3] };
        Ok((t, np as i32))
    }
}

/// Reads one trade record at `*pos`, the last price being `last`.
fn read_tick(body: &[u8], pos: &mut usize, last: i32, history: bool) -> (r: Result<(TickTransaction, i32), QuotesError>)
    requires
        *old(pos) <= body@.len(),
    ensures
        match tick_at(body@, history, *old(pos) as int, last) {
            Decoded::Value(ts, p) => r is Ok && r.unwrap().0@ == ts.0 && r.unwrap().1 == ts.1
                && *final(pos) == p && p <= body@.len(),
            Decoded::Error(e) => r == Err::<(TickTransaction, i32), QuotesError>(e),
            Decoded::Overflow => r == Err::<(TickTransaction, i32), QuotesError>(QuotesError::Overflow),
        },
{
    if body.len() - *pos < 2 {
        return Err(QuotesError::BufferUnderflow);
    }
    let hm = match get_time(body, pos) {
        Ok(hm) => hm,
        Err(e) => return Err(e),
    };
    read_tick_fields(body, pos, hm, last, history)
}

fn read_ticks(body: &[u8], start: usize, count: u16, history: bool, list: &mut Vec<TickTransaction>) -> (r: Result<(), QuotesError>)
    requires
        old(list)@.len() == 0,
        start <= body@.len(),
    ensures
        final(list)@.map_values(|t: TickTransaction| t@) == parse_list(tick_step(body@, history), start as int, count as nat, 0i32).0,
        match parse_list(tick_step(body@, history), start as int, count as nat, 0i32).1 {
            Decoded::Value(_, _) => r is Ok,
            Decoded::Error(e) => r == Err::<(), QuotesError>(e),
            Decoded::Overflow => r == Err::<(), QuotesError>(QuotesError::Overflow),
        },
{
    let ghost step = tick_step(body@, history);
    let ghost full = parse_list(step, start as int, count as nat, 0i32);
    let mut pos = start;
    let mut last: i32 = 0;
    let mut i: u16 = 0;
    assert(list@.map_values(|t: TickTransaction| t@) =~= Seq::<TickView>::empty());
    while i < count
        invariant
            i <= count,
            pos <= body@.len(),
            step == tick_step(body@, history),
            full == parse_list(tick_step(body@, history), start as int, count as nat, 0i32),
            list_progress(step, full, list@.map_values(|t: TickTransaction| t@), pos as int, (count - i) as nat, last),
        decreases count - i,
    {
        let ghost p0 = pos as int;
        let ghost acc = list@.map_values(|t: TickTransaction| t@);
        proof {
            if !(step(p0, last) is Value) {
                lemma_list_error(step, full, acc, p0, (count - i) as nat, last);
            }
        }
        match read_tick(body, &mut pos, last, history) {
            Ok((t, np)) => {
                proof {
                    lemma_list_step(step, full, acc, p0, (count - i) as nat, last, t@, np, pos as int);
                }
                list.push(t);
                assert(list@.map_values(|t: TickTransaction| t@) =~= acc.push(t@));
                last = np;
            },
            Err(e) => {
                proof { lemma_list_error(step, full, acc, p0, (count - i) as nat, last); }
                return Err(e);
            },
        }
        i = i + 1;
    }
    proof { lemma_list_done(step, full, list@.map_values(|t: TickTransaction| t@), pos as int, last); }
    Ok(())
}

#[derive(Debug, Clone)]
pub struct TransactionPackage {
    pub req_header: StdRequestHeader,
    pub resp_header: StdResponseHeader,
    pub request: TransactionRequest,
    pub reply: TransactionReply,
}

impl TransactionPackage {
    pub fn new() -> (r: Self)
        ensures
            r.req_header == (StdRequestHeader {
                zip_flag: 0x0c, seq_id: 0, packet_type: 0x00, pkg_len1: 0, pkg_len2: 0,
                method: STD_MSG_TRANSACTION_DATA,
            }),
            r.reply.count == 0,
            r.reply.list@.len() == 0,
    {
        Self {
            req_header: StdRequestHeader {
                zip_flag: 0x0c, seq_id: 0, packet_type: 0x00, pkg_len1: 0, pkg_len2: 0,
                method: STD_MSG_TRANSACTION_DATA,
            },
            resp_header: StdResponseHeader::zeroed(),
            request: TransactionRequest { market: 0, code: [0u8; 6], start: 0, count: 0 },
            reply: TransactionReply { count: 0, list: Vec::new() },
        }
    }

    pub fn set_params(&mut self, req: TransactionRequest)
        ensures
            final(self).request == req,
            final(self).req_header == old(self).req_header,
            final(self).reply == old(self).reply,
            final(self).resp_header == old(self).resp_header,
    {
        self.request = req;
    }
}

impl Message for TransactionPackage {
    open spec fn accepts(&self, body: Seq<u8>) -> bool {
        true
    }

    /// Header (declared length 14), market, code, start and count.
    fn serialize(&mut self, seq_id: u32) -> (r: Result<Vec<u8>, QuotesError>)
        ensures
            final(self).req_header == (StdRequestHeader { seq_id, pkg_len1: 0x0e, pkg_len2: 0x0e, ..old(self).req_header }),
            r is Ok,
            r.unwrap()@ == request_header_bytes(final(self).req_header) + u16_le(old(self).request.market)
                + old(self).request.code@ + u16_le(old(self).request.start) + u16_le(old(self).request.count),
            final(self).request == old(self).request,
            final(self).reply == old(self).reply,
    {
        self.req_header.seq_id = seq_id;
        self.req_header.pkg_len1 = 0x0e;
        self.req_header.pkg_len2 = 0x0e;
        let mut out = self.req_header.to_bytes().unwrap();
        push_u16_le(&mut out, self.request.market);
        push_bytes(&mut out, &self.request.code);
        push_u16_le(&mut out, self.request.start);
        push_u16_le(&mut out, self.request.count);
        Ok(out)
    }

    /// A count, then the trades; trades read before an error are kept.
    fn unserialize(&mut self, header: &StdResponseHeader, body: &[u8]) -> (r: Result<(), QuotesError>)
        ensures
            final(self).resp_header == *header,
            body@.len() < 2 ==> r == Err::<(), QuotesError>(QuotesError::UnexpectedEof)
                && final(self).reply == old(self).reply,
            body@.len() >= 2 ==> {
                &&& final(self).reply.count == le_u16(body@, 0)
                &&& final(self).reply.list@.map_values(|t: TickTransaction| t@) == tick_list(body@, 2, false).0
                &&& match tick_list(body@, 2, false).1 {
                    Decoded::Value(_, _) => r is Ok,
                    _ => r == Err::<(), QuotesError>(tick_list(body@, 2, false).1.error_of()),
                }
            },
            final(self).request == old(self).request,
            final(self).req_header == old(self).req_header,
    {
        self.resp_header = *header;
        if body.len() < 2 {
            return Err(QuotesError::UnexpectedEof);
        }
        let count = read_u16_le(body, 0);
        self.reply.count = count;
        let mut list: Vec<TickTransaction> = Vec::new();
        let r = read_ticks(body, 2, count, false, &mut list);
        self.reply.list = list;
        r
    }
}

#[derive(Debug, Clone)]
pub struct HistoryTransactionPackage {
    pub req_header: StdRequestHeader,
    pub resp_header: StdResponseHeader,
    pub request: HistoryTransactionRequest,
    pub reply: TransactionReply,
}

impl HistoryTransactionPackage {
    pub fn new() -> (r: Self)
        ensures
            r.req_header == (StdRequestHeader {
                zip_flag: 0x0c, seq_id: 0, packet_type: 0x00, pkg_len1: 0, pkg_len2: 0,
                method: STD_MSG_HISTORY_TRANSACTION_DATA,
            }),
            r.reply.count == 0,
            r.reply.list@.len() == 0,
    {
        Self {
            req_header: StdRequestHeader {
                zip_flag: 0x0c, seq_id: 0, packet_type: 0x00, pkg_len1: 0, pkg_len2: 0,
                method: STD_MSG_HISTORY_TRANSACTION_DATA,
            },
            resp_header: StdResponseHeader::zeroed(),
            request: HistoryTransactionRequest { date: 0, market: 0, code: [0u8; 6], start: 0, count: 0 },
            reply: TransactionReply { count: 0, list: Vec::new() },
        }
    }

    pub fn set_params(&mut self, req: HistoryTransactionRequest)
        ensures
            final(self).request == req,
            final(self).req_header == old(self).req_header,
            final(self).reply == old(self).reply,
            final(self).resp_header == old(self).resp_header,
    {
        self.request = req;
    }
}

impl Message for HistoryTransactionPackage {
    open spec fn accepts(&self, body: Seq<u8>) -> bool {
        true
    }

    /// Header (declared length 18), date, market, code, start and count.
    fn serialize(&mut self, seq_id: u32) -> (r: Result<Vec<u8>, QuotesError>)
        ensures
            final(self).req_header == (StdRequestHeader { seq_id, pkg_len1: 0x12, pkg_len2: 0x12, ..old(self).req_header }),
            r is Ok,
            r.unwrap()@ == request_header_bytes(final(self).req_header) + u32_le(old(self).request.date)
                + u16_le(old(self).request.market) + old(self).request.code@ + u16_le(old(self).request.start)
                + u16_le(old(self).request.count),
            final(self).request == old(self).request,
            final(self).reply == old(self).reply,
    {
        self.req_header.seq_id = seq_id;
        self.req_header.pkg_len1 = 0x12;
        self.req_header.pkg_len2 = 0x12;
        let mut out = self.req_header.to_bytes().unwrap();
        push_u32_le(&mut out, self.request.date);
        push_u16_le(&mut out, self.request.market);
        push_bytes(&mut out, &self.request.code);
        push_u16_le(&mut out, self.request.start);
        push_u16_le(&mut out, self.request.count);
        Ok(out)
    }

    /// A count, four skipped bytes, then the trades; trades read before an
    /// error are kept.
    fn unserialize(&mut self, header: &StdResponseHeader, body: &[u8]) -> (r: Result<(), QuotesError>)
        ensures
            final(self).resp_header == *header,
            body@.len() < 2 ==> r == Err::<(), QuotesError>(QuotesError::UnexpectedEof)
                && final(self).reply == old(self).reply,
            body@.len() >= 2 ==> {
                &&& final(self).reply.count == le_u16(body@, 0)
                &&& final(self).reply.list@.map_values(|t: TickTransaction| t@) == tick_list(body@, 6, true).0
                &&& match tick_list(body@, 6, true).1 {
                    Decoded::Value(_, _) => r is Ok,
                    _ => r == Err::<(), QuotesError>(tick_list(body@, 6, true).1.error_of()),
                }
            },
            final(self).request == old(self).request,
            final(self).req_header == old(self).req_header,
    {
        self.resp_header = *header;
        if body.len() < 2 {
            return Err(QuotesError::UnexpectedEof);
        }
        let count = read_u16_le(body, 0);
        self.reply.count = count;
        let mut list: Vec<TickTransaction> = Vec::new();
        let start: usize = if body.len() < 6 { body.len() } else { 6 };
        let r = if body.len() < 6 {
            if count == 0 {
                Ok(())
            } else {
                Err(QuotesError::BufferUnderflow)
            }
        } else {
            read_ticks(body, 6, count, true, &mut list)
        };
        proof {
            if body@.len() < 6 && count > 0 {
                assert(spec_get_time(body@, 6) == Decoded::<(u16, u16)>::Error(QuotesError::BufferUnderflow));
            }
        }
        self.reply.list = list;
        r
    }
}

pub fn new_transaction() -> (r: Result<TransactionPackage, QuotesError>)
    ensures
        r is Ok,
        r.unwrap().req_header.method == STD_MSG_TRANSACTION_DATA,
        r.unwrap().req_header.zip_flag == 0x0c,
{
    Ok(TransactionPackage::new())
}

pub fn new_history_transaction() -> (r: Result<HistoryTransactionPackage, QuotesError>)
    ensures
        r is Ok,
        r.unwrap().req_header.method == STD_MSG_HISTORY_TRANSACTION_DATA,
        r.unwrap().req_header.zip_flag == 0x0c,
{
    Ok(HistoryTransactionPackage::new())
}

} // verus!
