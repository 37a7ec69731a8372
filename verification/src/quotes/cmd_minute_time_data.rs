//! Intraday minute prices, of today or of a past day.
use vstd::prelude::*;
use crate::internal::bytes::{le_u16, u16_le, u32_le, push_bytes, push_u16_le, push_u32_le, read_u16_le};
use crate::internal::helpers::{
    Decoded, parse_list, list_progress, lemma_list_step, lemma_list_error, lemma_list_done, lemma_list_len,
    varint_run, decode_varints,
};
use crate::proto::{STD_MSG_HISTORY_MINUTETIME_DATA, STD_MSG_MINUTETIME_DATA};
use crate::quotes::base_consts::QuotesError;
use crate::quotes::cmd_security_quotes::leaves_i32;
use crate::quotes::message::{Message, StdRequestHeader, StdResponseHeader, request_header_bytes};

verus! {

pub const MINUTE_TIME_MAX: usize = 1000;

/// One minute: `price` is the raw price, to be divided by the security's
/// price unit.
#[derive(Debug, Clone, Copy, Default)]
pub struct MinuteTime {
    pub price: i32,
    pub vol: i32,
}

#[derive(Debug, Clone, Copy, Default)]
pub struct MinuteTimeRequest {
    pub market: u16,
    pub code: [u8; 6],
    pub date: u32,
}

#[derive(Debug, Clone, Copy, Default)]
pub struct HistoryMinuteTimeRequest {
    pub date: u32,
    pub market: u8,
    pub code: [u8; 6],
}

#[derive(Debug, Clone, Default)]
pub struct MinuteTimeReply {
    pub count: u16,
    pub list: Vec<MinuteTime>,
}

/// One minute record: three variable-length integers (price change, an
/// unused value, volume); prices accumulate from zero.
pub open spec fn minute_step(body: Seq<u8>) -> spec_fn(int, i32) -> Decoded<(MinuteTime, i32)> {
    |p: int, last: i32| match varint_run(body, p, 3).1 {
        Decoded::Value(_, q) => {
            let v = varint_run(body, p, 3).0;
            let np = last + v[0];
            if np < i32::MIN || np > i32::MAX {
                Decoded::Overflow
            } else {
                Decoded::Value((MinuteTime { price: np as i32, vol: v[2] }, np as i32), q)
            }
        },
        Decoded::Error(e) => Decoded::Error(e),
        Decoded::Overflow => Decoded::Overflow,
    }
}

/// The minute list of a body whose records start at `start`.
pub open spec fn minute_list(body: Seq<u8>, start: int) -> (Seq<MinuteTime>, Decoded<i32>) {
    parse_list(minute_step(body), start, le_u16(body, 0) as nat, 0i32)
}

/// Reads `count` minute records from `pos` into `list`.
fn read_minutes(body: &[u8], start: usize, count: u16, list: &mut Vec<MinuteTime>) -> (r: Result<(), QuotesError>)
    requires
        old(list)@.len() == 0,
    ensures
        final(list)@ == parse_list(minute_step(body@), start as int, count as nat, 0i32).0,
        match parse_list(minute_step(body@), start as int, count as nat, 0i32).1 {
            Decoded::Value(_, _) => r is Ok,
            Decoded::Error(e) => r == Err::<(), QuotesError>(e),
            Decoded::Overflow => r == Err::<(), QuotesError>(QuotesError::Overflow),
        },
{
    let ghost step = minute_step(body@);
    let ghost full = parse_list(step, start as int, count as nat, 0i32);
    let mut pos = start;
    let mut last: i32 = 0;
    let mut i: u16 = 0;
    while i < count
        invariant
            i <= count,
            step == minute_step(body@),
            full == parse_list(minute_step(body@), start as int, count as nat, 0i32),
            list_progress(step, full, list@, pos as int, (count - i) as nat, last),
        decreases count - i,
    {
        let ghost p0 = pos as int;
        proof {
            lemma_list_len(crate::internal::helpers::varint_step(body@), p0, 3, ());
            if !(step(p0, last) is Value) {
                lemma_list_error(step, full, list@, p0, (count - i) as nat, last);
            }
        }
        match decode_varints(body, &mut pos, 3) {
            Ok(v) => {
                let np = last as i64 + v[0] as i64;
                if leaves_i32(np) {
                    proof { lemma_list_error(step, full, list@, p0, (count - i) as nat, last); }
                    return Err(QuotesError::Overflow);
                }
                let m = MinuteTime { price: np as i32, vol: v[2] };
                proof {
                    lemma_list_step(step, full, list@, p0, (count - i) as nat, last, m, np as i32, pos as int);
                }
                list.push(m);
                last = np as i32;
            },
            Err(e) => {
                proof { lemma_list_error(step, full, list@, p0, (count - i) as nat, last); }
                return Err(e);
            },
        }
        i = i + 1;
    }
    proof { lemma_list_done(step, full, list@, pos as int, last); }
    Ok(())
}

impl MinuteTimeRequest {
    /// Market, code and date in wire order.
    pub fn serialize(&self) -> (r: Result<Vec<u8>, QuotesError>)
        ensures
            r is Ok,
            r.unwrap()@ == u16_le(self.market) + self.code@ + u32_le(self.date),
    {
        let mut buf: Vec<u8> = Vec::new();
        push_u16_le(&mut buf, self.market);
        push_bytes(&mut buf, &self.code);
        push_u32_le(&mut buf, self.date);
        Ok(buf)
    }
}

impl HistoryMinuteTimeRequest {
    /// Date, market and code in wire order.
    pub fn serialize(&self) -> (r: Result<Vec<u8>, QuotesError>)
        ensures
            r is Ok,
            r.unwrap()@ == u32_le(self.date) + seq![self.market] + self.code@,
    {
        let mut buf: Vec<u8> = Vec::new();
        push_u32_le(&mut buf, self.date);
        buf.push(self.market);
        push_bytes(&mut buf, &self.code);
        Ok(buf)
    }
}

#[derive(Debug, Clone)]
pub struct MinuteTimePackage {
    pub req_header: StdRequestHeader,
    pub resp_header: StdResponseHeader,
    pub request: MinuteTimeRequest,
    pub reply: MinuteTimeReply,
}

impl MinuteTimePackage {
    pub fn new() -> (r: Self)
        ensures
            r.req_header == (StdRequestHeader {
                zip_flag: 0x0c, seq_id: 0, packet_type: 0x00, pkg_len1: 0, pkg_len2: 0,
                method: STD_MSG_MINUTETIME_DATA,
            }),
            r.reply.count == 0,
            r.reply.list@.len() == 0,
    {
        Self {
            req_header: StdRequestHeader {
                zip_flag: 0x0c, seq_id: 0, packet_type: 0x00, pkg_len1: 0, pkg_len2: 0,
                method: STD_MSG_MINUTETIME_DATA,
            },
            resp_header: StdResponseHeader::zeroed(),
            request: MinuteTimeRequest { market: 0, code: [0u8; 6], date: 0 },
            reply: MinuteTimeReply { count: 0, list: Vec::new() },
        }
    }

    pub fn set_params(&mut self, req: MinuteTimeRequest)
        ensures
            final(self).request == req,
            final(self).req_header == old(self).req_header,
            final(self).reply == old(self).reply,
            final(self).resp_header == old(self).resp_header,
    {
        self.request = req;
    }
}

impl Message for MinuteTimePackage {
    open spec fn accepts(&self, body: Seq<u8>) -> bool {
        true
    }

    /// Header (declared length 14), market, code and date.
    fn serialize(&mut self, seq_id: u32) -> (r: Result<Vec<u8>, QuotesError>)
        ensures
            final(self).req_header == (StdRequestHeader { seq_id, pkg_len1: 0x0e, pkg_len2: 0x0e, ..old(self).req_header }),
            r is Ok,
            r.unwrap()@ == request_header_bytes(final(self).req_header) + u16_le(old(self).request.market)
                + old(self).request.code@ + u32_le(old(self).request.date),
            final(self).request == old(self).request,
            final(self).reply == old(self).reply,
    {
        self.req_header.seq_id = seq_id;
        self.req_header.pkg_len1 = 0x0e;
        self.req_header.pkg_len2 = 0x0e;
        let mut out = self.req_header.to_bytes().unwrap();
        push_u16_le(&mut out, self.request.market);
        push_bytes(&mut out, &self.request.code);
        push_u32_le(&mut out, self.request.date);
        Ok(out)
    }

    /// A count, nine skipped bytes, then the minute records; records read
    /// before an error are kept.
    fn unserialize(&mut self, header: &StdResponseHeader, body: &[u8]) -> (r: Result<(), QuotesError>)
        ensures
            final(self).resp_header == *header,
            body@.len() < 2 ==> r == Err::<(), QuotesError>(QuotesError::UnexpectedEof)
                && final(self).reply == old(self).reply,
            body@.len() >= 2 ==> {
                &&& final(self).reply.count == le_u16(body@, 0)
                &&& final(self).reply.list@ == minute_list(body@, 11).0
                &&& match minute_list(body@, 11).1 {
                    Decoded::Value(_, _) => r is Ok,
                    _ => r == Err::<(), QuotesError>(minute_list(body@, 11).1.error_of()),
                }
            },
            final(self).request == old(self).request,
            final(self).req_header == old(self).req_header,
    {
        self.resp_header = *header;
        if body.len() < 2 {
            return Err(QuotesError::UnexpectedEof);
        }
        let count = read_u16_le(body, 0);
        self.reply.count = count;
        let mut list: Vec<MinuteTime> = Vec::new();
        let r = read_minutes(body, 11, count, &mut list);
        self.reply.list = list;
        r
    }
}

#[derive(Debug, Clone)]
pub struct HistoryMinuteTimePackage {
    pub req_header: StdRequestHeader,
    pub resp_header: StdResponseHeader,
    pub request: HistoryMinuteTimeRequest,
    pub reply: MinuteTimeReply,
}

impl HistoryMinuteTimePackage {
    pub fn new() -> (r: Self)
        ensures
            r.req_header == (StdRequestHeader {
                zip_flag: 0x0c, seq_id: 0, packet_type: 0x00, pkg_len1: 0, pkg_len2: 0,
                method: STD_MSG_HISTORY_MINUTETIME_DATA,
            }),
            r.reply.count == 0,
            r.reply.list@.len() == 0,
    {
        Self {
            req_header: StdRequestHeader {
                zip_flag: 0x0c, seq_id: 0, packet_type: 0x00, pkg_len1: 0, pkg_len2: 0,
                method: STD_MSG_HISTORY_MINUTETIME_DATA,
            },
            resp_header: StdResponseHeader::zeroed(),
            request: HistoryMinuteTimeRequest { date: 0, market: 0, code: [0u8; 6] },
            reply: MinuteTimeReply { count: 0, list: Vec::new() },
        }
    }

    pub fn set_params(&mut self, req: HistoryMinuteTimeRequest)
        ensures
            final(self).request == req,
            final(self).req_header == old(self).req_header,
            final(self).reply == old(self).reply,
            final(self).resp_header == old(self).resp_header,
    {
        self.request = req;
    }
}

impl Message for HistoryMinuteTimePackage {
    open spec fn accepts(&self, body: Seq<u8>) -> bool {
        true
    }

    /// Header (declared length 13), date, market and code.
    fn serialize(&mut self, seq_id: u32) -> (r: Result<Vec<u8>, QuotesError>)
        ensures
            final(self).req_header == (StdRequestHeader { seq_id, pkg_len1: 0x0d, pkg_len2: 0x0d, ..old(self).req_header }),
            r is Ok,
            r.unwrap()@ == request_header_bytes(final(self).req_header) + u32_le(old(self).request.date)
                + seq![old(self).request.market] + old(self).request.code@,
            final(self).request == old(self).request,
            final(self).reply == old(self).reply,
    {
        self.req_header.seq_id = seq_id;
        self.req_header.pkg_len1 = 0x0d;
        self.req_header.pkg_len2 = 0x0d;
        let mut out = self.req_header.to_bytes().unwrap();
        push_u32_le(&mut out, self.request.date);
        out.push(self.request.market);
        push_bytes(&mut out, &self.request.code);
        Ok(out)
    }

    /// A count, four skipped bytes, then the minute records. A body shorter
    /// than two bytes, a zero count or a body shorter than six bytes is
    /// accepted with the list left as it was.
    fn unserialize(&mut self, header: &StdResponseHeader, body: &[u8]) -> (r: Result<(), QuotesError>)
        ensures
            final(self).resp_header == *header,
            body@.len() < 2 ==> r is Ok && final(self).reply == old(self).reply,
            body@.len() >= 2 ==> final(self).reply.count == le_u16(body@, 0),
            body@.len() >= 2 && (le_u16(body@, 0) == 0 || body@.len() < 6) ==>
                r is Ok && final(self).reply.list == old(self).reply.list,
            body@.len() >= 6 && le_u16(body@, 0) != 0 ==> {
                &&& final(self).reply.list@ == minute_list(body@, 6).0
                &&& match minute_list(body@, 6).1 {
                    Decoded::Value(_, _) => r is Ok,
                    _ => r == Err::<(), QuotesError>(minute_list(body@, 6).1.error_of()),
                }
            },
            final(self).request == old(self).request,
            final(self).req_header == old(self).req_header,
    {
        self.resp_header = *header;
        if body.len() < 2 {
            return Ok(());
        }
        let count = read_u16_le(body, 0);
        self.reply.count = count;
        if count == 0 {
            return Ok(());
        }
        if body.len() < 6 {
            return Ok(());
        }
        let mut list: Vec<MinuteTime> = Vec::new();
        let r = read_minutes(body, 6, count, &mut list);
        self.reply.list = list;
        r
    }
}

pub fn new_minute_time() -> (r: Result<MinuteTimePackage, QuotesError>)
    ensures
        r is Ok,
        r.unwrap().req_header.method == STD_MSG_MINUTETIME_DATA,
        r.unwrap().req_header.zip_flag == 0x0c,
{
    Ok(MinuteTimePackage::new())
}

pub fn new_history_minute_time() -> (r: Result<HistoryMinuteTimePackage, QuotesError>)
    ensures
        r is Ok,
        r.unwrap().req_header.method == STD_MSG_HISTORY_MINUTETIME_DATA,
        r.unwrap().req_header.zip_flag == 0x0c,
{
    Ok(HistoryMinuteTimePackage::new())
}

} // verus!
