//! Candlestick bars of a security or of an index.
use vstd::prelude::*;
use crate::internal::bytes::{le_u16, le_u32, u16_le, push_bytes, push_u16_le, read_u16_le, read_u32_le};
use crate::internal::helpers::{
    Decoded, parse_list, list_progress, lemma_list_step, lemma_list_error, lemma_list_done,
    varint_run, decode_varints, lemma_varint_run_pos, spec_get_datetime, get_datetime, fmt_int, push_int,
};
use crate::internal::text::push_char;
use crate::proto::{FLAG_NOT_ZIPPED, STD_MSG_INDEXBARS, STD_MSG_SECURITY_BARS};
use crate::quotes::base_consts::QuotesError;
use crate::quotes::cmd_security_quotes::leaves_i32;
use crate::quotes::message::{Message, StdRequestHeader, StdResponseHeader, request_header_bytes};

verus! {

pub const SECURITY_BARS_MAX: usize = 800;

#[derive(Debug, Clone)]
pub struct SecurityBarsRequest {
    pub market: u16,
    pub code: [u8; 6],
    pub category: u16,
    pub i: u16,
    pub start: u16,
    pub count: u16,
}

#[derive(Debug, Clone)]
pub struct SecurityBarsReply {
    pub count: u16,
    pub list: Vec<SecurityBar>,
}

/// One bar. Prices are in thousandths; `vol` is the raw packed volume and
/// `amount` the raw packed amount read as `i32`, both of which `int_to_f64`
/// decodes. The up and down counts are only sent for indexes.
#[derive(Debug, Clone)]
pub struct SecurityBar {
    pub open: i32,
    pub close: i32,
    pub high: i32,
    pub low: i32,
    pub vol: u32,
    pub amount: i32,
    pub year: i32,
    pub month: i32,
    pub day: i32,
    pub hour: i32,
    pub minute: i32,
    pub date_time: String,
    pub up_count: u16,
    pub down_count: u16,
}

pub struct BarView {
    pub open: i32,
    pub close: i32,
    pub high: i32,
    pub low: i32,
    pub vol: u32,
    pub amount: i32,
    pub year: i32,
    pub month: i32,
    pub day: i32,
    pub hour: i32,
    pub minute: i32,
    pub date_time: Seq<char>,
    pub up_count: u16,
    pub down_count: u16,
}

impl View for SecurityBar {
    type V = BarView;

    open spec fn view(&self) -> BarView {
        BarView {
            open: self.open,
            close: self.close,
            high: self.high,
            low: self.low,
            vol: self.vol,
            amount: self.amount,
            year: self.year,
            month: self.month,
            day: self.day,
            hour: self.hour,
            minute: self.minute,
            date_time: self.date_time@,
            up_count: self.up_count,
            down_count: self.down_count,
        }
    }
}

impl Default for SecurityBar {
    fn default() -> (r: Self)
        ensures
            r.open == 0 && r.close == 0 && r.high == 0 && r.low == 0 && r.vol == 0 && r.amount == 0,
            r.year == 0 && r.month == 0 && r.day == 0 && r.hour == 0 && r.minute == 0,
            r.date_time@.len() == 0,
            r.up_count == 0 && r.down_count == 0,
    {
        SecurityBar {
            open: 0,
            close: 0,
            high: 0,
            low: 0,
            vol: 0,
            amount: 0,
            year: 0,
            month: 0,
            day: 0,
            hour: 0,
            minute: 0,
            date_time: String::new(),
            up_count: 0,
            down_count: 0,
        }
    }
}

/// `"yyyy-mm-dd hh:mm:00.000"`.
pub open spec fn bar_time_text(dt: (i32, i32, i32, i32, i32)) -> Seq<char> {
    fmt_int(dt.0 as int, 4) + seq!['-'] + fmt_int(dt.1 as int, 2) + seq!['-'] + fmt_int(dt.2 as int, 2)
        + seq![' '] + fmt_int(dt.3 as int, 2) + seq![':'] + fmt_int(dt.4 as int, 2)
        + seq![':', '0', '0', '.', '0', '0', '0']
}

/// Bytes that follow a bar's price changes: volume and amount, and for an
/// index also the up and down counts.
pub open spec fn bar_tail_len(index: bool) -> int {
    if index { 12 } else { 8 }
}

/// The bar once its date and four price changes are read, the next byte
/// being at `p2`: there follow the volume and the amount as little-endian
/// words (and for an index the up and down counts). Open is the previous
/// close `last` plus the first change; close, high and low are open plus
/// the other three.
pub open spec fn bar_fields(
    body: Seq<u8>,
    index: bool,
    dt: (i32, i32, i32, i32, i32),
    v: Seq<i32>,
    p2: int,
    last: i32,
) -> Decoded<(BarView, i32)> {
    let w = bar_tail_len(index);
    let open = last + v[0];
    let close = open + v[1];
    let high = open + v[2];
    let low = open + v[3];
    if p2 + w > body.len() {
        Decoded::Error(QuotesError::UnexpectedEof)
    } else if open < i32::MIN || open > i32::MAX || close < i32::MIN || close > i32::MAX
        || high < i32::MIN || high > i32::MAX || low < i32::MIN || low > i32::MAX {
        Decoded::Overflow
    } else {
        Decoded::Value(
            (
                BarView {
                    open: open as i32,
                    close: close as i32,
                    high: high as i32,
                    low: low as i32,
                    vol: le_u32(body, p2) as u32,
                    amount: le_u32(body, p2 + 4) as i32,
                    year: dt.0,
                    month: dt.1,
                    day: dt.2,
                    hour: dt.3,
                    minute: dt.4,
                    date_time: bar_time_text(dt),
                    up_count: if index { le_u16(body, p2 + 8) as u16 } else { 0 },
                    down_count: if index { le_u16(body, p2 + 10) as u16 } else { 0 },
                },
                close as i32,
            ),
            p2 + w,
        )
    }
}

/// The bar at `p` once its date is read, the next byte being at `p1`.
pub open spec fn bar_after_time(
    body: Seq<u8>,
    index: bool,
    dt: (i32, i32, i32, i32, i32),
    p1: int,
    last: i32,
) -> Decoded<(BarView, i32)> {
    match varint_run(body, p1, 4).1 {
        Decoded::Value(_, p2) => bar_fields(body, index, dt, varint_run(body, p1, 4).0, p2, last),
        Decoded::Error(e) => Decoded::Error(e),
        Decoded::Overflow => Decoded::Overflow,
    }
}

/// The bar at `p`: a packed date as `category` lays it out, four price
/// changes, then volume, amount and (for an index) the up and down counts.
#[verifier::opaque]
pub open spec fn bar_at(body: Seq<u8>, category: i32, index: bool, p: int, last: i32) -> Decoded<(BarView, i32)> {
    match spec_get_datetime(category, body, p) {
        Decoded::Value(dt, p1) => bar_after_time(body, index, dt, p1, last),
        Decoded::Error(e) => Decoded::Error(e),
        Decoded::Overflow => Decoded::Overflow,
    }
}

pub open spec fn bar_step(body: Seq<u8>, category: i32, index: bool) -> spec_fn(int, i32) -> Decoded<(BarView, i32)> {
    |p: int, last: i32| bar_at(body, category, index, p, last)
}

/// The bars of a body: a count, then the bars from byte 2, the first open
/// relative to zero.
pub open spec fn bar_list(body: Seq<u8>, category: i32, index: bool) -> (Seq<BarView>, Decoded<i32>) {
    parse_list(bar_step(body, category, index), 2, le_u16(body, 0) as nat, 0i32)
}

/// The bodies a bar reply is read from: as for any slice, a length far
/// below `usize::MAX`.
pub open spec fn bars_readable(body: Seq<u8>, category: i32, index: bool) -> bool {
    body.len() + 16 <= usize::MAX
}

fn bar_time_string(dt: (i32, i32, i32, i32, i32)) -> (r: String)
    ensures
        r@ == bar_time_text(dt),
{
    let mut s = String::new();
    push_int(&mut s, dt.0 as i64, 4);
    push_char(&mut s, '-');
    push_int(&mut s, dt.1 as i64, 2);
    push_char(&mut s, '-');
    push_int(&mut s, dt.2 as i64, 2);
    push_char(&mut s, ' ');
    push_int(&mut s, dt.3 as i64, 2);
    push_char(&mut s, ':');
    push_int(&mut s, dt.4 as i64, 2);
    push_char(&mut s, ':');
    push_char(&mut s, '0');
    push_char(&mut s, '0');
    push_char(&mut s, '.');
    push_char(&mut s, '0');
    push_char(&mut s, '0');
    push_char(&mut s, '0');
    assert(s@ =~= bar_time_text(dt));
    s
}

/// Reads the rest of a bar whose date was read, from `*pos`.
#[verifier::rlimit(30)]
fn read_bar_fields(
    body: &[u8],
    pos: &mut usize,
    dt: (i32, i32, i32, i32, i32),
    last: i32,
    index: bool,
) -> (r: Result<(SecurityBar, i32), QuotesError>)
    requires
        *old(pos) <= body@.len(),
        body@.len() + 16 <= usize::MAX,
    ensures
        match bar_after_time(body@, index, dt, *old(pos) as int, last) {
            Decoded::Value(bs, p) => r is Ok && r.unwrap().0@ == bs.0 && r.unwrap().1 == bs.1
                && *final(pos) == p && p <= body@.len(),
            Decoded::Error(e) => r == Err::<(SecurityBar, i32), QuotesError>(e),
            Decoded::Overflow => r == Err::<(SecurityBar, i32), QuotesError>(QuotesError::Overflow),
        },
{
    let ghost p1 = *pos as int;
    proof { lemma_varint_run_pos(body@, p1, 4); }
    let v = match decode_varints(body, pos, 4) {
        Ok(v) => v,
        Err(e) => return Err(e),
    };
    let ghost p2 = *pos as int;
    let ghost vs = varint_run(body@, p1, 4).0;
    assert(bar_after_time(body@, index, dt, p1, last)
        == bar_fields(body@, index, dt, vs, p2, last));
    let w: usize = if index { 12 } else { 8 };
    let at = *pos;
    if body.len() < at || body.len() - at < w {
        return Err(QuotesError::UnexpectedEof);
    }
    let vol = read_u32_le(body, at);
    let amount = read_u32_le(body, at + 4) as i32;
    let mut up: u16 = 0;
    let mut down: u16 = 0;
    if index {
        up = read_u16_le(body, at + 8);
        down = read_u16_le(body, at + 10);
    }
    let open64 = v[0] as i64 + last as i64;
    let close64 = open64 + v[1] as i64;
    let high64 = open64 + v[2] as i64;
    let low64 = open64 + v[3] as i64;
    if leaves_i32(open64) || leaves_i32(close64) || leaves_i32(high64) || leaves_i32(low64) {
        return Err(QuotesError::Overflow);
    }
    let open = open64 as i32;
    let close = close64 as i32;
    let high = high64 as i32;
    let low = low64 as i32;
    let bar = SecurityBar {
        open,
        close,
        high,
        low,
        vol,
        amount,
        year: dt.0,
        month: dt.1,
        day: dt.2,
        hour: dt.3,
        minute: dt.4,
        date_time: bar_time_string(dt),
        up_count: up,
        down_count: down,
    };
    *pos = at + w;
    Ok((bar, close))
}

/// Reads the bar at `*pos`.
fn read_bar(
    body: &[u8],
    pos: &mut usize,
    category: i32,
    last: i32,
    index: bool,
) -> (r: Result<(SecurityBar, i32), QuotesError>)
    requires
        *old(pos) <= body@.len(),
        body@.len() + 16 <= usize::MAX,
    ensures
        match bar_at(body@, category, index, *old(pos) as int, last) {
            Decoded::Value(bs, p) => r is Ok && r.unwrap().0@ == bs.0 && r.unwrap().1 == bs.1
                && *final(pos) == p && p <= body@.len(),
            Decoded::Error(e) => r == Err::<(SecurityBar, i32), QuotesError>(e),
            Decoded::Overflow => r == Err::<(SecurityBar, i32), QuotesError>(QuotesError::Overflow),
        },
{
    reveal(bar_at);
    let dt = match get_datetime(category, body, pos) {
        Ok(dt) => dt,
        Err(e) => return Err(e),
    };
    read_bar_fields(body, pos, dt, last, index)
}

/// Reads `count` bars from byte 2 into the empty `list`.
#[verifier::rlimit(80)]
fn read_bars(body: &[u8], category: i32, count: u16, index: bool, list: &mut Vec<SecurityBar>) -> (r: Result<(), QuotesError>)
    requires
        old(list)@.len() == 0,
        body@.len() >= 2,
        body@.len() + 16 <= usize::MAX,
        count == le_u16(body@, 0),
    ensures
        final(list)@.map_values(|b: SecurityBar| b@) == bar_list(body@, category, index).0,
        match bar_list(body@, category, index).1 {
            Decoded::Value(_, _) => r is Ok,
            Decoded::Error(e) => r == Err::<(), QuotesError>(e),
            Decoded::Overflow => r == Err::<(), QuotesError>(QuotesError::Overflow),
        },
{
    let ghost step = bar_step(body@, category, index);
    let ghost full = bar_list(body@, category, index);
    let mut pos: usize = 2;
    let mut last: i32 = 0;
    let mut i: u16 = 0;
    assert(list@.map_values(|b: SecurityBar| b@) =~= Seq::<BarView>::empty());
    while i < count
        invariant
            i <= count,
            pos <= body@.len(),
            body@.len() + 16 <= usize::MAX,
            step == bar_step(body@, category, index),
            full == parse_list(step, 2, count as nat, 0i32),
            full == bar_list(body@, category, index),
            list_progress(step, full, list@.map_values(|b: SecurityBar| b@), pos as int,
                (count - i) as nat, last),
        decreases count - i,
    {
        let ghost p0 = pos as int;
        let ghost acc = list@.map_values(|b: SecurityBar| b@);
        proof {
            if !(step(p0, last) is Value) {
                lemma_list_error(step, full, acc, p0, (count - i) as nat, last);
            }
        }
        match read_bar(body, &mut pos, category, last, index) {
            Ok((bar, close)) => {
                proof {
                    lemma_list_step(step, full, acc, p0, (count - i) as nat, last, bar@, close, pos as int);
                }
                list.push(bar);
                assert(list@.map_values(|b: SecurityBar| b@) =~= acc.push(bar@));
                last = close;
            },
            Err(e) => {
                return Err(e);
            },
        }
        i = i + 1;
    }
    proof { lemma_list_done(step, full, list@.map_values(|b: SecurityBar| b@), pos as int, last); }
    Ok(())
}

/// Reads the bars of a body onto the end of `list`.
fn append_bars(body: &[u8], category: i32, count: u16, index: bool, list: &mut Vec<SecurityBar>) -> (r: Result<(), QuotesError>)
    requires
        body@.len() >= 2,
        body@.len() + 16 <= usize::MAX,
        count == le_u16(body@, 0),
    ensures
        final(list)@.map_values(|b: SecurityBar| b@) == old(list)@.map_values(|b: SecurityBar| b@)
            + bar_list(body@, category, index).0,
        match bar_list(body@, category, index).1 {
            Decoded::Value(_, _) => r is Ok,
            Decoded::Error(e) => r == Err::<(), QuotesError>(e),
            Decoded::Overflow => r == Err::<(), QuotesError>(QuotesError::Overflow),
        },
{
    let mut fresh: Vec<SecurityBar> = Vec::new();
    let r = read_bars(body, category, count, index, &mut fresh);
    let ghost a = list@;
    let ghost b = fresh@;
    list.append(&mut fresh);
    assert((a + b).map_values(|x: SecurityBar| x@) =~= a.map_values(|x: SecurityBar| x@) + b.map_values(|x: SecurityBar| x@));
    r
}

/// Market, code, category, interval, start and count, then twenty zero
/// bytes.
pub open spec fn bars_request_bytes(r: SecurityBarsRequest) -> Seq<u8> {
    u16_le(r.market) + r.code@ + u16_le(r.category) + u16_le(r.i) + u16_le(r.start) + u16_le(r.count)
        + Seq::new(20, |k: int| 0u8)
}

fn push_bars_request(out: &mut Vec<u8>, r: &SecurityBarsRequest)
    ensures
        final(out)@ == old(out)@ + bars_request_bytes(*r),
{
    push_u16_le(out, r.market);
    push_bytes(out, &r.code);
    push_u16_le(out, r.category);
    push_u16_le(out, r.i);
    push_u16_le(out, r.start);
    push_u16_le(out, r.count);
    let zeros = [0u8; 20];
    push_bytes(out, &zeros);
    assert(zeros@ =~= Seq::new(20, |k: int| 0u8));
    assert(out@ =~= old(out)@ + bars_request_bytes(*r));
}

pub struct SecurityBarsPackage {
    pub req_header: StdRequestHeader,
    pub request: SecurityBarsRequest,
    pub resp_header: Option<StdResponseHeader>,
    pub reply: SecurityBarsReply,
}

impl SecurityBarsPackage {
    pub fn new() -> (r: Result<Self, QuotesError>)
        ensures
            r is Ok,
            r.unwrap().req_header == (StdRequestHeader {
                zip_flag: FLAG_NOT_ZIPPED, seq_id: 0, packet_type: 0x00, pkg_len1: 0, pkg_len2: 0,
                method: STD_MSG_SECURITY_BARS,
            }),
            r.unwrap().request.market == 0 && r.unwrap().request.category == 0 && r.unwrap().request.i == 0,
            r.unwrap().request.start == 0 && r.unwrap().request.count == 0,
            r.unwrap().request.code@ == seq![0u8, 0, 0, 0, 0, 0],
            r.unwrap().resp_header is None,
            r.unwrap().reply.count == 0,
            r.unwrap().reply.list@.len() == 0,
    {
        let code = [0u8; 6];
        assert(code@ =~= seq![0u8, 0, 0, 0, 0, 0]);
        Ok(Self {
            req_header: StdRequestHeader {
                zip_flag: FLAG_NOT_ZIPPED, seq_id: 0, packet_type: 0x00, pkg_len1: 0, pkg_len2: 0,
                method: STD_MSG_SECURITY_BARS,
            },
            request: SecurityBarsRequest { market: 0, code, category: 0, i: 0, start: 0, count: 0 },
            resp_header: None,
            reply: SecurityBarsReply { count: 0, list: Vec::new() },
        })
    }

    /// Takes the request; an interval of zero becomes one.
    pub fn set_params(&mut self, request: SecurityBarsRequest)
        ensures
            final(self).request == (SecurityBarsRequest { i: if request.i < 1 { 1 } else { request.i }, ..request }),
            final(self).req_header == old(self).req_header,
            final(self).reply == old(self).reply,
            final(self).resp_header == old(self).resp_header,
    {
        self.request = request;
        if self.request.i < 1 {
            self.request.i = 1;
        }
    }
}

impl Message for SecurityBarsPackage {
    open spec fn accepts(&self, body: Seq<u8>) -> bool {
        bars_readable(body, self.request.category as i32, false)
    }

    /// Header (declared length 0x1c) and the request.
    fn serialize(&mut self, seq_id: u32) -> (r: Result<Vec<u8>, QuotesError>)
        ensures
            final(self).req_header == (StdRequestHeader { seq_id, pkg_len1: 0x1c, pkg_len2: 0x1c, ..old(self).req_header }),
            r is Ok,
            r.unwrap()@ == request_header_bytes(final(self).req_header) + bars_request_bytes(old(self).request),
            final(self).request == old(self).request,
            final(self).reply == old(self).reply,
            final(self).resp_header == old(self).resp_header,
    {
        self.req_header.seq_id = seq_id;
        self.req_header.pkg_len1 = 0x1c;
        self.req_header.pkg_len2 = 0x1c;
        let mut out = self.req_header.to_bytes().unwrap();
        push_bars_request(&mut out, &self.request);
        Ok(out)
    }

    /// A count, then the bars, appended to the reply's list; bars read before
    /// an error are kept.
    fn unserialize(&mut self, header: &StdResponseHeader, body: &[u8]) -> (r: Result<(), QuotesError>)
        ensures
            final(self).resp_header == Some(*header),
            body@.len() < 2 ==> r == Err::<(), QuotesError>(QuotesError::UnexpectedEof)
                && final(self).reply == old(self).reply,
            body@.len() >= 2 ==> {
                let bars = bar_list(body@, old(self).request.category as i32, false);
                &&& final(self).reply.count == le_u16(body@, 0)
                &&& final(self).reply.list@.map_values(|b: SecurityBar| b@)
                    == old(self).reply.list@.map_values(|b: SecurityBar| b@) + bars.0
                &&& match bars.1 {
                    Decoded::Value(_, _) => r is Ok,
                    _ => r == Err::<(), QuotesError>(bars.1.error_of()),
                }
            },
            final(self).request == old(self).request,
            final(self).req_header == old(self).req_header,
    {
        self.resp_header = Some(*header);
        if body.len() < 2 {
            return Err(QuotesError::UnexpectedEof);
        }
        let count = read_u16_le(body, 0);
        self.reply.count = count;
        append_bars(body, self.request.category as i32, count, false, &mut self.reply.list)
    }
}

pub fn new_security_bars() -> (r: Result<SecurityBarsPackage, QuotesError>)
    ensures
        r is Ok,
        r.unwrap().req_header.method == STD_MSG_SECURITY_BARS,
        r.unwrap().request.market == 0 && r.unwrap().request.count == 0,
        r.unwrap().reply.count == 0 && r.unwrap().reply.list@.len() == 0,
{
    SecurityBarsPackage::new()
}

pub struct IndexBarsPackage {
    pub req_header: StdRequestHeader,
    pub request: SecurityBarsRequest,
    pub resp_header: Option<StdResponseHeader>,
    pub reply: SecurityBarsReply,
}

impl IndexBarsPackage {
    pub fn new() -> (r: Result<Self, QuotesError>)
        ensures
            r is Ok,
            r.unwrap().req_header == (StdRequestHeader {
                zip_flag: FLAG_NOT_ZIPPED, seq_id: 0, packet_type: 0x00, pkg_len1: 0, pkg_len2: 0,
                method: STD_MSG_INDEXBARS,
            }),
            r.unwrap().request.market == 0 && r.unwrap().request.category == 0 && r.unwrap().request.i == 0,
            r.unwrap().request.start == 0 && r.unwrap().request.count == 0,
            r.unwrap().request.code@ == seq![0u8, 0, 0, 0, 0, 0],
            r.unwrap().resp_header is None,
            r.unwrap().reply.count == 0,
            r.unwrap().reply.list@.len() == 0,
    {
        let code = [0u8; 6];
        assert(code@ =~= seq![0u8, 0, 0, 0, 0, 0]);
        Ok(Self {
            req_header: StdRequestHeader {
                zip_flag: FLAG_NOT_ZIPPED, seq_id: 0, packet_type: 0x00, pkg_len1: 0, pkg_len2: 0,
                method: STD_MSG_INDEXBARS,
            },
            request: SecurityBarsRequest { market: 0, code, category: 0, i: 0, start: 0, count: 0 },
            resp_header: None,
            reply: SecurityBarsReply { count: 0, list: Vec::new() },
        })
    }

    /// Takes the request with an interval of one.
    pub fn set_params(&mut self, request: SecurityBarsRequest)
        ensures
            final(self).request == (SecurityBarsRequest { i: 1, ..request }),
            final(self).req_header == old(self).req_header,
            final(self).reply == old(self).reply,
            final(self).resp_header == old(self).resp_header,
    {
        self.request = request;
        self.request.i = 1;
    }
}

impl Message for IndexBarsPackage {
    open spec fn accepts(&self, body: Seq<u8>) -> bool {
        bars_readable(body, self.request.category as i32, true)
    }

    /// Header (declared length 0x1c) and the request.
    fn serialize(&mut self, seq_id: u32) -> (r: Result<Vec<u8>, QuotesError>)
        ensures
            final(self).req_header == (StdRequestHeader { seq_id, pkg_len1: 0x1c, pkg_len2: 0x1c, ..old(self).req_header }),
            r is Ok,
            r.unwrap()@ == request_header_bytes(final(self).req_header) + bars_request_bytes(old(self).request),
            final(self).request == old(self).request,
            final(self).reply == old(self).reply,
            final(self).resp_header == old(self).resp_header,
    {
        self.req_header.seq_id = seq_id;
        self.req_header.pkg_len1 = 0x1c;
        self.req_header.pkg_len2 = 0x1c;
        let mut out = self.req_header.to_bytes().unwrap();
        push_bars_request(&mut out, &self.request);
        Ok(out)
    }

    /// A count, then the bars with their up and down counts, appended to the
    /// reply's list; bars read before an error are kept.
    fn unserialize(&mut self, header: &StdResponseHeader, body: &[u8]) -> (r: Result<(), QuotesError>)
        ensures
            final(self).resp_header == Some(*header),
            body@.len() < 2 ==> r == Err::<(), QuotesError>(QuotesError::UnexpectedEof)
                && final(self).reply == old(self).reply,
            body@.len() >= 2 ==> {
                let bars = bar_list(body@, old(self).request.category as i32, true);
                &&& final(self).reply.count == le_u16(body@, 0)
                &&& final(self).reply.list@.map_values(|b: SecurityBar| b@)
                    == old(self).reply.list@.map_values(|b: SecurityBar| b@) + bars.0
                &&& match bars.1 {
                    Decoded::Value(_, _) => r is Ok,
                    _ => r == Err::<(), QuotesError>(bars.1.error_of()),
                }
            },
            final(self).request == old(self).request,
            final(self).req_header == old(self).req_header,
    {
        self.resp_header = Some(*header);
        if body.len() < 2 {
            return Err(QuotesError::UnexpectedEof);
        }
        let count = read_u16_le(body, 0);
        self.reply.count = count;
        append_bars(body, self.request.category as i32, count, true, &mut self.reply.list)
    }
}

pub fn new_index_bars() -> (r: Result<IndexBarsPackage, QuotesError>)
    ensures
        r is Ok,
        r.unwrap().req_header.method == STD_MSG_INDEXBARS,
        r.unwrap().reply.list@.len() == 0,
{
    IndexBarsPackage::new()
}

} // verus!
