//! Real-time quotes of a list of securities (second protocol version).
use vstd::prelude::*;
use crate::internal::bytes::{le_u16, copy_range, read_u16_le};
use crate::internal::helpers::{
    Decoded, parse_list, list_progress, lemma_list_step, lemma_list_error, lemma_list_done, spec_utf8_to_gbk,
    utf8_to_gbk,
};
use crate::proto::{FLAG_NOT_ZIPPED, STD_MSG_SECURITY_QUOTES_NEW};
use crate::quotes::base_consts::QuotesError;
use crate::quotes::cmd_security_quotes::{
    ints, out_of_i32, quotes_payload_len, quotes_request_bytes, serialize_quotes, server_time_text, stock_views,
    u32_bits_as_i32,
};
use crate::quotes::code_map::Stock;
use crate::quotes::cmd_security_quotes::leaves_i32;
use crate::quotes::fields::{Field, field_value_ok, fields_run, read_fields};
use crate::quotes::message::{Message, StdRequestHeader, StdResponseHeader};

verus! {

pub const SECURITY_QUOTES_MAX_V2: usize = 80;

/// A requested stock: market and code.
pub type V2Stock = Stock;

#[derive(Debug, Clone)]
pub struct V2SecurityQuotesRequest {
    pub stock_list: Vec<V2Stock>,
}

/// One quote. Prices are in hundredths; `amount` is the raw packed amount
/// that `int_to_f64` decodes. The fifth to eighth reserved values and the
/// rate are not sent in this version and stay zero.
#[derive(Debug, Clone)]
pub struct V2SecurityQuote {
    pub market: u8,
    pub code: String,
    pub active1: u16,
    pub price: i32,
    pub last_close: i32,
    pub open: i32,
    pub high: i32,
    pub low: i32,
    pub server_time: String,
    pub reversed_bytes0: i32,
    pub reversed_bytes1: i32,
    pub vol: i32,
    pub cur_vol: i32,
    pub amount: i32,
    pub s_vol: i32,
    pub b_vol: i32,
    pub reversed_bytes2: i32,
    pub reversed_bytes3: i32,
    pub bid1: i32,
    pub ask1: i32,
    pub bid_vol1: i32,
    pub ask_vol1: i32,
    pub reversed_bytes4: u16,
    pub reversed_bytes5: i32,
    pub reversed_bytes6: i32,
    pub reversed_bytes7: i32,
    pub reversed_bytes8: i32,
    pub rate: i16,
    pub active2: u16,
}

/// The text `"0"`.
fn zero_text() -> (r: String)
    ensures
        r@ == seq!['0'],
{
    let mut s = String::new();
    crate::internal::text::push_char(&mut s, '0');
    s
}

impl Default for V2SecurityQuote {
    fn default() -> (r: Self)
        ensures
            r.market == 0,
            r.code@.len() == 0,
            r.active1 == 0,
            r.price == 0,
            r.last_close == 0,
            r.open == 0,
            r.high == 0,
            r.low == 0,
            r.server_time@ == seq!['0'],
            r.reversed_bytes0 == 0,
            r.reversed_bytes1 == 0,
            r.vol == 0,
            r.cur_vol == 0,
            r.amount == 0,
            r.s_vol == 0,
            r.b_vol == 0,
            r.reversed_bytes2 == 0,
            r.reversed_bytes3 == 0,
            r.bid1 == 0,
            r.ask1 == 0,
            r.bid_vol1 == 0,
            r.ask_vol1 == 0,
            r.reversed_bytes4 == 0,
            r.reversed_bytes5 == 0,
            r.reversed_bytes6 == 0,
            r.reversed_bytes7 == 0,
            r.reversed_bytes8 == 0,
            r.rate == 0,
            r.active2 == 0,
    {
        V2SecurityQuote {
            market: 0,
            code: String::new(),
            active1: 0,
            price: 0,
            last_close: 0,
            open: 0,
            high: 0,
            low: 0,
            server_time: zero_text(),
            reversed_bytes0: 0,
            reversed_bytes1: 0,
            vol: 0,
            cur_vol: 0,
            amount: 0,
            s_vol: 0,
            b_vol: 0,
            reversed_bytes2: 0,
            reversed_bytes3: 0,
            bid1: 0,
            ask1: 0,
            bid_vol1: 0,
            ask_vol1: 0,
            reversed_bytes4: 0,
            reversed_bytes5: 0,
            reversed_bytes6: 0,
            reversed_bytes7: 0,
            reversed_bytes8: 0,
            rate: 0,
            active2: 0,
        }
    }
}

#[derive(Debug, Clone)]
pub struct V2SecurityQuotesReply {
    pub count: u16,
    pub list: Vec<V2SecurityQuote>,
}

/// The fields of a quote record, in wire order.
pub open spec fn q2_layout() -> Seq<Field> {
    seq![Field::Byte, Field::Code, Field::U16, Field::Varint, Field::Varint, Field::Varint, Field::Varint, Field::Varint, Field::Varint, Field::Varint, Field::Varint, Field::Varint, Field::U32, Field::Varint, Field::Varint, Field::Varint, Field::Varint, Field::Varint, Field::Varint, Field::Varint, Field::Varint, Field::U16, Field::Varint, Field::Varint, Field::Block48, Field::U16]
}

fn q2_layout_vec() -> (r: Vec<Field>)
    ensures
        r@ == q2_layout(),
{
    let r = vec![Field::Byte, Field::Code, Field::U16, Field::Varint, Field::Varint, Field::Varint, Field::Varint, Field::Varint, Field::Varint, Field::Varint, Field::Varint, Field::Varint, Field::U32, Field::Varint, Field::Varint, Field::Varint, Field::Varint, Field::Varint, Field::Varint, Field::Varint, Field::Varint, Field::U16, Field::Varint, Field::Varint, Field::Block48, Field::U16];
    assert(r@ =~= q2_layout());
    r
}

/// The integer step taken right after field `j` is read overflows `i32`:
/// the last close, open, high and low (price plus change), and, once the
/// ask is read, the bid and ask prices (change plus price).
pub open spec fn q2_op_overflows(v: Seq<int>, j: int) -> bool {
    if 4 <= j <= 7 {
        out_of_i32(v[3] + v[j])
    } else if j == 18 {
        out_of_i32(v[17] + v[3]) || out_of_i32(v[18] + v[3])
    } else {
        false
    }
}

pub open spec fn q2_overflows(v: Seq<int>, n: int) -> bool {
    exists|j: int| 0 <= j < n && #[trigger] q2_op_overflows(v, j)
}

/// The quote record at `p`: its start and field values, or the error that
/// ends it, unless the reader's arithmetic overflows first.
#[verifier::opaque]
pub open spec fn q2_record(body: Seq<u8>, p: int) -> Decoded<((int, Seq<int>), ())> {
    let run = fields_run(body, p, q2_layout());
    match run.1 {
        Decoded::Value(vals, q) => if q2_overflows(vals, 26) {
            Decoded::Overflow
        } else {
            Decoded::Value(((p, vals), ()), q)
        },
        Decoded::Error(e) => if q2_overflows(run.0, run.0.len() as int) {
            Decoded::Overflow
        } else {
            Decoded::Error(e)
        },
        Decoded::Overflow => Decoded::Overflow,
    }
}

pub open spec fn q2_step(body: Seq<u8>) -> spec_fn(int, ()) -> Decoded<((int, Seq<int>), ())> {
    |p: int, u: ()| q2_record(body, p)
}

/// The records of a reply: two skipped bytes, a count, then the records.
pub open spec fn q2_records(body: Seq<u8>) -> (Seq<(int, Seq<int>)>, Decoded<()>) {
    parse_list(q2_step(body), 4, le_u16(body, 2) as nat, ())
}

/// The code of the record at `p`, decoded as GB18030 up to its first zero
/// byte.
pub open spec fn q2_code_text(body: Seq<u8>, p: int) -> Seq<char> {
    spec_utf8_to_gbk(body.subrange(p + 1, p + 7))
}

/// The quote of the record at `p` with values `v`.
pub open spec fn q2_quote(body: Seq<u8>, p: int, v: Seq<int>, q: V2SecurityQuote) -> bool {
    &&& q.code@ == q2_code_text(body, p)
    &&& q.server_time@ == server_time_text(v[8])
    &&& q.market == v[0]
    &&& q.active1 == v[2]
    &&& q.price == v[3]
    &&& q.last_close == v[3] + v[4]
    &&& q.open == v[3] + v[5]
    &&& q.high == v[3] + v[6]
    &&& q.low == v[3] + v[7]
    &&& q.reversed_bytes0 == v[8]
    &&& q.reversed_bytes1 == v[9]
    &&& q.vol == v[10]
    &&& q.cur_vol == v[11]
    &&& q.amount == u32_bits_as_i32(v[12])
    &&& q.s_vol == v[13]
    &&& q.b_vol == v[14]
    &&& q.reversed_bytes2 == v[15]
    &&& q.reversed_bytes3 == v[16]
    &&& q.bid1 == v[17] + v[3]
    &&& q.ask1 == v[18] + v[3]
    &&& q.bid_vol1 == v[19]
    &&& q.ask_vol1 == v[20]
    &&& q.reversed_bytes4 == v[21]
    &&& q.reversed_bytes5 == 0
    &&& q.reversed_bytes6 == 0
    &&& q.reversed_bytes7 == 0
    &&& q.reversed_bytes8 == 0
    &&& q.rate == 0
    &&& q.active2 == v[25]
}

/// A record read at `start` with values `v`, ready to be turned into a
/// quote.
pub open spec fn q2_rec_ok(body: Seq<u8>, start: int, v: Seq<i64>) -> bool {
    &&& start + 7 <= body.len()
    &&& v.len() == 26
    &&& !q2_overflows(ints(v), 26)
    &&& forall|k: int| 0 <= k < 26 ==> field_value_ok(#[trigger] q2_layout()[k], v[k] as int)
}

/// A record that was read in full starts with its market byte and code.
proof fn lemma_q2_record_code(body: Seq<u8>, p: int)
    requires
        q2_record(body, p) is Value,
    ensures
        p + 7 <= body.len(),
{
    reveal(q2_record);
    let l = q2_layout();
    let step = crate::quotes::fields::field_step(body, l);
    let e: Seq<int> = Seq::empty();
    assert(l[0] == Field::Byte && l[1] == Field::Code);
    match step(p, e) {
        Decoded::Value(r0, p1) => {
            assert(p1 == p + 1);
            match step(p1, r0.1) {
                Decoded::Value(r1, p2) => {
                    assert(r0.1.len() == 1);
                    assert(p2 == p1 + 6 && p1 + 6 <= body.len());
                },
                _ => {
                    assert(parse_list(step, p1, (l.len() - 1) as nat, r0.1).1 is Error
                        || parse_list(step, p1, (l.len() - 1) as nat, r0.1).1 is Overflow);
                },
            }
        },
        _ => {},
    }
}

/// Whether some step after one of the first `n` fields of the values
/// overflows.
fn q2_overflows_exec(v: &Vec<i64>, n: usize) -> (r: bool)
    requires
        n <= v@.len(),
        n <= 26,
        forall|k: int| 0 <= k < n ==> field_value_ok(#[trigger] q2_layout()[k], v@[k] as int),
    ensures
        r == q2_overflows(ints(v@), n as int),
{
    let ghost vi = ints(v@);
    let mut j: usize = 0;
    while j < n
        invariant
            j <= n,
            n <= v@.len(),
            n <= 26,
            vi == ints(v@),
            forall|k: int| 0 <= k < n ==> field_value_ok(#[trigger] q2_layout()[k], v@[k] as int),
            forall|i: int| 0 <= i < j ==> !#[trigger] q2_op_overflows(vi, i),
        decreases n - j,
    {
        assert(vi[j as int] == v@[j as int] as int);
        assert(field_value_ok(q2_layout()[j as int], v@[j as int] as int));
        let o = if 4 <= j && j <= 7 {
            assert(vi[3] == v@[3] as int);
            assert(field_value_ok(q2_layout()[3], v@[3] as int));
            leaves_i32(v[3] + v[j])
        } else if j == 18 {
            assert(vi[3] == v@[3] as int && vi[17] == v@[17] as int);
            assert(field_value_ok(q2_layout()[3], v@[3] as int));
            assert(field_value_ok(q2_layout()[17], v@[17] as int));
            leaves_i32(v[17] + v[3]) || leaves_i32(v[18] + v[3])
        } else {
            false
        };
        if o {
            assert(q2_op_overflows(vi, j as int));
            return true;
        }
        assert(!q2_op_overflows(vi, j as int));
        j = j + 1;
    }
    false
}

/// Reads the record at `*pos`.
fn read_q2_record(body: &[u8], pos: &mut usize) -> (r: Result<Vec<i64>, QuotesError>)
    requires
        *old(pos) <= body@.len(),
        body@.len() + 256 <= usize::MAX,
    ensures
        match q2_record(body@, *old(pos) as int) {
            Decoded::Value(rv, q) => r is Ok && ints(r.unwrap()@) == rv.0.1 && rv.0.0 == *old(pos)
                && *final(pos) == q && q <= body@.len() && q2_rec_ok(body@, *old(pos) as int, r.unwrap()@),
            Decoded::Error(e) => r == Err::<Vec<i64>, QuotesError>(e),
            Decoded::Overflow => r == Err::<Vec<i64>, QuotesError>(QuotesError::Overflow),
        },
{
    reveal(q2_record);
    let layout = q2_layout_vec();
    let mut v: Vec<i64> = Vec::new();
    let r = read_fields(body, pos, &layout, &mut v);
    let ghost run = fields_run(body@, *old(pos) as int, q2_layout());
    assert(ints(v@) =~= run.0);
    let over = q2_overflows_exec(&v, v.len());
    match r {
        Ok(()) => {
            proof {
                if let Decoded::Value(vals, q) = run.1 {
                    assert(q2_layout().last() == Field::U16);
                    assert(ints(v@) =~= vals);
                }
            }
            if over {
                return Err(QuotesError::Overflow);
            }
            proof {
                lemma_q2_record_code(body@, *old(pos) as int);
            }
            Ok(v)
        },
        Err(e) => {
            if over {
                Err(QuotesError::Overflow)
            } else {
                Err(e)
            }
        },
    }
}

fn q2_code_string(body: &[u8], p: usize) -> (r: String)
    requires
        p + 7 <= body@.len(),
        body@.len() + 256 <= usize::MAX,
    ensures
        r@ == q2_code_text(body@, p as int),
{
    let b = copy_range(body, p + 1, p + 7);
    utf8_to_gbk(b.as_slice())
}

fn server_time_string(t: i64) -> (r: String)
    requires
        i32::MIN <= t <= i32::MAX,
    ensures
        r@ == server_time_text(t as int),
{
    if t > 0 {
        crate::internal::helpers::time_from_int(t as i32)
    } else {
        let mut s = String::new();
        crate::internal::text::push_char(&mut s, '0');
        s
    }
}

/// Builds the quote of a record.
#[verifier::rlimit(40)]
fn q2_build(body: &[u8], p: usize, v: &Vec<i64>) -> (q: V2SecurityQuote)
    requires
        body@.len() + 256 <= usize::MAX,
        q2_rec_ok(body@, p as int, v@),
    ensures
        q2_quote(body@, p as int, ints(v@), q),
{
    let ghost vi = ints(v@);
    proof {
        assert forall|k: int| 0 <= k < 26 implies field_value_ok(#[trigger] q2_layout()[k], vi[k]) by {
            assert(vi[k] == v@[k] as int);
        }
        assert(q2_layout()[0] == Field::Byte);
        assert(q2_layout()[2] == Field::U16);
        assert(q2_layout()[12] == Field::U32);
        assert(q2_layout()[21] == Field::U16);
        assert(q2_layout()[25] == Field::U16);
        assert forall|k: int| 3 <= k < 21 && k != 12 implies q2_layout()[k] == Field::Varint by {}
        assert(!q2_op_overflows(vi, 4) && !q2_op_overflows(vi, 5) && !q2_op_overflows(vi, 6));
        assert(!q2_op_overflows(vi, 7) && !q2_op_overflows(vi, 18));
    }
    V2SecurityQuote {
        code: q2_code_string(body, p),
        server_time: server_time_string(v[8]),
        market: v[0] as u8,
        active1: v[2] as u16,
        price: v[3] as i32,
        last_close: (v[3] + v[4]) as i32,
        open: (v[3] + v[5]) as i32,
        high: (v[3] + v[6]) as i32,
        low: (v[3] + v[7]) as i32,
        reversed_bytes0: v[8] as i32,
        reversed_bytes1: v[9] as i32,
        vol: v[10] as i32,
        cur_vol: v[11] as i32,
        amount: if v[12] >= 0x8000_0000 { (v[12] - 0x1_0000_0000) as i32 } else { v[12] as i32 },
        s_vol: v[13] as i32,
        b_vol: v[14] as i32,
        reversed_bytes2: v[15] as i32,
        reversed_bytes3: v[16] as i32,
        bid1: (v[17] + v[3]) as i32,
        ask1: (v[18] + v[3]) as i32,
        bid_vol1: v[19] as i32,
        ask_vol1: v[20] as i32,
        reversed_bytes4: v[21] as u16,
        reversed_bytes5: 0,
        reversed_bytes6: 0,
        reversed_bytes7: 0,
        reversed_bytes8: 0,
        rate: 0,
        active2: v[25] as u16,
    }
}

/// Reads the quotes of a reply into the empty `list`.
fn read_q2_quotes(body: &[u8], count: u16, list: &mut Vec<V2SecurityQuote>) -> (res: Result<(), QuotesError>)
    requires
        old(list)@.len() == 0,
        body@.len() >= 4,
        body@.len() + 256 <= usize::MAX,
        count == le_u16(body@, 2),
    ensures
        final(list)@.len() == q2_records(body@).0.len(),
        forall|i: int| 0 <= i < final(list)@.len() ==>
            q2_quote(body@, q2_records(body@).0[i].0, q2_records(body@).0[i].1, #[trigger] final(list)@[i]),
        match q2_records(body@).1 {
            Decoded::Value(_, _) => res is Ok,
            Decoded::Error(e) => res == Err::<(), QuotesError>(e),
            Decoded::Overflow => res == Err::<(), QuotesError>(QuotesError::Overflow),
        },
{
    let ghost step = q2_step(body@);
    let ghost full = q2_records(body@);
    let ghost mut acc: Seq<(int, Seq<int>)> = Seq::empty();
    let mut pos: usize = 4;
    let mut i: u16 = 0;
    while i < count
        invariant
            i <= count,
            count == le_u16(body@, 2),
            pos <= body@.len(),
            body@.len() + 256 <= usize::MAX,
            step == q2_step(body@),
            full == q2_records(body@),
            full == parse_list(step, 4, count as nat, ()),
            acc.len() == list@.len(),
            forall|j: int| 0 <= j < acc.len() ==> q2_quote(body@, acc[j].0, acc[j].1, #[trigger] list@[j]),
            list_progress(step, full, acc, pos as int, (count - i) as nat, ()),
        decreases count - i,
    {
        let ghost p0 = pos as int;
        proof {
            if !(step(p0, ()) is Value) {
                lemma_list_error(step, full, acc, p0, (count - i) as nat, ());
            }
        }
        let start = pos;
        match read_q2_record(body, &mut pos) {
            Ok(v) => {
                let q = q2_build(body, start, &v);
                proof {
                    let rv = (p0, ints(v@));
                    lemma_list_step(step, full, acc, p0, (count - i) as nat, (), rv, (), pos as int);
                    acc = acc.push(rv);
                }
                list.push(q);
            },
            Err(e) => {
                return Err(e);
            },
        }
        i = i + 1;
    }
    proof { lemma_list_done(step, full, acc, pos as int, ()); }
    Ok(())
}

pub struct V2SecurityQuotesPackage {
    pub req_header: StdRequestHeader,
    pub request: V2SecurityQuotesRequest,
    pub resp_header: Option<StdResponseHeader>,
    pub reply: V2SecurityQuotesReply,
}

impl V2SecurityQuotesPackage {
    pub fn new() -> (r: Result<Self, QuotesError>)
        ensures
            r is Ok,
            r.unwrap().req_header == (StdRequestHeader {
                zip_flag: FLAG_NOT_ZIPPED, seq_id: 0, packet_type: 0x01, pkg_len1: 0, pkg_len2: 0,
                method: STD_MSG_SECURITY_QUOTES_NEW,
            }),
            r.unwrap().request.stock_list@.len() == 0,
            r.unwrap().resp_header is None,
            r.unwrap().reply.count == 0,
            r.unwrap().reply.list@.len() == 0,
    {
        Ok(Self {
            req_header: StdRequestHeader {
                zip_flag: FLAG_NOT_ZIPPED, seq_id: 0, packet_type: 0x01, pkg_len1: 0, pkg_len2: 0,
                method: STD_MSG_SECURITY_QUOTES_NEW,
            },
            request: V2SecurityQuotesRequest { stock_list: Vec::new() },
            resp_header: None,
            reply: V2SecurityQuotesReply { count: 0, list: Vec::new() },
        })
    }

    pub fn set_params(&mut self, request: V2SecurityQuotesRequest)
        ensures
            final(self).request == request,
            final(self).req_header == old(self).req_header,
            final(self).reply == old(self).reply,
            final(self).resp_header == old(self).resp_header,
    {
        self.request = request;
    }
}

impl Message for V2SecurityQuotesPackage {
    open spec fn accepts(&self, body: Seq<u8>) -> bool {
        body.len() + 256 <= usize::MAX
    }

    /// Header, eight fixed bytes, the number of stocks and each stock's
    /// market and code; no stock, or more than eighty, is an error.
    fn serialize(&mut self, seq_id: u32) -> (r: Result<Vec<u8>, QuotesError>)
        ensures
            old(self).request.stock_list@.len() == 0 ==> r == Err::<Vec<u8>, QuotesError>(QuotesError::EmptyRequest)
                && final(self).req_header == old(self).req_header,
            old(self).request.stock_list@.len() > SECURITY_QUOTES_MAX_V2
                ==> r == Err::<Vec<u8>, QuotesError>(QuotesError::TooManyStocks)
                && final(self).req_header == old(self).req_header,
            0 < old(self).request.stock_list@.len() <= SECURITY_QUOTES_MAX_V2 ==> {
                let n = old(self).request.stock_list@.len() as int;
                &&& final(self).req_header == (StdRequestHeader {
                    seq_id,
                    pkg_len1: quotes_payload_len(n) as u16,
                    pkg_len2: quotes_payload_len(n) as u16,
                    ..old(self).req_header
                })
                &&& r is Ok
                &&& r.unwrap()@ == quotes_request_bytes(final(self).req_header, stock_views(old(self).request.stock_list@))
            },
            final(self).request == old(self).request,
            final(self).reply == old(self).reply,
            final(self).resp_header == old(self).resp_header,
    {
        serialize_quotes(&mut self.req_header, &self.request.stock_list, seq_id)
    }

    /// Two skipped bytes, a count, then the records; quotes read before an
    /// error are kept.
    fn unserialize(&mut self, header: &StdResponseHeader, body: &[u8]) -> (r: Result<(), QuotesError>)
        ensures
            final(self).resp_header == Some(*header),
            final(self).request == old(self).request,
            final(self).req_header == old(self).req_header,
            body@.len() < 4 ==> r == Err::<(), QuotesError>(QuotesError::ResponseTooShort)
                && final(self).reply == old(self).reply,
            body@.len() >= 4 ==> {
                let recs = q2_records(body@);
                &&& final(self).reply.count == le_u16(body@, 2)
                &&& final(self).reply.list@.len() == recs.0.len()
                &&& forall|i: int| 0 <= i < recs.0.len()
                    ==> q2_quote(body@, recs.0[i].0, recs.0[i].1, #[trigger] final(self).reply.list@[i])
                &&& match recs.1 {
                    Decoded::Value(_, _) => r is Ok,
                    _ => r == Err::<(), QuotesError>(recs.1.error_of()),
                }
            },
    {
        self.resp_header = Some(*header);
        if body.len() < 4 {
            return Err(QuotesError::ResponseTooShort);
        }
        let count = read_u16_le(body, 2);
        self.reply.count = count;
        let mut list: Vec<V2SecurityQuote> = Vec::new();
        let r = read_q2_quotes(body, count, &mut list);
        self.reply.list = list;
        r
    }
}

pub fn new_security_quotes_v2() -> (r: Result<V2SecurityQuotesPackage, QuotesError>)
    ensures
        r is Ok,
        r.unwrap().req_header.method == STD_MSG_SECURITY_QUOTES_NEW,
        r.unwrap().reply.list@.len() == 0,
{
    V2SecurityQuotesPackage::new()
}

} // verus!
