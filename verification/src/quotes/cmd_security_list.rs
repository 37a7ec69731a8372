//! The securities of a market, a page at a time.
use vstd::prelude::*;
use crate::internal::bytes::{le_u16, le_u32, u16_le, copy_range, push_u16_le, read_u16_le, read_u32_le};
use crate::internal::helpers::{utf8_to_gbk, spec_utf8_to_gbk};
use crate::internal::text::{lossy_utf8, trim_end_nul, trim_end_nul_exec, utf8_lossy};
use crate::proto::{FLAG_NOT_ZIPPED, STD_MSG_SECURITY_LIST};
use crate::quotes::base_consts::QuotesError;
use crate::quotes::message::{Message, StdRequestHeader, StdResponseHeader, request_header_bytes};

verus! {

#[derive(Debug, Default, Clone, Copy)]
pub struct SecurityListRequest {
    pub market: u16,
    pub start: u16,
}

/// One security. `pre_close` is the raw packed previous close, which
/// `int_to_f64` turns into a price.
#[derive(Debug, Default, Clone)]
pub struct Security {
    pub code: String,
    pub vol_unit: u16,
    pub reversed1: [u8; 4],
    pub decimal_point: i8,
    pub name: String,
    pub pre_close: u32,
    pub reversed2: [u8; 4],
}

#[derive(Debug, Default, Clone)]
pub struct SecurityListReply {
    pub count: u16,
    pub list: Vec<Security>,
}

/// Size of one security record.
pub const SECURITY_RECORD_BYTES: usize = 29;

/// The record at `off`: a 6-byte code (cut at its trailing zero bytes), the
/// volume unit, an 8-byte GB18030 name, four reserved bytes, the number of
/// decimals, the packed previous close and four more reserved bytes.
pub open spec fn security_at(body: Seq<u8>, off: int, s: Security) -> bool {
    &&& s.code@ == trim_end_nul(utf8_lossy(body.subrange(off, off + 6)))
    &&& s.vol_unit == le_u16(body, off + 6)
    &&& s.name@ == spec_utf8_to_gbk(body.subrange(off + 8, off + 16))
    &&& s.reversed1@ == body.subrange(off + 16, off + 20)
    &&& s.decimal_point == body[off + 20] as i8
    &&& s.pre_close == le_u32(body, off + 21)
    &&& s.reversed2@ == body.subrange(off + 25, off + 29)
}

/// How many records a body of `len` bytes announcing `count` records holds
/// in full.
pub open spec fn records_read(len: int, count: int) -> int {
    if 2 + 29 * count <= len { count } else { (len - 2) / 29 }
}

pub struct SecurityListPackage {
    pub req_header: StdRequestHeader,
    pub request: SecurityListRequest,
    pub resp_header: Option<StdResponseHeader>,
    pub reply: SecurityListReply,
}

fn four_bytes(body: &[u8], off: usize) -> (r: [u8; 4])
    requires
        off + 4 <= body@.len(),
    ensures
        r@ == body@.subrange(off as int, off + 4),
{
    let r = [body[off], body[off + 1], body[off + 2], body[off + 3]];
    assert(r@ =~= body@.subrange(off as int, off + 4));
    r
}

/// Reads the record at `off`.
fn read_security(body: &[u8], off: usize) -> (s: Security)
    requires
        off + 29 <= body@.len(),
        body@.len() <= usize::MAX,
    ensures
        security_at(body@, off as int, s),
{
    let code_bytes = copy_range(body, off, off + 6);
    let code = trim_end_nul_exec(&lossy_utf8(code_bytes.as_slice()));
    let name_bytes = copy_range(body, off + 8, off + 16);
    Security {
        code,
        vol_unit: read_u16_le(body, off + 6),
        reversed1: four_bytes(body, off + 16),
        decimal_point: #[verifier::truncate] (body[off + 20] as i8),
        name: utf8_to_gbk(name_bytes.as_slice()),
        pre_close: read_u32_le(body, off + 21),
        reversed2: four_bytes(body, off + 25),
    }
}

impl SecurityListPackage {
    pub fn new() -> (r: Result<Self, QuotesError>)
        ensures
            r is Ok,
            r.unwrap().req_header == (StdRequestHeader {
                zip_flag: FLAG_NOT_ZIPPED, seq_id: 0, packet_type: 0x01, pkg_len1: 0, pkg_len2: 0,
                method: STD_MSG_SECURITY_LIST,
            }),
            r.unwrap().request.market == 0,
            r.unwrap().request.start == 0,
            r.unwrap().resp_header is None,
            r.unwrap().reply.count == 0,
            r.unwrap().reply.list@.len() == 0,
    {
        Ok(Self {
            req_header: StdRequestHeader {
                zip_flag: FLAG_NOT_ZIPPED, seq_id: 0, packet_type: 0x01, pkg_len1: 0, pkg_len2: 0,
                method: STD_MSG_SECURITY_LIST,
            },
            request: SecurityListRequest { market: 0, start: 0 },
            resp_header: None,
            reply: SecurityListReply { count: 0, list: Vec::new() },
        })
    }

    pub fn set_params(&mut self, request: SecurityListRequest)
        ensures
            final(self).request == request,
            final(self).req_header == old(self).req_header,
            final(self).reply == old(self).reply,
            final(self).resp_header == old(self).resp_header,
    {
        self.request = request;
    }
}

impl Message for SecurityListPackage {
    open spec fn accepts(&self, body: Seq<u8>) -> bool {
        true
    }

    /// Header (declared length 6), market and start.
    fn serialize(&mut self, seq_id: u32) -> (r: Result<Vec<u8>, QuotesError>)
        ensures
            final(self).req_header == (StdRequestHeader { seq_id, pkg_len1: 6, pkg_len2: 6, ..old(self).req_header }),
            r is Ok,
            r.unwrap()@ == request_header_bytes(final(self).req_header) + u16_le(old(self).request.market)
                + u16_le(old(self).request.start),
            final(self).request == old(self).request,
            final(self).reply == old(self).reply,
            final(self).resp_header == old(self).resp_header,
    {
        self.req_header.seq_id = seq_id;
        self.req_header.pkg_len1 = 6;
        self.req_header.pkg_len2 = 6;
        let mut out = self.req_header.to_bytes().unwrap();
        push_u16_le(&mut out, self.request.market);
        push_u16_le(&mut out, self.request.start);
        Ok(out)
    }

    /// A count, then 29-byte records. A body shorter than two bytes leaves
    /// the package unchanged; a record cut off ends the reading with an
    /// error, the records before it kept.
    fn unserialize(&mut self, header: &StdResponseHeader, body: &[u8]) -> (r: Result<(), QuotesError>)
        ensures
            body@.len() < 2 ==> r == Err::<(), QuotesError>(QuotesError::ResponseTooShort)
                && final(self).resp_header == old(self).resp_header && final(self).reply == old(self).reply,
            body@.len() >= 2 ==> {
                let count = le_u16(body@, 0);
                let n = records_read(body@.len() as int, count);
                &&& final(self).resp_header == Some(*header)
                &&& final(self).reply.count == count
                &&& final(self).reply.list@.len() == n
                &&& forall|i: int| 0 <= i < n ==> security_at(body@, 2 + 29 * i, #[trigger] final(self).reply.list@[i])
                &&& if 2 + 29 * count <= body@.len() {
                    r is Ok
                } else {
                    r == Err::<(), QuotesError>(QuotesError::EntryTruncated)
                }
            },
            final(self).request == old(self).request,
            final(self).req_header == old(self).req_header,
    {
        if body.len() < 2 {
            return Err(QuotesError::ResponseTooShort);
        }
        self.resp_header = Some(*header);
        let count = read_u16_le(body, 0);
        self.reply.count = count;
        let avail = (body.len() - 2) / SECURITY_RECORD_BYTES;
        let fits = (count as usize) <= avail;
        let n: usize = if fits { count as usize } else { avail };
        proof {
            let len = body@.len() as int;
            assert(fits <==> 2 + 29 * count <= len) by (nonlinear_arith)
                requires
                    avail == (len - 2) / 29,
                    len >= 2,
                    fits <==> count <= avail;
            assert(2 + 29 * n <= len) by (nonlinear_arith)
                requires
                    avail == (len - 2) / 29,
                    len >= 2,
                    n <= avail;
        }
        let mut list: Vec<Security> = Vec::new();
        let mut i: usize = 0;
        while i < n
            invariant
                i <= n,
                2 + 29 * n <= body@.len(),
                body@.len() <= usize::MAX,
                list@.len() == i,
                forall|j: int| 0 <= j < i ==> security_at(body@, 2 + 29 * j, #[trigger] list@[j]),
            decreases n - i,
        {
            assert(2 + 29 * i + 29 <= 2 + 29 * n) by (nonlinear_arith)
                requires
                    i < n;
            let off = 2 + 29 * i;
            let s = read_security(body, off);
            list.push(s);
            i = i + 1;
        }
        self.reply.list = list;
        if fits {
            Ok(())
        } else {
            Err(QuotesError::EntryTruncated)
        }
    }
}

pub fn new_security_list() -> (r: Result<SecurityListPackage, QuotesError>)
    ensures
        r is Ok,
        r.unwrap().req_header.method == STD_MSG_SECURITY_LIST,
        r.unwrap().reply.list@.len() == 0,
{
    SecurityListPackage::new()
}

} // verus!
