//! Text of one company information file.
use vstd::prelude::*;
use crate::internal::bytes::{le_u16, u16_le, u32_le, copy_range, push_bytes, push_u16_le, push_u32_le, read_u16_le};
use crate::internal::helpers::{utf8_to_gbk, spec_utf8_to_gbk};
use crate::internal::text::{lossy_utf8, utf8_lossy, trim_end_nul, trim_end_nul_exec};
use crate::proto::{FLAG_NOT_ZIPPED, STD_MSG_COMPANY_CONTENT};
use crate::quotes::base_consts::QuotesError;
use crate::quotes::message::{Message, StdRequestHeader, StdResponseHeader, request_header_bytes};

verus! {

#[derive(Debug, Clone, Copy)]
pub struct CompanyInfoContentRequest {
    pub market: u16,
    pub code: [u8; 6],
    pub unknown1: u16,
    pub filename: [u8; 80],
    pub offset: u32,
    pub length: u32,
    pub unknown2: u32,
}

impl CompanyInfoContentRequest {
    /// All fields zero.
    pub fn zeroed() -> (r: Self)
        ensures
            r.market == 0 && r.unknown1 == 0 && r.offset == 0 && r.length == 0 && r.unknown2 == 0,
            r.code@ == Seq::new(6, |i: int| 0u8),
            r.filename@ == Seq::new(80, |i: int| 0u8),
    {
        let code = [0u8; 6];
        let filename = [0u8; 80];
        assert(code@ =~= Seq::new(6, |i: int| 0u8));
        assert(filename@ =~= Seq::new(80, |i: int| 0u8));
        Self { market: 0, code, unknown1: 0, filename, offset: 0, length: 0, unknown2: 0 }
    }
}

#[derive(Debug, Default, Clone)]
pub struct CompanyInfoContent {
    pub market: u16,
    pub code: String,
    pub name: Option<String>,
    pub length: u32,
    pub content: String,
}

/// The request fields in wire order.
pub open spec fn content_request_bytes(r: CompanyInfoContentRequest) -> Seq<u8> {
    u16_le(r.market) + r.code@ + u16_le(r.unknown1) + r.filename@ + u32_le(r.offset) + u32_le(r.length)
        + u32_le(r.unknown2)
}

pub struct CompanyInfoContentPackage {
    pub req_header: StdRequestHeader,
    pub request: CompanyInfoContentRequest,
    pub resp_header: Option<StdResponseHeader>,
    pub reply: CompanyInfoContent,
}

impl CompanyInfoContentPackage {
    pub fn new() -> (r: Result<Self, QuotesError>)
        ensures
            r is Ok,
            r.unwrap().req_header == (StdRequestHeader {
                zip_flag: FLAG_NOT_ZIPPED, seq_id: 0, packet_type: 0x01, pkg_len1: 0, pkg_len2: 0,
                method: STD_MSG_COMPANY_CONTENT,
            }),
            r.unwrap().request.market == 0,
            r.unwrap().request.length == 0,
            r.unwrap().resp_header is None,
            r.unwrap().reply.content@.len() == 0,
    {
        Ok(Self {
            req_header: StdRequestHeader {
                zip_flag: FLAG_NOT_ZIPPED, seq_id: 0, packet_type: 0x01, pkg_len1: 0, pkg_len2: 0,
                method: STD_MSG_COMPANY_CONTENT,
            },
            request: CompanyInfoContentRequest::zeroed(),
            resp_header: None,
            reply: CompanyInfoContent { market: 0, code: String::new(), name: None, length: 0, content: String::new() },
        })
    }

    pub fn set_params(&mut self, request: CompanyInfoContentRequest)
        ensures
            final(self).request == request,
            final(self).req_header == old(self).req_header,
            final(self).reply == old(self).reply,
            final(self).resp_header == old(self).resp_header,
    {
        self.request = request;
    }
}

impl Message for CompanyInfoContentPackage {
    open spec fn accepts(&self, body: Seq<u8>) -> bool {
        true
    }

    /// Header (declared length 104) followed by the request fields.
    fn serialize(&mut self, seq_id: u32) -> (r: Result<Vec<u8>, QuotesError>)
        ensures
            final(self).req_header == (StdRequestHeader { seq_id, pkg_len1: 104, pkg_len2: 104, ..old(self).req_header }),
            r is Ok,
            r.unwrap()@ == request_header_bytes(final(self).req_header) + content_request_bytes(old(self).request),
            final(self).request == old(self).request,
            final(self).reply == old(self).reply,
            final(self).resp_header == old(self).resp_header,
    {
        self.req_header.seq_id = seq_id;
        self.req_header.pkg_len1 = 104;
        self.req_header.pkg_len2 = 104;
        let mut out = self.req_header.to_bytes().unwrap();
        let ghost h = out@;
        push_u16_le(&mut out, self.request.market);
        push_bytes(&mut out, &self.request.code);
        push_u16_le(&mut out, self.request.unknown1);
        push_bytes(&mut out, &self.request.filename);
        push_u32_le(&mut out, self.request.offset);
        push_u32_le(&mut out, self.request.length);
        push_u32_le(&mut out, self.request.unknown2);
        assert(out@ =~= h + content_request_bytes(self.request));
        Ok(out)
    }

    /// Market, six code bytes, two unknown bytes, the text length, then the
    /// GB18030 text. Shorter than twelve bytes: nothing changes; shorter
    /// than the text: only the header is recorded.
    fn unserialize(&mut self, header: &StdResponseHeader, body: &[u8]) -> (r: Result<(), QuotesError>)
        ensures
            body@.len() < 12 ==> r == Err::<(), QuotesError>(QuotesError::ResponseTooShort)
                && final(self).resp_header == old(self).resp_header && final(self).reply == old(self).reply,
            body@.len() >= 12 ==> final(self).resp_header == Some(*header),
            body@.len() >= 12 && body@.len() < 12 + le_u16(body@, 10) ==>
                r == Err::<(), QuotesError>(QuotesError::UnexpectedEof) && final(self).reply == old(self).reply,
            body@.len() >= 12 + le_u16(body@, 10) ==> {
                &&& r is Ok
                &&& final(self).reply.market == le_u16(body@, 0)
                &&& final(self).reply.code@ == trim_end_nul(utf8_lossy(body@.subrange(2, 8)))
                &&& final(self).reply.name is None
                &&& final(self).reply.length == le_u16(body@, 10)
                &&& final(self).reply.content@ == spec_utf8_to_gbk(body@.subrange(12, 12 + le_u16(body@, 10)))
            },
            final(self).request == old(self).request,
            final(self).req_header == old(self).req_header,
    {
        if body.len() < 12 {
            return Err(QuotesError::ResponseTooShort);
        }
        self.resp_header = Some(*header);
        let market = read_u16_le(body, 0);
        let length = read_u16_le(body, 10);
        if body.len() - 12 < length as usize {
            return Err(QuotesError::UnexpectedEof);
        }
        let code_bytes = copy_range(body, 2, 8);
        let data = copy_range(body, 12, 12 + length as usize);
        self.reply.market = market;
        self.reply.code = trim_end_nul_exec(&lossy_utf8(code_bytes.as_slice()));
        self.reply.name = None;
        self.reply.length = length as u32;
        self.reply.content = utf8_to_gbk(data.as_slice());
        Ok(())
    }
}

pub fn new_company_info_content() -> (r: Result<CompanyInfoContentPackage, QuotesError>)
    ensures
        r is Ok,
        r.unwrap().req_header.method == STD_MSG_COMPANY_CONTENT,
{
    CompanyInfoContentPackage::new()
}

} // verus!
