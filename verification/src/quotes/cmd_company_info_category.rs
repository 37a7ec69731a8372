//! Index of the company information files of a security.
use vstd::prelude::*;
use crate::internal::bytes::{le_u16, le_u32, u16_le, u32_le, copy_range, push_bytes, push_u16_le, push_u32_le, read_u16_le, read_u32_le};
use crate::internal::helpers::{utf8_to_gbk, spec_utf8_to_gbk};
use crate::proto::{FLAG_NOT_ZIPPED, STD_MSG_COMPANY_CATEGORY};
use crate::quotes::base_consts::QuotesError;
use crate::quotes::message::{Message, StdRequestHeader, StdResponseHeader, request_header_bytes};

verus! {

#[derive(Debug, Default, Clone, Copy)]
pub struct CompanyInfoCategoryRequest {
    pub market: u16,
    pub code: [u8; 6],
    pub unknown: u32,
}

#[derive(Debug, Default, Clone)]
pub struct CompanyInfoCategory {
    pub name: String,
    pub filename: String,
    pub offset: u32,
    pub length: u32,
}

/// Size of one category record.
pub const CATEGORY_RECORD_BYTES: usize = 152;

/// The record at `off`: a 64-byte name, an 80-byte file name (both GB18030,
/// cut at the first zero byte), then offset and length.
pub open spec fn category_at(body: Seq<u8>, off: int, c: CompanyInfoCategory) -> bool {
    &&& c.name@ == spec_utf8_to_gbk(body.subrange(off, off + 64))
    &&& c.filename@ == spec_utf8_to_gbk(body.subrange(off + 64, off + 144))
    &&& c.offset == le_u32(body, off + 144)
    &&& c.length == le_u32(body, off + 148)
}

pub struct CompanyInfoCategoryPackage {
    pub req_header: StdRequestHeader,
    pub request: CompanyInfoCategoryRequest,
    pub resp_header: Option<StdResponseHeader>,
    pub reply: Vec<CompanyInfoCategory>,
}

impl CompanyInfoCategoryPackage {
    pub fn new() -> (r: Result<Self, QuotesError>)
        ensures
            r is Ok,
            r.unwrap().req_header == (StdRequestHeader {
                zip_flag: FLAG_NOT_ZIPPED, seq_id: 0, packet_type: 0x01, pkg_len1: 0, pkg_len2: 0,
                method: STD_MSG_COMPANY_CATEGORY,
            }),
            r.unwrap().request.market == 0,
            r.unwrap().request.code@ == seq![0u8, 0, 0, 0, 0, 0],
            r.unwrap().request.unknown == 0,
            r.unwrap().resp_header is None,
            r.unwrap().reply@.len() == 0,
    {
        let code = [0u8; 6];
        assert(code@ =~= seq![0u8, 0, 0, 0, 0, 0]);
        Ok(Self {
            req_header: StdRequestHeader {
                zip_flag: FLAG_NOT_ZIPPED, seq_id: 0, packet_type: 0x01, pkg_len1: 0, pkg_len2: 0,
                method: STD_MSG_COMPANY_CATEGORY,
            },
            request: CompanyInfoCategoryRequest { market: 0, code, unknown: 0 },
            resp_header: None,
            reply: Vec::new(),
        })
    }

    pub fn set_params(&mut self, request: CompanyInfoCategoryRequest)
        ensures
            final(self).request == request,
            final(self).req_header == old(self).req_header,
            final(self).reply == old(self).reply,
            final(self).resp_header == old(self).resp_header,
    {
        self.request = request;
    }
}

impl Message for CompanyInfoCategoryPackage {
    open spec fn accepts(&self, body: Seq<u8>) -> bool {
        true
    }

    /// Header (declared length 14), market, code and the unknown field.
    fn serialize(&mut self, seq_id: u32) -> (r: Result<Vec<u8>, QuotesError>)
        ensures
            final(self).req_header == (StdRequestHeader { seq_id, pkg_len1: 14, pkg_len2: 14, ..old(self).req_header }),
            r is Ok,
            r.unwrap()@ == request_header_bytes(final(self).req_header) + u16_le(old(self).request.market)
                + old(self).request.code@ + u32_le(old(self).request.unknown),
            final(self).request == old(self).request,
            final(self).reply == old(self).reply,
            final(self).resp_header == old(self).resp_header,
    {
        self.req_header.seq_id = seq_id;
        self.req_header.pkg_len1 = 14;
        self.req_header.pkg_len2 = 14;
        let mut out = self.req_header.to_bytes().unwrap();
        push_u16_le(&mut out, self.request.market);
        push_bytes(&mut out, &self.request.code);
        push_u32_le(&mut out, self.request.unknown);
        Ok(out)
    }

    /// A count, then that many 152-byte records. A body shorter than two
    /// bytes leaves the package unchanged; a body too short for the records
    /// keeps the old reply but records the header.
    fn unserialize(&mut self, header: &StdResponseHeader, body: &[u8]) -> (r: Result<(), QuotesError>)
        ensures
            body@.len() < 2 ==> r == Err::<(), QuotesError>(QuotesError::ResponseTooShort)
                && final(self).resp_header == old(self).resp_header && final(self).reply == old(self).reply,
            body@.len() >= 2 ==> final(self).resp_header == Some(*header),
            body@.len() >= 2 && body@.len() < 2 + le_u16(body@, 0) * 152 ==>
                r == Err::<(), QuotesError>(QuotesError::EntryTruncated) && final(self).reply == old(self).reply,
            body@.len() >= 2 && body@.len() >= 2 + le_u16(body@, 0) * 152 ==> {
                &&& r is Ok
                &&& final(self).reply@.len() == le_u16(body@, 0)
                &&& forall|i: int| 0 <= i < final(self).reply@.len()
                    ==> category_at(body@, 2 + 152 * i, #[trigger] final(self).reply@[i])
            },
            final(self).request == old(self).request,
            final(self).req_header == old(self).req_header,
    {
        if body.len() < 2 {
            return Err(QuotesError::ResponseTooShort);
        }
        self.resp_header = Some(*header);
        let count = read_u16_le(body, 0) as usize;
        let expected_len = 2 + count * 152;
        if body.len() < expected_len {
            return Err(QuotesError::EntryTruncated);
        }
        let mut list: Vec<CompanyInfoCategory> = Vec::new();
        let mut i: usize = 0;
        while i < count
            invariant
                i <= count,
                count == le_u16(body@, 0),
                body@.len() >= 2 + count * 152,
                list@.len() == i,
                forall|j: int| 0 <= j < i ==> category_at(body@, 2 + 152 * j, #[trigger] list@[j]),
            decreases count - i,
        {
            let off = 2 + 152 * i;
            let name_bytes = copy_range(body, off, off + 64);
            let file_bytes = copy_range(body, off + 64, off + 144);
            let c = CompanyInfoCategory {
                name: utf8_to_gbk(name_bytes.as_slice()),
                filename: utf8_to_gbk(file_bytes.as_slice()),
                offset: read_u32_le(body, off + 144),
                length: read_u32_le(body, off + 148),
            };
            list.push(c);
            i = i + 1;
        }
        self.reply = list;
        Ok(())
    }
}

pub fn new_company_info_category() -> (r: Result<CompanyInfoCategoryPackage, QuotesError>)
    ensures
        r is Ok,
        r.unwrap().req_header.method == STD_MSG_COMPANY_CATEGORY,
        r.unwrap().reply@.len() == 0,
{
    CompanyInfoCategoryPackage::new()
}

} // verus!
