//! Number of securities of a market.
use vstd::prelude::*;
use crate::internal::bytes::{le_u16, u16_le, push_bytes, push_u16_le, read_u16_le};
use crate::proto::{FLAG_NOT_ZIPPED, STD_MSG_SECURITY_COUNT};
use crate::quotes::base_consts::QuotesError;
use crate::quotes::message::{Message, StdRequestHeader, StdResponseHeader, request_header_bytes};

verus! {

#[derive(Debug, Default, Clone, Copy)]
pub struct SecurityCountRequest {
    pub market: u16,
}

#[derive(Debug, Default, Clone, Copy)]
pub struct SecurityCountReply {
    pub count: u16,
}

/// The fixed tail of the request.
pub open spec fn security_count_content() -> Seq<u8> {
    seq![0x75u8, 0xc7, 0x33, 0x01]
}

pub struct SecurityCountPackage {
    pub req_header: StdRequestHeader,
    pub request: SecurityCountRequest,
    pub resp_header: Option<StdResponseHeader>,
    pub reply: SecurityCountReply,
    pub content: Vec<u8>,
}

impl SecurityCountPackage {
    pub fn new() -> (r: Result<Self, QuotesError>)
        ensures
            r is Ok,
            r.unwrap().content@ == security_count_content(),
            r.unwrap().req_header == (StdRequestHeader {
                zip_flag: FLAG_NOT_ZIPPED, seq_id: 0, packet_type: 0x01, pkg_len1: 0, pkg_len2: 0,
                method: STD_MSG_SECURITY_COUNT,
            }),
            r.unwrap().request.market == 0,
            r.unwrap().resp_header is None,
            r.unwrap().reply.count == 0,
    {
        let content: Vec<u8> = vec![0x75, 0xc7, 0x33, 0x01];
        assert(content@ =~= security_count_content());
        Ok(Self {
            req_header: StdRequestHeader {
                zip_flag: FLAG_NOT_ZIPPED, seq_id: 0, packet_type: 0x01, pkg_len1: 0, pkg_len2: 0,
                method: STD_MSG_SECURITY_COUNT,
            },
            request: SecurityCountRequest { market: 0 },
            resp_header: None,
            reply: SecurityCountReply { count: 0 },
            content,
        })
    }

    pub fn set_params(&mut self, request: SecurityCountRequest)
        ensures
            final(self).request == request,
            final(self).req_header == old(self).req_header,
            final(self).content == old(self).content,
            final(self).reply == old(self).reply,
            final(self).resp_header == old(self).resp_header,
    {
        self.request = request;
    }
}

impl Message for SecurityCountPackage {
    open spec fn accepts(&self, body: Seq<u8>) -> bool {
        true
    }

    /// Header (length four plus the body), market, then the fixed tail.
    fn serialize(&mut self, seq_id: u32) -> (r: Result<Vec<u8>, QuotesError>)
        ensures
            old(self).content@.len() + 4 <= u16::MAX ==> {
                &&& final(self).req_header == (StdRequestHeader {
                    seq_id, pkg_len1: (old(self).content@.len() + 4) as u16,
                    pkg_len2: (old(self).content@.len() + 4) as u16, ..old(self).req_header })
                &&& r is Ok
                &&& r.unwrap()@ == request_header_bytes(final(self).req_header) + u16_le(old(self).request.market)
                    + old(self).content@
            },
            old(self).content@.len() + 4 > u16::MAX ==> r == Err::<Vec<u8>, QuotesError>(QuotesError::BadData),
            final(self).request == old(self).request,
            final(self).content == old(self).content,
            final(self).reply == old(self).reply,
            final(self).resp_header == old(self).resp_header,
    {
        if self.content.len() > 65531 {
            return Err(QuotesError::BadData);
        }
        self.req_header.seq_id = seq_id;
        let payload_len = (self.content.len() + 4) as u16;
        self.req_header.pkg_len1 = payload_len;
        self.req_header.pkg_len2 = payload_len;
        let mut out = self.req_header.to_bytes().unwrap();
        push_u16_le(&mut out, self.request.market);
        push_bytes(&mut out, self.content.as_slice());
        Ok(out)
    }

    /// The count is the first little-endian `u16`; a shorter body is an
    /// error that leaves the package as it was.
    fn unserialize(&mut self, header: &StdResponseHeader, body: &[u8]) -> (r: Result<(), QuotesError>)
        ensures
            body@.len() < 2 ==> r == Err::<(), QuotesError>(QuotesError::ResponseTooShort)
                && final(self).resp_header == old(self).resp_header
                && final(self).reply == old(self).reply,
            body@.len() >= 2 ==> r is Ok && final(self).resp_header == Some(*header)
                && final(self).reply.count == le_u16(body@, 0),
            final(self).request == old(self).request,
            final(self).req_header == old(self).req_header,
            final(self).content == old(self).content,
    {
        if body.len() < 2 {
            return Err(QuotesError::ResponseTooShort);
        }
        self.resp_header = Some(*header);
        self.reply.count = read_u16_le(body, 0);
        Ok(())
    }
}

pub fn new_security_count() -> (r: Result<SecurityCountPackage, QuotesError>)
    ensures
        r is Ok,
        r.unwrap().content@ == security_count_content(),
        r.unwrap().req_header.method == STD_MSG_SECURITY_COUNT,
        r.unwrap().request.market == 0,
{
    SecurityCountPackage::new()
}

} // verus!
