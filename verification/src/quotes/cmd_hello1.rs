//! Login handshake command (hello1).
use vstd::prelude::*;
use crate::internal::bytes::{copy_range, push_bytes};
use crate::internal::helpers::{utf8_to_gbk, spec_utf8_to_gbk};
use crate::proto::{FLAG_NOT_ZIPPED, STD_MSG_LOGIN1};
use crate::quotes::base_consts::QuotesError;
use crate::quotes::message::{Message, StdRequestHeader, StdResponseHeader, request_header_bytes};

verus! {

#[derive(Debug, Default)]
pub struct Hello1Request;

#[derive(Debug, Default, Clone)]
pub struct Hello1Reply {
    pub info: String,
    pub server_time: Option<String>,
}

/// The fixed request body.
pub open spec fn hello1_content() -> Seq<u8> {
    seq![0x01u8]
}

/// The server's text: what follows the first 68 bytes of the body, or
/// the whole body when it is shorter.
pub open spec fn hello1_info(body: Seq<u8>) -> Seq<char> {
    if body.len() < 68 { spec_utf8_to_gbk(body) } else { spec_utf8_to_gbk(body.skip(68)) }
}

pub struct Hello1Package {
    pub req_header: StdRequestHeader,
    pub request: Hello1Request,
    pub resp_header: Option<StdResponseHeader>,
    pub reply: Hello1Reply,
    pub content: Vec<u8>,
}

impl Hello1Package {
    pub fn new() -> (r: Result<Self, QuotesError>)
        ensures
            r is Ok,
            r.unwrap().content@ == hello1_content(),
            r.unwrap().req_header == (StdRequestHeader {
                zip_flag: FLAG_NOT_ZIPPED, seq_id: 0, packet_type: 0x01, pkg_len1: 0, pkg_len2: 0,
                method: STD_MSG_LOGIN1,
            }),
            r.unwrap().resp_header is None,
            r.unwrap().reply.info@.len() == 0,
            r.unwrap().reply.server_time is None,
    {
        let content: Vec<u8> = vec![0x01];
        assert(content@ =~= hello1_content());
        Ok(Self {
            req_header: StdRequestHeader {
                zip_flag: FLAG_NOT_ZIPPED, seq_id: 0, packet_type: 0x01, pkg_len1: 0, pkg_len2: 0,
                method: STD_MSG_LOGIN1,
            },
            request: Hello1Request,
            resp_header: None,
            reply: Hello1Reply { info: String::new(), server_time: None },
            content,
        })
    }
}

impl Message for Hello1Package {
    open spec fn accepts(&self, body: Seq<u8>) -> bool {
        body.len() * 3 + 8 <= usize::MAX
    }

    /// The header (length of the body plus two) followed by the body.
    fn serialize(&mut self, seq_id: u32) -> (r: Result<Vec<u8>, QuotesError>)
        ensures
            old(self).content@.len() + 2 <= u16::MAX ==> {
                &&& final(self).req_header == (StdRequestHeader {
                    seq_id, pkg_len1: (old(self).content@.len() + 2) as u16,
                    pkg_len2: (old(self).content@.len() + 2) as u16, ..old(self).req_header })
                &&& r is Ok
                &&& r.unwrap()@ == request_header_bytes(final(self).req_header) + old(self).content@
            },
            old(self).content@.len() + 2 > u16::MAX ==> r == Err::<Vec<u8>, QuotesError>(QuotesError::BadData),
            final(self).content == old(self).content,
            final(self).reply == old(self).reply,
            final(self).resp_header == old(self).resp_header,
    {
        if self.content.len() > 65533 {
            return Err(QuotesError::BadData);
        }
        self.req_header.seq_id = seq_id;
        let payload_len = (self.content.len() + 2) as u16;
        self.req_header.pkg_len1 = payload_len;
        self.req_header.pkg_len2 = payload_len;
        let mut out = self.req_header.to_bytes().unwrap();
        push_bytes(&mut out, self.content.as_slice());
        Ok(out)
    }

    fn unserialize(&mut self, header: &StdResponseHeader, body: &[u8]) -> (r: Result<(), QuotesError>)
        ensures
            r is Ok,
            final(self).resp_header == Some(*header),
            final(self).reply.info@ == hello1_info(body@),
            final(self).reply.server_time == old(self).reply.server_time,
            final(self).req_header == old(self).req_header,
            final(self).content == old(self).content,
    {
        self.resp_header = Some(*header);
        if body.len() < 68 {
            self.reply.info = utf8_to_gbk(body);
        } else {
            let rest = copy_range(body, 68, body.len());
            assert(rest@ == body@.skip(68));
            self.reply.info = utf8_to_gbk(rest.as_slice());
        }
        Ok(())
    }
}

pub fn new_hello1() -> (r: Result<Hello1Package, QuotesError>)
    ensures
        r is Ok,
        r.unwrap().content@ == hello1_content(),
        r.unwrap().req_header.method == STD_MSG_LOGIN1,
        r.unwrap().req_header.zip_flag == FLAG_NOT_ZIPPED,
{
    Hello1Package::new()
}

} // verus!
