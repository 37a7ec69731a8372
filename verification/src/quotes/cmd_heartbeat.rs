//! Heartbeat command.
use vstd::prelude::*;
use crate::internal::bytes::push_bytes;
use crate::internal::helpers::{utf8_to_gbk, spec_utf8_to_gbk};
use crate::proto::{FLAG_NOT_ZIPPED, STD_MSG_HEARTBEAT};
use crate::quotes::base_consts::QuotesError;
use crate::quotes::message::{Message, StdRequestHeader, StdResponseHeader, request_header_bytes};

verus! {

#[derive(Debug, Default, Clone)]
pub struct HeartBeatReply {
    pub info: String,
}

impl HeartBeatReply {
    /// Whether the server sent no text.
    pub fn is_empty(&self) -> (r: bool)
        ensures
            r == (self.info@.len() == 0),
    {
        self.info.as_str().is_empty()
    }
}

/// The fixed heartbeat request body.
pub open spec fn heartbeat_content() -> Seq<u8> {
    seq![0x02u8, 0x02, 0x00, 0x02, 0x00, 0x04, 0x00]
}

pub struct HeartBeatPackage {
    pub req_header: StdRequestHeader,
    pub resp_header: Option<StdResponseHeader>,
    pub reply: HeartBeatReply,
    pub content: Vec<u8>,
}

impl HeartBeatPackage {
    pub fn new() -> (r: Result<Self, QuotesError>)
        ensures
            r is Ok,
            r.unwrap().content@ == heartbeat_content(),
            r.unwrap().req_header == (StdRequestHeader {
                zip_flag: FLAG_NOT_ZIPPED, seq_id: 0, packet_type: 0x02, pkg_len1: 0, pkg_len2: 0,
                method: STD_MSG_HEARTBEAT,
            }),
            r.unwrap().resp_header is None,
            r.unwrap().reply.info@.len() == 0,
    {
        let content: Vec<u8> = vec![0x02, 0x02, 0x00, 0x02, 0x00, 0x04, 0x00];
        assert(content@ =~= heartbeat_content());
        Ok(Self {
            req_header: StdRequestHeader {
                zip_flag: FLAG_NOT_ZIPPED, seq_id: 0, packet_type: 0x02, pkg_len1: 0, pkg_len2: 0,
                method: STD_MSG_HEARTBEAT,
            },
            resp_header: None,
            reply: HeartBeatReply { info: String::new() },
            content,
        })
    }
}

impl Message for HeartBeatPackage {
    open spec fn accepts(&self, body: Seq<u8>) -> bool {
        body.len() * 3 + 8 <= usize::MAX
    }

    /// The header (length of the body plus two) followed by the body.
    fn serialize(&mut self, seq_id: u32) -> (r: Result<Vec<u8>, QuotesError>)
        ensures
            old(self).content@.len() + 2 <= u16::MAX ==> {
                &&& final(self).req_header == (StdRequestHeader {
                    seq_id, pkg_len1: (old(self).content@.len() + 2) as u16,
                    pkg_len2: (old(self).content@.len() + 2) as u16, ..old(self).req_header })
                &&& r is Ok
                &&& r.unwrap()@ == request_header_bytes(final(self).req_header) + old(self).content@
            },
            old(self).content@.len() + 2 > u16::MAX ==> r == Err::<Vec<u8>, QuotesError>(QuotesError::BadData),
            final(self).content == old(self).content,
            final(self).reply == old(self).reply,
            final(self).resp_header == old(self).resp_header,
    {
        if self.content.len() > 65533 {
            return Err(QuotesError::BadData);
        }
        self.req_header.seq_id = seq_id;
        let payload_len = (self.content.len() + 2) as u16;
        self.req_header.pkg_len1 = payload_len;
        self.req_header.pkg_len2 = payload_len;
        let mut out = self.req_header.to_bytes().unwrap();
        push_bytes(&mut out, self.content.as_slice());
        Ok(out)
    }

    /// The whole body is the server's text.
    fn unserialize(&mut self, header: &StdResponseHeader, body: &[u8]) -> (r: Result<(), QuotesError>)
        ensures
            r is Ok,
            final(self).resp_header == Some(*header),
            final(self).reply.info@ == spec_utf8_to_gbk(body@),
            final(self).req_header == old(self).req_header,
            final(self).content == old(self).content,
    {
        self.resp_header = Some(*header);
        self.reply.info = utf8_to_gbk(body);
        Ok(())
    }
}

pub fn new_heartbeat() -> (r: Result<HeartBeatPackage, QuotesError>)
    ensures
        r is Ok,
        r.unwrap().content@ == heartbeat_content(),
        r.unwrap().req_header.method == STD_MSG_HEARTBEAT,
        r.unwrap().req_header.packet_type == 0x02,
        r.unwrap().req_header.zip_flag == FLAG_NOT_ZIPPED,
{
    HeartBeatPackage::new()
}

} // verus!
