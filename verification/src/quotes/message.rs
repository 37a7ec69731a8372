//! Request and response headers, and the interface every command package
//! offers to the transport.
use vstd::prelude::*;
use crate::internal::bytes::{le_u16, le_u32, u16_le, u32_le, push_u16_le, push_u32_le, read_u16_le, read_u32_le};
use crate::internal::helpers::zlib_inflate;
use crate::quotes::base_consts::{QuotesError, MESSAGE_HEADER_BYTES, MESSAGE_MAX_BYTES};

verus! {

/// Header of a request.
#[derive(Debug, Default, Clone, Copy)]
pub struct StdRequestHeader {
    pub zip_flag: u8,
    pub seq_id: u32,
    pub packet_type: u8,
    pub pkg_len1: u16,
    pub pkg_len2: u16,
    pub method: u16,
}

/// The twelve bytes of a request header: flag, sequence id, packet type,
/// both lengths and the method, integers little-endian.
pub open spec fn request_header_bytes(h: StdRequestHeader) -> Seq<u8> {
    seq![h.zip_flag] + u32_le(h.seq_id) + seq![h.packet_type] + u16_le(h.pkg_len1) + u16_le(h.pkg_len2)
        + u16_le(h.method)
}

impl StdRequestHeader {
    /// The header's wire form.
    pub fn to_bytes(&self) -> (r: Result<Vec<u8>, QuotesError>)
        ensures
            r is Ok,
            r.unwrap()@ == request_header_bytes(*self),
    {
        let mut buf: Vec<u8> = Vec::new();
        buf.push(self.zip_flag);
        push_u32_le(&mut buf, self.seq_id);
        buf.push(self.packet_type);
        push_u16_le(&mut buf, self.pkg_len1);
        push_u16_le(&mut buf, self.pkg_len2);
        push_u16_le(&mut buf, self.method);
        assert(buf@ =~= request_header_bytes(*self));
        Ok(buf)
    }
}

/// Header of a response.
#[derive(Debug, Default, Clone, Copy)]
pub struct StdResponseHeader {
    pub i1: u32,
    pub zip_flag: u8,
    pub seq_id: u32,
    pub i3: u8,
    pub method: u16,
    pub zip_size: u16,
    pub unzip_size: u16,
}

/// The response header laid out in the first sixteen bytes.
pub open spec fn spec_response_header(b: Seq<u8>) -> StdResponseHeader {
    StdResponseHeader {
        i1: le_u32(b, 0) as u32,
        zip_flag: b[4],
        seq_id: le_u32(b, 5) as u32,
        i3: b[9],
        method: le_u16(b, 10) as u16,
        zip_size: le_u16(b, 12) as u16,
        unzip_size: le_u16(b, 14) as u16,
    }
}

/// The sixteen bytes that carry a response header.
pub open spec fn response_header_bytes(h: StdResponseHeader) -> Seq<u8> {
    u32_le(h.i1) + seq![h.zip_flag] + u32_le(h.seq_id) + seq![h.i3] + u16_le(h.method)
        + u16_le(h.zip_size) + u16_le(h.unzip_size)
}

/// Reading a response header back from its bytes gives the header.
pub proof fn lemma_response_header_roundtrip(h: StdResponseHeader)
    ensures
        response_header_bytes(h).len() == MESSAGE_HEADER_BYTES,
        spec_response_header(response_header_bytes(h)) == h,
{
    let b = response_header_bytes(h);
    assert(b.len() == 16);
    assert(b[4] == h.zip_flag);
    assert(b[9] == h.i3);
}

impl StdResponseHeader {
    /// A header with every field zero.
    pub fn zeroed() -> (r: Self)
        ensures
            r == (StdResponseHeader { i1: 0, zip_flag: 0, seq_id: 0, i3: 0, method: 0, zip_size: 0, unzip_size: 0 }),
    {
        StdResponseHeader { i1: 0, zip_flag: 0, seq_id: 0, i3: 0, method: 0, zip_size: 0, unzip_size: 0 }
    }

    /// Reads a response header; fewer than sixteen bytes is an error.
    pub fn from_bytes(bytes: &[u8]) -> (r: Result<Self, QuotesError>)
        ensures
            bytes@.len() < MESSAGE_HEADER_BYTES ==> r == Err::<Self, QuotesError>(QuotesError::ResponseTooShort),
            bytes@.len() >= MESSAGE_HEADER_BYTES ==> r == Ok::<Self, QuotesError>(spec_response_header(bytes@)),
    {
        if bytes.len() < MESSAGE_HEADER_BYTES {
            return Err(QuotesError::ResponseTooShort);
        }
        Ok(StdResponseHeader {
            i1: read_u32_le(bytes, 0),
            zip_flag: bytes[4],
            seq_id: read_u32_le(bytes, 5),
            i3: bytes[9],
            method: read_u16_le(bytes, 10),
            zip_size: read_u16_le(bytes, 12),
            unzip_size: read_u16_le(bytes, 14),
        })
    }

    /// Size of the body that follows the header, refused above the protocol's
    /// limit.
    pub fn body_len(&self) -> (r: Result<usize, QuotesError>)
        ensures
            self.zip_size > MESSAGE_MAX_BYTES ==> r == Err::<usize, QuotesError>(QuotesError::BadData),
            self.zip_size <= MESSAGE_MAX_BYTES ==> r == Ok::<usize, QuotesError>(self.zip_size as usize),
    {
        if self.zip_size as usize > MESSAGE_MAX_BYTES {
            Err(QuotesError::BadData)
        } else {
            Ok(self.zip_size as usize)
        }
    }

    /// The body as the command reads it: inflated when the compressed and
    /// plain sizes differ, as received otherwise.
    pub fn decode_body(&self, data: Vec<u8>) -> (r: Result<Vec<u8>, QuotesError>)
        ensures
            self.zip_size == self.unzip_size ==> r == Ok::<Vec<u8>, QuotesError>(data),
            self.zip_size != self.unzip_size ==> match zlib_inflate(data@) {
                Some(v) => r is Ok && r.unwrap()@ == v,
                None => r == Err::<Vec<u8>, QuotesError>(QuotesError::Decompress),
            },
    {
        if self.zip_size != self.unzip_size {
            crate::internal::helpers::zlib_decompress(data.as_slice())
        } else {
            Ok(data)
        }
    }
}

/// A command: it serializes a request and reads the matching response body.
pub trait Message {
    /// The bodies the command can be given: a length far below
    /// `usize::MAX`, as any slice in memory has.
    spec fn accepts(&self, body: Seq<u8>) -> bool;

    /// The request bytes, carrying the given sequence id.
    fn serialize(&mut self, seq_id: u32) -> (r: Result<Vec<u8>, QuotesError>);

    /// Reads the response body into the reply; a body whose integer
    /// arithmetic would leave `i32` is the `Overflow` error.
    fn unserialize(&mut self, header: &StdResponseHeader, body: &[u8]) -> (r: Result<(), QuotesError>)
        requires
            old(self).accepts(body@),
    ;
}

} // verus!
