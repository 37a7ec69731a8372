//! Ex-rights and ex-dividend events of a security.
use vstd::prelude::*;
use crate::internal::bytes::{le_u16, le_u32, read_u16_le, read_u32_le};
use crate::internal::helpers::{fmt_int, push_int, get_datetime_from_u32, spec_datetime_from_u32};
use crate::internal::text::push_char;
use crate::proto::{FLAG_NOT_ZIPPED, STD_MSG_XDXR_INFO};
use crate::quotes::base_consts::QuotesError;
use crate::quotes::message::{Message, StdRequestHeader, StdResponseHeader, request_header_bytes};

verus! {

/// Name of an event category.
pub open spec fn xdxr_category_text(category: i32) -> Seq<char> {
    if category == 1 {
        "除权除息"@
    } else if category == 2 {
        "送配股上市"@
    } else if category == 3 {
        "非流通股上市"@
    } else if category == 4 {
        "未知股本变动"@
    } else if category == 5 {
        "股本变化"@
    } else if category == 6 {
        "增发新股"@
    } else if category == 7 {
        "股份回购"@
    } else if category == 8 {
        "增发新股上市"@
    } else if category == 9 {
        "转配股上市"@
    } else if category == 10 {
        "可转债上市"@
    } else if category == 11 {
        "扩缩股"@
    } else if category == 12 {
        "非流通股缩股"@
    } else if category == 13 {
        "送认购权证"@
    } else if category == 14 {
        "送认沽权证"@
    } else {
        "未知"@
    }
}

/// The name of an event category; unknown categories are `"未知"`.
pub fn get_xdxr_category_name(category: i32) -> (r: &'static str)
    ensures
        r@ == xdxr_category_text(category),
{
    match category {
        1 => "除权除息",
        2 => "送配股上市",
        3 => "非流通股上市",
        4 => "未知股本变动",
        5 => "股本变化",
        6 => "增发新股",
        7 => "股份回购",
        8 => "增发新股上市",
        9 => "转配股上市",
        10 => "可转债上市",
        11 => "扩缩股",
        12 => "非流通股缩股",
        13 => "送认购权证",
        14 => "送认沽权证",
        _ => "未知",
    }
}

#[derive(Debug, Clone, Default)]
pub struct XdxrInfoRequest {
    pub market: u8,
    pub code: [u8; 6],
}

/// One event. The dividend, rights price, bonus, rights, shrink, warrant
/// count and strike fields are raw `f32` bit patterns; the four share
/// counts are raw packed values that `int_to_f64` decodes (zero meaning
/// zero). Fields that the category does not carry are zero.
#[derive(Debug, Clone, Default)]
pub struct XdxrInfo {
    pub date: String,
    pub category: i32,
    pub name: String,
    pub fen_hong: u32,
    pub pei_gu_jia: u32,
    pub song_zhuan_gu: u32,
    pub pei_gu: u32,
    pub suo_gu: u32,
    pub qian_liu_tong: u32,
    pub hou_liu_tong: u32,
    pub qian_zong_gu_ben: u32,
    pub hou_zong_gu_ben: u32,
    pub fen_shu: u32,
    pub xing_quan_jia: u32,
}

/// A category that carries no share counts.
pub open spec fn is_non_capital_category(category: i32) -> bool {
    category == 1 || category == 11 || category == 12 || category == 13 || category == 14
}

impl XdxrInfo {
    /// A change of the share capital: a category that carries share counts,
    /// with both the floating and the total shares after it non-zero (a
    /// non-zero packed count decodes to a positive number).
    pub fn is_capital_change(&self) -> (r: bool)
        ensures
            r == (!is_non_capital_category(self.category) && self.hou_liu_tong != 0 && self.hou_zong_gu_ben != 0),
    {
        match self.category {
            1 | 11 | 12 | 13 | 14 => false,
            _ => self.hou_liu_tong != 0 && self.hou_zong_gu_ben != 0,
        }
    }
}

/// `"yyyy-mm-dd"` of a packed `yyyymmdd` date.
pub open spec fn xdxr_date_text(date: u32) -> Seq<char> {
    let d = spec_datetime_from_u32(9, date, 0);
    fmt_int(d.0 as int, 4) + seq!['-'] + fmt_int(d.1 as int, 2) + seq!['-'] + fmt_int(d.2 as int, 2)
}

/// The event record at `off` (29 bytes): market, code, one unknown byte,
/// the date, the category and sixteen bytes of category data.
pub open spec fn xdxr_at(body: Seq<u8>, off: int, x: XdxrInfo) -> bool {
    let category = body[off + 12] as i32;
    let d = off + 13;
    &&& x.date@ == xdxr_date_text(le_u32(body, off + 8) as u32)
    &&& x.category == category
    &&& x.name@ == xdxr_category_text(category)
    &&& x.fen_hong == (if category == 1 { le_u32(body, d) } else { 0 })
    &&& x.pei_gu_jia == (if category == 1 { le_u32(body, d + 4) } else { 0 })
    &&& x.song_zhuan_gu == (if category == 1 { le_u32(body, d + 8) } else { 0 })
    &&& x.pei_gu == (if category == 1 { le_u32(body, d + 12) } else { 0 })
    &&& x.suo_gu == (if category == 11 || category == 12 { le_u32(body, d + 8) } else { 0 })
    &&& x.xing_quan_jia == (if category == 13 || category == 14 { le_u32(body, d) } else { 0 })
    &&& x.fen_shu == (if category == 13 || category == 14 { le_u32(body, d + 8) } else { 0 })
    &&& x.qian_liu_tong == (if !is_non_capital_category(category) { le_u32(body, d) } else { 0 })
    &&& x.qian_zong_gu_ben == (if !is_non_capital_category(category) { le_u32(body, d + 4) } else { 0 })
    &&& x.hou_liu_tong == (if !is_non_capital_category(category) { le_u32(body, d + 8) } else { 0 })
    &&& x.hou_zong_gu_ben == (if !is_non_capital_category(category) { le_u32(body, d + 12) } else { 0 })
}

/// The sixteen bytes of category data of the event record at `off`, read as
/// four little-endian words.
pub open spec fn category_words(body: Seq<u8>, off: int) -> Seq<int> {
    Seq::new(4, |i: int| body[off + 13 + 4 * i] + 256 * body[off + 14 + 4 * i]
        + 65536 * body[off + 15 + 4 * i] + 16777216 * body[off + 16 + 4 * i])
}

/// Each category's fields are its data words in wire order. An ex-rights
/// event (category 1) holds dividend, rights-issue price, bonus shares and
/// rights-issue shares as words 0 to 3; a share consolidation (11, 12) its
/// ratio as word 2; a warrant (13, 14) its strike price as word 0 and its
/// count as word 2; any other category the circulating and total share
/// counts before, then after, as words 0 to 3. The category is the byte
/// before the data, and fields a category does not carry are zero.
pub proof fn lemma_event_fields_in_wire_order(body: Seq<u8>, off: int, x: XdxrInfo)
    requires
        xdxr_at(body, off, x),
    ensures
        x.category == body[off + 12] as i32,
        x.category == 1 ==> seq![x.fen_hong as int, x.pei_gu_jia as int, x.song_zhuan_gu as int, x.pei_gu as int]
            == category_words(body, off),
        x.category != 1 ==> x.fen_hong == 0 && x.pei_gu_jia == 0 && x.song_zhuan_gu == 0 && x.pei_gu == 0,
        (x.category == 11 || x.category == 12) ==> x.suo_gu as int == category_words(body, off)[2],
        (x.category == 13 || x.category == 14) ==> x.xing_quan_jia as int == category_words(body, off)[0]
            && x.fen_shu as int == category_words(body, off)[2],
        !(x.category == 1 || x.category == 11 || x.category == 12 || x.category == 13 || x.category == 14) ==>
            seq![x.qian_liu_tong as int, x.qian_zong_gu_ben as int, x.hou_liu_tong as int, x.hou_zong_gu_ben as int]
                == category_words(body, off),
{
    let w = category_words(body, off);
    if x.category == 1 {
        assert(seq![x.fen_hong as int, x.pei_gu_jia as int, x.song_zhuan_gu as int, x.pei_gu as int] =~= w);
    }
    if !(x.category == 1 || x.category == 11 || x.category == 12 || x.category == 13 || x.category == 14) {
        assert(seq![x.qian_liu_tong as int, x.qian_zong_gu_ben as int, x.hou_liu_tong as int, x.hou_zong_gu_ben as int] =~= w);
    }
}

/// The date of an event record is the `yyyymmdd` word at byte 8, written
/// `yyyy-mm-dd`.
pub proof fn lemma_event_date(body: Seq<u8>, off: int, x: XdxrInfo, year: int, month: int, day: int)
    requires
        xdxr_at(body, off, x),
        0 <= year <= 9999,
        1 <= month <= 12,
        1 <= day <= 31,
        le_u32(body, off + 8) == year * 10000 + month * 100 + day,
    ensures
        x.date@ == fmt_int(year, 4) + seq!['-'] + fmt_int(month, 2) + seq!['-'] + fmt_int(day, 2),
{
    crate::internal::helpers::lemma_bar_date_roundtrip(9, year, month, day, 0, 0);
}

/// How many whole event records a body of `len` bytes announcing `count`
/// of them holds after its eleven leading bytes.
pub open spec fn xdxr_records_read(len: int, count: int) -> int {
    if 11 + 29 * count <= len { count } else { (len - 11) / 29 }
}

fn xdxr_date_string(date: u32) -> (r: String)
    ensures
        r@ == xdxr_date_text(date),
{
    let (year, month, day, _, _) = get_datetime_from_u32(9, date, 0);
    let mut s = String::new();
    push_int(&mut s, year as i64, 4);
    push_char(&mut s, '-');
    push_int(&mut s, month as i64, 2);
    push_char(&mut s, '-');
    push_int(&mut s, day as i64, 2);
    assert(s@ =~= xdxr_date_text(date));
    s
}

/// Reads the record at `off`.
fn read_xdxr(body: &[u8], off: usize) -> (x: XdxrInfo)
    requires
        off + 29 <= body@.len(),
        body@.len() <= usize::MAX,
    ensures
        xdxr_at(body@, off as int, x),
{
    let category = body[off + 12] as i32;
    let d = off + 13;
    let mut x = XdxrInfo {
        date: xdxr_date_string(read_u32_le(body, off + 8)),
        category,
        name: get_xdxr_category_name(category).to_owned(),
        fen_hong: 0,
        pei_gu_jia: 0,
        song_zhuan_gu: 0,
        pei_gu: 0,
        suo_gu: 0,
        qian_liu_tong: 0,
        hou_liu_tong: 0,
        qian_zong_gu_ben: 0,
        hou_zong_gu_ben: 0,
        fen_shu: 0,
        xing_quan_jia: 0,
    };
    match category {
        1 => {
            x.fen_hong = read_u32_le(body, d);
            x.pei_gu_jia = read_u32_le(body, d + 4);
            x.song_zhuan_gu = read_u32_le(body, d + 8);
            x.pei_gu = read_u32_le(body, d + 12);
        },
        11 | 12 => {
            x.suo_gu = read_u32_le(body, d + 8);
        },
        13 | 14 => {
            x.xing_quan_jia = read_u32_le(body, d);
            x.fen_shu = read_u32_le(body, d + 8);
        },
        _ => {
            x.qian_liu_tong = read_u32_le(body, d);
            x.qian_zong_gu_ben = read_u32_le(body, d + 4);
            x.hou_liu_tong = read_u32_le(body, d + 8);
            x.hou_zong_gu_ben = read_u32_le(body, d + 12);
        },
    }
    x
}

#[derive(Debug, Clone)]
pub struct XdxrInfoPackage {
    pub req_header: StdRequestHeader,
    pub resp_header: StdResponseHeader,
    pub request: XdxrInfoRequest,
    pub reply: Vec<XdxrInfo>,
}

impl XdxrInfoPackage {
    /// A package whose header already declares the request's length (11).
    pub fn new() -> (r: Self)
        ensures
            r.req_header == (StdRequestHeader {
                zip_flag: FLAG_NOT_ZIPPED, seq_id: 0, packet_type: 0x01, pkg_len1: 0x000b, pkg_len2: 0x000b,
                method: STD_MSG_XDXR_INFO,
            }),
            r.request.market == 0,
            r.request.code@ == seq![0u8, 0, 0, 0, 0, 0],
            r.reply@.len() == 0,
    {
        let code = [0u8; 6];
        assert(code@ =~= seq![0u8, 0, 0, 0, 0, 0]);
        Self {
            req_header: StdRequestHeader {
                zip_flag: FLAG_NOT_ZIPPED, seq_id: 0, packet_type: 0x01, pkg_len1: 0x000b, pkg_len2: 0x000b,
                method: STD_MSG_XDXR_INFO,
            },
            resp_header: StdResponseHeader::zeroed(),
            request: XdxrInfoRequest { market: 0, code },
            reply: Vec::new(),
        }
    }

    pub fn set_params(&mut self, req: XdxrInfoRequest)
        ensures
            final(self).request == req,
            final(self).req_header == old(self).req_header,
            final(self).reply == old(self).reply,
            final(self).resp_header == old(self).resp_header,
    {
        self.request = req;
    }
}

impl Message for XdxrInfoPackage {
    open spec fn accepts(&self, body: Seq<u8>) -> bool {
        true
    }

    /// Header, the bytes `01 00`, market, code and four zero bytes: the
    /// twenty-five bytes a request takes. The header's length fields are set
    /// to that payload (thirteen bytes) plus two.
    fn serialize(&mut self, seq_id: u32) -> (r: Result<Vec<u8>, QuotesError>)
        ensures
            final(self).req_header == (StdRequestHeader { seq_id, pkg_len1: 0x000f, pkg_len2: 0x000f, ..old(self).req_header }),
            r is Ok,
            r.unwrap()@ == request_header_bytes(final(self).req_header) + seq![0x01u8, 0x00u8]
                + seq![old(self).request.market] + old(self).request.code@ + seq![0u8, 0u8, 0u8, 0u8],
            r.unwrap()@.len() == 25,
            final(self).request == old(self).request,
            final(self).reply == old(self).reply,
            final(self).resp_header == old(self).resp_header,
    {
        self.req_header.seq_id = seq_id;
        self.req_header.pkg_len1 = 0x000f;
        self.req_header.pkg_len2 = 0x000f;
        let mut out = self.req_header.to_bytes().unwrap();
        out.push(0x01);
        out.push(0x00);
        out.push(self.request.market);
        crate::internal::bytes::push_bytes(&mut out, &self.request.code);
        out.push(0);
        out.push(0);
        out.push(0);
        out.push(0);
        assert(out@ =~= request_header_bytes(self.req_header) + seq![0x01u8, 0x00u8]
            + seq![self.request.market] + self.request.code@ + seq![0u8, 0u8, 0u8, 0u8]);
        Ok(out)
    }

    /// Nine skipped bytes, a count, then 29-byte records. A body too short
    /// for the count keeps the old reply; a record cut off ends the reading
    /// with an error, the records before it kept.
    fn unserialize(&mut self, header: &StdResponseHeader, body: &[u8]) -> (r: Result<(), QuotesError>)
        ensures
            final(self).resp_header == *header,
            body@.len() < 11 ==> r == Err::<(), QuotesError>(QuotesError::UnexpectedEof)
                && final(self).reply == old(self).reply,
            body@.len() >= 11 ==> {
                let count = le_u16(body@, 9);
                let n = xdxr_records_read(body@.len() as int, count);
                &&& final(self).reply@.len() == n
                &&& forall|i: int| 0 <= i < n ==> xdxr_at(body@, 11 + 29 * i, #[trigger] final(self).reply@[i])
                &&& if 11 + 29 * count <= body@.len() {
                    r is Ok
                } else {
                    r == Err::<(), QuotesError>(QuotesError::UnexpectedEof)
                }
            },
            final(self).request == old(self).request,
            final(self).req_header == old(self).req_header,
    {
        self.resp_header = *header;
        if body.len() < 11 {
            return Err(QuotesError::UnexpectedEof);
        }
        let count = read_u16_le(body, 9);
        let avail = (body.len() - 11) / 29;
        let fits = (count as usize) <= avail;
        let n: usize = if fits { count as usize } else { avail };
        proof {
            let len = body@.len() as int;
            assert(fits <==> 11 + 29 * count <= len) by (nonlinear_arith)
                requires
                    avail == (len - 11) / 29,
                    len >= 11,
                    fits <==> count <= avail;
            assert(11 + 29 * n <= len) by (nonlinear_arith)
                requires
                    avail == (len - 11) / 29,
                    len >= 11,
                    n <= avail;
        }
        let mut list: Vec<XdxrInfo> = Vec::new();
        let mut i: usize = 0;
        while i < n
            invariant
                i <= n,
                11 + 29 * n <= body@.len(),
                body@.len() <= usize::MAX,
                list@.len() == i,
                forall|j: int| 0 <= j < i ==> xdxr_at(body@, 11 + 29 * j, #[trigger] list@[j]),
            decreases n - i,
        {
            assert(11 + 29 * i + 29 <= 11 + 29 * n) by (nonlinear_arith)
                requires
                    i < n;
            let x = read_xdxr(body, 11 + 29 * i);
            list.push(x);
            i = i + 1;
        }
        self.reply = list;
        if fits {
            Ok(())
        } else {
            Err(QuotesError::UnexpectedEof)
        }
    }
}

pub fn new_xdxr_info() -> (r: Result<XdxrInfoPackage, QuotesError>)
    ensures
        r is Ok,
        r.unwrap().req_header.method == STD_MSG_XDXR_INFO,
        r.unwrap().reply@.len() == 0,
{
    Ok(XdxrInfoPackage::new())
}

} // verus!
