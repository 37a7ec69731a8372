//! Financial summary of one security.
use vstd::prelude::*;
use crate::internal::bytes::{le_u16, le_u32, u16_le, copy_range, push_bytes, push_u16_le, read_u16_le, read_u32_le};
use crate::internal::text::{lossy_utf8, trim_end_nul, trim_end_nul_exec, utf8_lossy};
use crate::proto::{FLAG_NOT_ZIPPED, STD_MSG_FINANCE_INFO};
use crate::quotes::base_consts::QuotesError;
use crate::quotes::message::{Message, StdRequestHeader, StdResponseHeader, request_header_bytes};

verus! {

#[derive(Debug, Clone)]
pub struct FinanceInfoRequest {
    pub count: u16,
    pub market: u8,
    pub code: [u8; 6],
}

/// The financial summary. Every amount is the raw bit pattern of the
/// little-endian `f32` the server sends (`f32::from_bits` gives the value).
#[derive(Debug, Clone)]
pub struct FinanceInfo {
    pub code: String,
    pub liu_tong_gu_ben: u32,
    pub province: u16,
    pub industry: u16,
    pub updated_date: u32,
    pub ipo_date: u32,
    pub zong_gu_ben: u32,
    pub guo_jia_gu: u32,
    pub fa_qi_ren_fa_ren_gu: u32,
    pub fa_ren_gu: u32,
    pub b_gu: u32,
    pub h_gu: u32,
    pub zhi_gong_gu: u32,
    pub zong_zi_chan: u32,
    pub liu_dong_zi_chan: u32,
    pub gu_ding_zi_chan: u32,
    pub wu_xing_zi_chan: u32,
    pub gu_dong_ren_shu: u32,
    pub liu_dong_fu_zhai: u32,
    pub chang_qi_fu_zhai: u32,
    pub zi_ben_gong_ji_jin: u32,
    pub jing_zi_chan: u32,
    pub zhu_ying_shou_ru: u32,
    pub zhu_ying_li_run: u32,
    pub ying_shou_zhang_kuan: u32,
    pub ying_ye_li_run: u32,
    pub tou_zi_shou_yu: u32,
    pub jing_ying_xian_jin_liu: u32,
    pub zong_xian_jin_liu: u32,
    pub cun_huo: u32,
    pub li_run_zong_he: u32,
    pub shui_hou_li_run: u32,
    pub jing_li_run: u32,
    pub wei_fen_li_run: u32,
    pub mei_gu_jing_zi_chan: u32,
    pub bao_liu_2: u32,
}

/// Size of a finance reply: market, code and the fields.
pub const FINANCE_INFO_BYTES: usize = 143;

/// `bits` is the pattern of an `f32` zero, positive or negative.
pub open spec fn is_zero_f32(bits: u32) -> bool {
    bits & 0x7fff_ffff == 0
}

/// The reply read from a body: a market byte, a 6-byte code (cut at its
/// trailing zero bytes), then the fields in declaration order.
pub open spec fn finance_at(body: Seq<u8>, f: FinanceInfo) -> bool {
    &&& f.code@ == trim_end_nul(utf8_lossy(body.subrange(1, 7)))
    &&& f.liu_tong_gu_ben == le_u32(body, 7)
    &&& f.province == le_u16(body, 11)
    &&& f.industry == le_u16(body, 13)
    &&& f.updated_date == le_u32(body, 15)
    &&& f.ipo_date == le_u32(body, 19)
    &&& f.zong_gu_ben == le_u32(body, 23)
    &&& f.guo_jia_gu == le_u32(body, 27)
    &&& f.fa_qi_ren_fa_ren_gu == le_u32(body, 31)
    &&& f.fa_ren_gu == le_u32(body, 35)
    &&& f.b_gu == le_u32(body, 39)
    &&& f.h_gu == le_u32(body, 43)
    &&& f.zhi_gong_gu == le_u32(body, 47)
    &&& f.zong_zi_chan == le_u32(body, 51)
    &&& f.liu_dong_zi_chan == le_u32(body, 55)
    &&& f.gu_ding_zi_chan == le_u32(body, 59)
    &&& f.wu_xing_zi_chan == le_u32(body, 63)
    &&& f.gu_dong_ren_shu == le_u32(body, 67)
    &&& f.liu_dong_fu_zhai == le_u32(body, 71)
    &&& f.chang_qi_fu_zhai == le_u32(body, 75)
    &&& f.zi_ben_gong_ji_jin == le_u32(body, 79)
    &&& f.jing_zi_chan == le_u32(body, 83)
    &&& f.zhu_ying_shou_ru == le_u32(body, 87)
    &&& f.zhu_ying_li_run == le_u32(body, 91)
    &&& f.ying_shou_zhang_kuan == le_u32(body, 95)
    &&& f.ying_ye_li_run == le_u32(body, 99)
    &&& f.tou_zi_shou_yu == le_u32(body, 103)
    &&& f.jing_ying_xian_jin_liu == le_u32(body, 107)
    &&& f.zong_xian_jin_liu == le_u32(body, 111)
    &&& f.cun_huo == le_u32(body, 115)
    &&& f.li_run_zong_he == le_u32(body, 119)
    &&& f.shui_hou_li_run == le_u32(body, 123)
    &&& f.jing_li_run == le_u32(body, 127)
    &&& f.wei_fen_li_run == le_u32(body, 131)
    &&& f.mei_gu_jing_zi_chan == le_u32(body, 135)
    &&& f.bao_liu_2 == le_u32(body, 139)
}

impl Default for FinanceInfo {
    fn default() -> (r: Self)
        ensures
            r.code@.len() == 0,
            r.liu_tong_gu_ben == 0 && r.province == 0 && r.industry == 0 && r.updated_date == 0 && r.ipo_date == 0 && r.zong_gu_ben == 0 && r.guo_jia_gu == 0 && r.fa_qi_ren_fa_ren_gu == 0 && r.fa_ren_gu == 0 && r.b_gu == 0 && r.h_gu == 0 && r.zhi_gong_gu == 0 && r.zong_zi_chan == 0 && r.liu_dong_zi_chan == 0 && r.gu_ding_zi_chan == 0 && r.wu_xing_zi_chan == 0 && r.gu_dong_ren_shu == 0 && r.liu_dong_fu_zhai == 0 && r.chang_qi_fu_zhai == 0 && r.zi_ben_gong_ji_jin == 0 && r.jing_zi_chan == 0 && r.zhu_ying_shou_ru == 0 && r.zhu_ying_li_run == 0 && r.ying_shou_zhang_kuan == 0 && r.ying_ye_li_run == 0 && r.tou_zi_shou_yu == 0 && r.jing_ying_xian_jin_liu == 0 && r.zong_xian_jin_liu == 0 && r.cun_huo == 0 && r.li_run_zong_he == 0 && r.shui_hou_li_run == 0 && r.jing_li_run == 0 && r.wei_fen_li_run == 0 && r.mei_gu_jing_zi_chan == 0 && r.bao_liu_2 == 0,
    {
        FinanceInfo {
            code: String::new(),
            liu_tong_gu_ben: 0,
            province: 0,
            industry: 0,
            updated_date: 0,
            ipo_date: 0,
            zong_gu_ben: 0,
            guo_jia_gu: 0,
            fa_qi_ren_fa_ren_gu: 0,
            fa_ren_gu: 0,
            b_gu: 0,
            h_gu: 0,
            zhi_gong_gu: 0,
            zong_zi_chan: 0,
            liu_dong_zi_chan: 0,
            gu_ding_zi_chan: 0,
            wu_xing_zi_chan: 0,
            gu_dong_ren_shu: 0,
            liu_dong_fu_zhai: 0,
            chang_qi_fu_zhai: 0,
            zi_ben_gong_ji_jin: 0,
            jing_zi_chan: 0,
            zhu_ying_shou_ru: 0,
            zhu_ying_li_run: 0,
            ying_shou_zhang_kuan: 0,
            ying_ye_li_run: 0,
            tou_zi_shou_yu: 0,
            jing_ying_xian_jin_liu: 0,
            zong_xian_jin_liu: 0,
            cun_huo: 0,
            li_run_zong_he: 0,
            shui_hou_li_run: 0,
            jing_li_run: 0,
            wei_fen_li_run: 0,
            mei_gu_jing_zi_chan: 0,
            bao_liu_2: 0,
        }
    }
}

impl FinanceInfo {
    /// A security without listing date, total shares or floating shares.
    pub fn is_delisting(&self) -> (r: bool)
        ensures
            r == (self.ipo_date == 0 && is_zero_f32(self.zong_gu_ben) && is_zero_f32(self.liu_tong_gu_ben)),
    {
        self.ipo_date == 0 && self.zong_gu_ben & 0x7fff_ffff == 0 && self.liu_tong_gu_ben & 0x7fff_ffff == 0
    }
}

fn read_finance(body: &[u8]) -> (f: FinanceInfo)
    requires
        body@.len() >= 143,
    ensures
        finance_at(body@, f),
{
    let code_bytes = copy_range(body, 1, 7);
    FinanceInfo {
        code: trim_end_nul_exec(&lossy_utf8(code_bytes.as_slice())),
        liu_tong_gu_ben: read_u32_le(body, 7),
        province: read_u16_le(body, 11),
        industry: read_u16_le(body, 13),
        updated_date: read_u32_le(body, 15),
        ipo_date: read_u32_le(body, 19),
        zong_gu_ben: read_u32_le(body, 23),
        guo_jia_gu: read_u32_le(body, 27),
        fa_qi_ren_fa_ren_gu: read_u32_le(body, 31),
        fa_ren_gu: read_u32_le(body, 35),
        b_gu: read_u32_le(body, 39),
        h_gu: read_u32_le(body, 43),
        zhi_gong_gu: read_u32_le(body, 47),
        zong_zi_chan: read_u32_le(body, 51),
        liu_dong_zi_chan: read_u32_le(body, 55),
        gu_ding_zi_chan: read_u32_le(body, 59),
        wu_xing_zi_chan: read_u32_le(body, 63),
        gu_dong_ren_shu: read_u32_le(body, 67),
        liu_dong_fu_zhai: read_u32_le(body, 71),
        chang_qi_fu_zhai: read_u32_le(body, 75),
        zi_ben_gong_ji_jin: read_u32_le(body, 79),
        jing_zi_chan: read_u32_le(body, 83),
        zhu_ying_shou_ru: read_u32_le(body, 87),
        zhu_ying_li_run: read_u32_le(body, 91),
        ying_shou_zhang_kuan: read_u32_le(body, 95),
        ying_ye_li_run: read_u32_le(body, 99),
        tou_zi_shou_yu: read_u32_le(body, 103),
        jing_ying_xian_jin_liu: read_u32_le(body, 107),
        zong_xian_jin_liu: read_u32_le(body, 111),
        cun_huo: read_u32_le(body, 115),
        li_run_zong_he: read_u32_le(body, 119),
        shui_hou_li_run: read_u32_le(body, 123),
        jing_li_run: read_u32_le(body, 127),
        wei_fen_li_run: read_u32_le(body, 131),
        mei_gu_jing_zi_chan: read_u32_le(body, 135),
        bao_liu_2: read_u32_le(body, 139),
    }
}

pub struct FinanceInfoPackage {
    pub req_header: StdRequestHeader,
    pub request: FinanceInfoRequest,
    pub resp_header: Option<StdResponseHeader>,
    pub reply: FinanceInfo,
}

impl FinanceInfoPackage {
    pub fn new() -> (r: Result<Self, QuotesError>)
        ensures
            r is Ok,
            r.unwrap().req_header == (StdRequestHeader {
                zip_flag: FLAG_NOT_ZIPPED, seq_id: 0, packet_type: 0x01, pkg_len1: 0, pkg_len2: 0,
                method: STD_MSG_FINANCE_INFO,
            }),
            r.unwrap().request.count == 1,
            r.unwrap().request.market == 0,
            r.unwrap().request.code@ == seq![0u8, 0, 0, 0, 0, 0],
            r.unwrap().resp_header is None,
            r.unwrap().reply.ipo_date == 0,
    {
        let code = [0u8; 6];
        assert(code@ =~= seq![0u8, 0, 0, 0, 0, 0]);
        Ok(Self {
            req_header: StdRequestHeader {
                zip_flag: FLAG_NOT_ZIPPED, seq_id: 0, packet_type: 0x01, pkg_len1: 0, pkg_len2: 0,
                method: STD_MSG_FINANCE_INFO,
            },
            request: FinanceInfoRequest { count: 1, market: 0, code },
            resp_header: None,
            reply: FinanceInfo::default(),
        })
    }

    pub fn set_params(&mut self, request: FinanceInfoRequest)
        ensures
            final(self).request == request,
            final(self).req_header == old(self).req_header,
            final(self).reply == old(self).reply,
            final(self).resp_header == old(self).resp_header,
    {
        self.request = request;
    }
}

impl Message for FinanceInfoPackage {
    open spec fn accepts(&self, body: Seq<u8>) -> bool {
        true
    }

    /// Header (declared length 9), count, market and code.
    fn serialize(&mut self, seq_id: u32) -> (r: Result<Vec<u8>, QuotesError>)
        ensures
            final(self).req_header == (StdRequestHeader { seq_id, pkg_len1: 9, pkg_len2: 9, ..old(self).req_header }),
            r is Ok,
            r.unwrap()@ == request_header_bytes(final(self).req_header) + u16_le(old(self).request.count)
                + seq![old(self).request.market] + old(self).request.code@,
            final(self).request == old(self).request,
            final(self).reply == old(self).reply,
            final(self).resp_header == old(self).resp_header,
    {
        self.req_header.seq_id = seq_id;
        self.req_header.pkg_len1 = 9;
        self.req_header.pkg_len2 = 9;
        let mut out = self.req_header.to_bytes().unwrap();
        push_u16_le(&mut out, self.request.count);
        out.push(self.request.market);
        push_bytes(&mut out, &self.request.code);
        Ok(out)
    }

    /// A body shorter than nine bytes leaves the package unchanged; one
    /// shorter than a whole reply records the header and keeps the old reply.
    fn unserialize(&mut self, header: &StdResponseHeader, body: &[u8]) -> (r: Result<(), QuotesError>)
        ensures
            body@.len() < 9 ==> r == Err::<(), QuotesError>(QuotesError::ResponseTooShort)
                && final(self).resp_header == old(self).resp_header && final(self).reply == old(self).reply,
            body@.len() >= 9 ==> final(self).resp_header == Some(*header),
            9 <= body@.len() < FINANCE_INFO_BYTES ==> r == Err::<(), QuotesError>(QuotesError::UnexpectedEof)
                && final(self).reply == old(self).reply,
            body@.len() >= FINANCE_INFO_BYTES ==> r is Ok && finance_at(body@, final(self).reply),
            final(self).request == old(self).request,
            final(self).req_header == old(self).req_header,
    {
        if body.len() < 9 {
            return Err(QuotesError::ResponseTooShort);
        }
        self.resp_header = Some(*header);
        if body.len() < FINANCE_INFO_BYTES {
            return Err(QuotesError::UnexpectedEof);
        }
        self.reply = read_finance(body);
        Ok(())
    }
}

pub fn new_finance_info() -> (r: Result<FinanceInfoPackage, QuotesError>)
    ensures
        r is Ok,
        r.unwrap().req_header.method == STD_MSG_FINANCE_INFO,
        r.unwrap().request.count == 1,
{
    FinanceInfoPackage::new()
}

} // verus!
