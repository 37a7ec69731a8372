use tdx::proto::{STD_MSG_HEARTBEAT, STD_MSG_SECURITY_COUNT, STD_MSG_SECURITY_LIST};
use tdx::quotes::base_consts::QuotesError;
use tdx::quotes::cmd_company_info_category::{new_company_info_category, CompanyInfoCategoryRequest};
use tdx::quotes::cmd_company_info_content::new_company_info_content;
use tdx::quotes::cmd_finance_info::{new_finance_info, FinanceInfoRequest};
use tdx::quotes::cmd_heartbeat::new_heartbeat;
use tdx::quotes::cmd_hello1::new_hello1;
use tdx::quotes::cmd_hello2::new_hello2;
use tdx::quotes::cmd_security_count::{new_security_count, SecurityCountRequest};
use tdx::quotes::cmd_security_list::{new_security_list, SecurityListRequest};
use tdx::quotes::cmd_xdxr_info::{XdxrInfoPackage, XdxrInfoRequest};
use tdx::quotes::message::{Message, StdRequestHeader, StdResponseHeader};
use tdx::quotes::server::{get_fast_host, Server, HOST_HQ};

fn header_bytes(h: &StdRequestHeader) -> Vec<u8> {
    let mut v = vec![h.zip_flag];
    v.extend_from_slice(&h.seq_id.to_le_bytes());
    v.push(h.packet_type);
    v.extend_from_slice(&h.pkg_len1.to_le_bytes());
    v.extend_from_slice(&h.pkg_len2.to_le_bytes());
    v.extend_from_slice(&h.method.to_le_bytes());
    v
}

fn some_header() -> StdResponseHeader {
    StdResponseHeader::zeroed()
}

#[test]
fn request_header_layout() {
    let h = StdRequestHeader { zip_flag: 0x0c, seq_id: 0x01020304, packet_type: 1, pkg_len1: 6, pkg_len2: 6, method: 0x0450 };
    assert_eq!(h.to_bytes().unwrap(), vec![0x0c, 4, 3, 2, 1, 1, 6, 0, 6, 0, 0x50, 0x04]);
}

#[test]
fn response_header_parse_and_errors() {
    let bytes = [1, 0, 0, 0, 0x0c, 7, 0, 0, 0, 0, 0x4e, 0x04, 5, 0, 9, 0];
    let h = StdResponseHeader::from_bytes(&bytes).unwrap();
    assert_eq!(h.i1, 1);
    assert_eq!(h.zip_flag, 0x0c);
    assert_eq!(h.seq_id, 7);
    assert_eq!(h.method, STD_MSG_SECURITY_COUNT);
    assert_eq!(h.zip_size, 5);
    assert_eq!(h.unzip_size, 9);
    assert_eq!(h.body_len(), Ok(5));
    assert_eq!(StdResponseHeader::from_bytes(&bytes[..15]).err(), Some(QuotesError::ResponseTooShort));
    let mut big = h;
    big.zip_size = 0x8001;
    assert_eq!(big.body_len(), Err(QuotesError::BadData));
}

#[test]
fn response_body_inflated_when_sizes_differ() {
    let plain = b"quotes body quotes body".to_vec();
    let packed = tdx::internal::helpers::zlib_compress(&plain).unwrap();
    let mut h = some_header();
    h.zip_size = packed.len() as u16;
    h.unzip_size = plain.len() as u16;
    assert_eq!(h.decode_body(packed.clone()), Ok(plain.clone()));
    h.unzip_size = h.zip_size;
    assert_eq!(h.decode_body(plain.clone()), Ok(plain));
    let mut bad = some_header();
    bad.zip_size = 3;
    bad.unzip_size = 10;
    assert_eq!(bad.decode_body(vec![1, 2, 3]), Err(QuotesError::Decompress));
}

#[test]
fn heartbeat_request_and_reply() {
    let mut pkg = new_heartbeat().unwrap();
    let out = pkg.serialize(3).unwrap();
    assert_eq!(pkg.req_header.method, STD_MSG_HEARTBEAT);
    assert_eq!(pkg.req_header.seq_id, 3);
    let mut expected = header_bytes(&pkg.req_header);
    expected.extend_from_slice(&[0x02, 0x02, 0x00, 0x02, 0x00, 0x04, 0x00]);
    assert_eq!(out, expected);
    assert_eq!(pkg.req_header.pkg_len1, 9);
    pkg.unserialize(&some_header(), b"ok\0rest").unwrap();
    assert_eq!(pkg.reply.info, "ok");
}

#[test]
fn hello_replies_skip_their_prefix() {
    let mut h1 = new_hello1().unwrap();
    let mut body = vec![0u8; 68];
    body.extend_from_slice(b"welcome");
    h1.unserialize(&some_header(), &body).unwrap();
    assert_eq!(h1.reply.info, "welcome");
    let mut h2 = new_hello2().unwrap();
    let mut body2 = vec![0u8; 58];
    body2.extend_from_slice(b"hi");
    h2.unserialize(&some_header(), &body2).unwrap();
    assert_eq!(h2.reply.info, "hi");
    h2.unserialize(&some_header(), b"short").unwrap();
    assert_eq!(h2.reply.info, "short");
}

#[test]
fn security_count_request_and_reply() {
    let mut pkg = new_security_count().unwrap();
    pkg.set_params(SecurityCountRequest { market: 1 });
    let out = pkg.serialize(9).unwrap();
    let mut expected = header_bytes(&pkg.req_header);
    expected.extend_from_slice(&[1, 0, 0x75, 0xc7, 0x33, 0x01]);
    assert_eq!(out, expected);
    assert_eq!(pkg.req_header.pkg_len1, 8);
    assert_eq!(pkg.unserialize(&some_header(), &[1]), Err(QuotesError::ResponseTooShort));
    assert!(pkg.resp_header.is_none());
    pkg.unserialize(&some_header(), &[0x10, 0x27]).unwrap();
    assert_eq!(pkg.reply.count, 10000);
}

fn security_record(code: &[u8; 6], vol_unit: u16, name: &[u8; 8], decimals: u8, pre_close: u32) -> Vec<u8> {
    let mut r = code.to_vec();
    r.extend_from_slice(&vol_unit.to_le_bytes());
    r.extend_from_slice(name);
    r.extend_from_slice(&[1, 2, 3, 4]);
    r.push(decimals);
    r.extend_from_slice(&pre_close.to_le_bytes());
    r.extend_from_slice(&[5, 6, 7, 8]);
    r
}

#[test]
fn security_list_reads_records() {
    let mut pkg = new_security_list().unwrap();
    pkg.set_params(SecurityListRequest { market: 1, start: 100 });
    let out = pkg.serialize(1).unwrap();
    assert_eq!(pkg.req_header.method, STD_MSG_SECURITY_LIST);
    assert_eq!(&out[12..], &[1, 0, 100, 0]);
    let mut body = vec![2, 0];
    body.extend(security_record(b"600000", 100, &[0xd6, 0xd0, 0xce, 0xc4, 0, 0, 0, 0], 2, 0x4141_0000));
    body.extend(security_record(b"6000\0\0", 10, b"ABCDEFGH", 3, 7));
    assert_eq!(pkg.unserialize(&some_header(), &body), Ok(()));
    assert_eq!(pkg.reply.count, 2);
    assert_eq!(pkg.reply.list.len(), 2);
    let s = &pkg.reply.list[0];
    assert_eq!(s.code, "600000");
    assert_eq!(s.vol_unit, 100);
    assert_eq!(s.name, "中文");
    assert_eq!(s.reversed1, [1, 2, 3, 4]);
    assert_eq!(s.decimal_point, 2);
    assert_eq!(s.pre_close, 0x4141_0000);
    assert_eq!(s.reversed2, [5, 6, 7, 8]);
    assert_eq!(pkg.reply.list[1].code, "6000");
    assert_eq!(pkg.reply.list[1].name, "ABCDEFGH");
}

#[test]
fn security_list_truncated_keeps_whole_records() {
    let mut pkg = new_security_list().unwrap();
    let mut body = vec![3, 0];
    body.extend(security_record(b"000001", 100, b"AAAAAAAA", 2, 1));
    body.extend_from_slice(&[0; 10]);
    assert_eq!(pkg.unserialize(&some_header(), &body), Err(QuotesError::EntryTruncated));
    assert_eq!(pkg.reply.count, 3);
    assert_eq!(pkg.reply.list.len(), 1);
    assert_eq!(pkg.reply.list[0].code, "000001");
    assert_eq!(pkg.unserialize(&some_header(), &[1]), Err(QuotesError::ResponseTooShort));
}

#[test]
fn finance_info_request_and_reply() {
    let mut pkg = new_finance_info().unwrap();
    pkg.set_params(FinanceInfoRequest { count: 1, market: 0, code: *b"000001" });
    let out = pkg.serialize(2).unwrap();
    assert_eq!(pkg.req_header.pkg_len1, 9);
    assert_eq!(&out[12..], &[1, 0, 0, b'0', b'0', b'0', b'0', b'0', b'1']);
    let mut body = vec![0u8];
    body.extend_from_slice(b"000001");
    body.extend_from_slice(&1.5f32.to_bits().to_le_bytes());
    body.extend_from_slice(&18u16.to_le_bytes());
    body.extend_from_slice(&7u16.to_le_bytes());
    body.extend_from_slice(&20240101u32.to_le_bytes());
    body.extend_from_slice(&19910403u32.to_le_bytes());
    for k in 0..30u32 {
        body.extend_from_slice(&(k as f32).to_bits().to_le_bytes());
    }
    assert_eq!(body.len(), 143);
    assert_eq!(pkg.unserialize(&some_header(), &body[..20]), Err(QuotesError::UnexpectedEof));
    assert!(pkg.resp_header.is_some());
    assert_eq!(pkg.unserialize(&some_header(), &body), Ok(()));
    let r = &pkg.reply;
    assert_eq!(r.code, "000001");
    assert_eq!(f32::from_bits(r.liu_tong_gu_ben), 1.5);
    assert_eq!(r.province, 18);
    assert_eq!(r.industry, 7);
    assert_eq!(r.updated_date, 20240101);
    assert_eq!(r.ipo_date, 19910403);
    assert_eq!(f32::from_bits(r.zong_gu_ben), 0.0);
    assert_eq!(f32::from_bits(r.guo_jia_gu), 1.0);
    assert_eq!(f32::from_bits(r.bao_liu_2), 29.0);
    assert!(!r.is_delisting());
    assert_eq!(pkg.unserialize(&some_header(), &body[..8]), Err(QuotesError::ResponseTooShort));
}

#[test]
fn xdxr_request_and_reply() {
    let mut pkg = XdxrInfoPackage::new();
    pkg.set_params(XdxrInfoRequest { market: 1, code: *b"600000" });
    let out = pkg.serialize(5).unwrap();
    assert_eq!(out.len(), 25);
    assert_eq!(&out[12..], &[1, 0, 1, b'6', b'0', b'0', b'0', b'0', b'0', 0, 0, 0, 0]);
    let mut body = vec![0u8; 9];
    body.extend_from_slice(&2u16.to_le_bytes());
    // A dividend on 2023-06-15.
    let mut rec = vec![1u8];
    rec.extend_from_slice(b"600000");
    rec.push(0);
    rec.extend_from_slice(&20230615u32.to_le_bytes());
    rec.push(1);
    for x in [2.5f32, 0.0, 3.0, 0.0] {
        rec.extend_from_slice(&x.to_bits().to_le_bytes());
    }
    body.extend(rec);
    // A change of share capital.
    let mut rec2 = vec![1u8];
    rec2.extend_from_slice(b"600000");
    rec2.push(0);
    rec2.extend_from_slice(&20230701u32.to_le_bytes());
    rec2.push(5);
    for x in [10u32, 20, 30, 40] {
        rec2.extend_from_slice(&x.to_le_bytes());
    }
    body.extend(rec2);
    assert_eq!(pkg.unserialize(&some_header(), &body), Ok(()));
    assert_eq!(pkg.reply.len(), 2);
    let a = &pkg.reply[0];
    assert_eq!(a.date, "2023-06-15");
    assert_eq!(a.category, 1);
    assert_eq!(a.name, "除权除息");
    assert_eq!(f32::from_bits(a.fen_hong), 2.5);
    assert_eq!(f32::from_bits(a.song_zhuan_gu), 3.0);
    assert_eq!(a.hou_liu_tong, 0);
    assert!(!a.is_capital_change());
    let b = &pkg.reply[1];
    assert_eq!(b.name, "股本变化");
    assert_eq!((b.qian_liu_tong, b.qian_zong_gu_ben, b.hou_liu_tong, b.hou_zong_gu_ben), (10, 20, 30, 40));
    assert!(b.is_capital_change());
    let cut = &body[..body.len() - 1];
    assert_eq!(pkg.unserialize(&some_header(), cut), Err(QuotesError::UnexpectedEof));
    assert_eq!(pkg.reply.len(), 1);
    assert_eq!(pkg.unserialize(&some_header(), &[0; 10]), Err(QuotesError::UnexpectedEof));
}

#[test]
fn company_info_category_records() {
    let mut pkg = new_company_info_category().unwrap();
    pkg.set_params(CompanyInfoCategoryRequest { market: 1, code: *b"600000", unknown: 0 });
    let out = pkg.serialize(1).unwrap();
    assert_eq!(out.len(), 12 + 12);
    let mut body = vec![1, 0];
    let mut name = vec![0u8; 64];
    name[..4].copy_from_slice(b"info");
    let mut file = vec![0u8; 80];
    file[..8].copy_from_slice(b"x600.txt");
    body.extend(name);
    body.extend(file);
    body.extend_from_slice(&100u32.to_le_bytes());
    body.extend_from_slice(&200u32.to_le_bytes());
    assert_eq!(pkg.unserialize(&some_header(), &body), Ok(()));
    assert_eq!(pkg.reply.len(), 1);
    assert_eq!(pkg.reply[0].name, "info");
    assert_eq!(pkg.reply[0].filename, "x600.txt");
    assert_eq!((pkg.reply[0].offset, pkg.reply[0].length), (100, 200));
    assert_eq!(pkg.unserialize(&some_header(), &body[..100]), Err(QuotesError::EntryTruncated));
}

#[test]
fn company_info_content_reply() {
    let mut pkg = new_company_info_content().unwrap();
    let mut body = vec![1, 0];
    body.extend_from_slice(b"600000");
    body.extend_from_slice(&[0, 0]);
    body.extend_from_slice(&5u16.to_le_bytes());
    body.extend_from_slice(b"hello");
    assert_eq!(pkg.unserialize(&some_header(), &body), Ok(()));
    assert_eq!(pkg.reply.market, 1);
    assert_eq!(pkg.reply.code, "600000");
    assert_eq!(pkg.reply.length, 5);
    assert_eq!(pkg.reply.content, "hello");
    assert_eq!(pkg.unserialize(&some_header(), &body[..14]), Err(QuotesError::UnexpectedEof));
    assert_eq!(pkg.unserialize(&some_header(), &body[..5]), Err(QuotesError::ResponseTooShort));
}

#[test]
fn servers() {
    let s = Server { source: String::new(), name: "a".into(), host: "10.0.0.1".into(), port: 7709, cross_time: 0 };
    assert_eq!(s.addr(), "10.0.0.1:7709");
    let none = Server { port: 0, ..s.clone() };
    assert_eq!(none.addr(), "");
    assert_eq!(get_fast_host(HOST_HQ).err(), Some(QuotesError::Unimplemented("bestip::get_fast_host")));
}

#[test]
fn response_header_bytes_read_back() {
    let mut bytes = Vec::new();
    bytes.extend_from_slice(&0xdead_beefu32.to_le_bytes());
    bytes.push(0x1c);
    bytes.extend_from_slice(&42u32.to_le_bytes());
    bytes.push(0x77);
    bytes.extend_from_slice(&0x0fc5u16.to_le_bytes());
    bytes.extend_from_slice(&300u16.to_le_bytes());
    bytes.extend_from_slice(&900u16.to_le_bytes());
    let h = StdResponseHeader::from_bytes(&bytes).unwrap();
    assert_eq!((h.i1, h.zip_flag, h.seq_id, h.i3, h.method, h.zip_size, h.unzip_size), (0xdead_beef, 0x1c, 42, 0x77, 0x0fc5, 300, 900));
}
