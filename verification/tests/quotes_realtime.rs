use tdx::quotes::snapshot::{average_bidding_volume, volume_direction};
use tdx::quotes::base_consts::QuotesError;
use tdx::quotes::cmd_security_quotes::{new_security_quotes, SecurityQuotesRequest, TradeState};
use tdx::quotes::cmd_security_quotes_v2::{new_security_quotes_v2, V2SecurityQuotesRequest};
use tdx::quotes::code_map::Stock;
use tdx::quotes::message::{Message, StdResponseHeader};
use tdx::quotes::snapshot::{stocks_from_codes, ExchangeState};
use tdx::quotes::targets::SecurityTarget;
use tdx::quotes::cmd_security_list::Security;

fn varint(v: i32) -> Vec<u8> {
    let neg = v < 0;
    let mut a = (v as i64).unsigned_abs();
    let mut first = (a & 0x3f) as u8;
    if neg {
        first |= 0x40;
    }
    a >>= 6;
    if a > 0 {
        first |= 0x80;
    }
    let mut out = vec![first];
    while a > 0 {
        let mut b = (a & 0x7f) as u8;
        a >>= 7;
        if a > 0 {
            b |= 0x80;
        }
        out.push(b);
    }
    out
}

fn hdr() -> StdResponseHeader {
    StdResponseHeader::zeroed()
}

/// A record of the first quotes version; `price` and the four changes
/// decide the state.
fn v1_record(market: u8, code: &[u8; 6], price: i32, d_close: i32, d_open: i32) -> Vec<u8> {
    let mut r = vec![market];
    r.extend_from_slice(code);
    r.extend_from_slice(&7u16.to_le_bytes());
    for v in [price, d_close, d_open, 30, -20, 9300000, 0, 12, 3] {
        r.extend(varint(v));
    }
    r.extend_from_slice(&0x1234_5678u32.to_le_bytes());
    for v in [4, 5, 60, 70] {
        r.extend(varint(v));
    }
    for k in 0..5 {
        r.extend(varint(-(k + 1)));
        r.extend(varint(k + 1));
        r.extend(varint(100 + k));
        r.extend(varint(200 + k));
    }
    r.extend_from_slice(&9u16.to_le_bytes());
    for v in [1, 2, 3, 4] {
        r.extend(varint(v));
    }
    r.extend_from_slice(&(-150i16).to_le_bytes());
    r.extend_from_slice(&[0xee, 0xee]);
    r.extend_from_slice(&11u16.to_le_bytes());
    r
}

fn v1_body(records: &[Vec<u8>]) -> Vec<u8> {
    let mut body = vec![0xb1, 0xcb];
    body.extend_from_slice(&(records.len() as u16).to_le_bytes());
    for r in records {
        body.extend_from_slice(r);
    }
    body
}

#[test]
fn quotes_request_bytes() {
    let mut pkg = new_security_quotes().unwrap();
    assert_eq!(pkg.serialize(1), Err(QuotesError::EmptyRequest));
    pkg.set_params(SecurityQuotesRequest {
        stock_list: vec![Stock { market: 1, code: "600000".into() }, Stock { market: 0, code: "1".into() }],
    });
    let out = pkg.serialize(1).unwrap();
    assert_eq!(pkg.req_header.pkg_len1, 2 + 2 * 7 + 10);
    let mut expected = vec![5, 0, 0, 0, 0, 0, 0, 0, 2, 0, 1];
    expected.extend_from_slice(b"600000");
    expected.extend_from_slice(&[0, b'1', 0, 0, 0, 0, 0]);
    assert_eq!(&out[12..], expected.as_slice());
    let many: Vec<Stock> = (0..81).map(|_| Stock { market: 1, code: "600000".into() }).collect();
    pkg.set_params(SecurityQuotesRequest { stock_list: many });
    assert_eq!(pkg.serialize(1), Err(QuotesError::TooManyStocks));
}

#[test]
fn quotes_fields_of_a_stock() {
    let mut pkg = new_security_quotes().unwrap();
    pkg.set_timestamp("1700000000000".into());
    let body = v1_body(&[v1_record(1, b"600000", 1000, -5, 3)]);
    assert_eq!(pkg.unserialize(&hdr(), &body), Ok(()));
    assert_eq!(pkg.reply.count, 1);
    let q = &pkg.reply.list[0];
    assert_eq!(q.state, TradeState::Normal);
    assert_eq!((q.market, q.code.as_str(), q.active1), (1, "600000", 7));
    assert_eq!((q.price, q.last_close, q.open, q.high, q.low), (1000, 995, 1003, 1030, 980));
    assert_eq!(q.server_time, "09:30:00.000");
    assert_eq!((q.reversed_bytes0, q.reversed_bytes1, q.vol, q.cur_vol), (9300000, 0, 1200, 3));
    assert_eq!(q.amount, 0x1234_5678);
    assert_eq!((q.s_vol, q.b_vol, q.index_open_amount, q.stock_open_amount), (4, 5, 6000, 7000));
    assert_eq!((q.bid1, q.ask1, q.bid_vol1, q.ask_vol1), (999, 1001, 100, 200));
    assert_eq!((q.bid5, q.ask5, q.bid_vol5, q.ask_vol5), (995, 1005, 104, 204));
    assert_eq!((q.index_up, q.index_down), (0, 0));
    assert_eq!(q.reversed_bytes4, 9);
    assert_eq!((q.reversed_bytes5, q.reversed_bytes8), (1, 4));
    assert_eq!(q.rate, -150);
    assert_eq!(q.active2, 11);
    assert_eq!(q.timestamp, "1700000000000");
}

#[test]
fn quotes_of_an_index_report_up_and_down_counts() {
    let mut pkg = new_security_quotes().unwrap();
    let body = v1_body(&[v1_record(1, b"000001", 3000, 0, 0)]);
    assert_eq!(pkg.unserialize(&hdr(), &body), Ok(()));
    let q = &pkg.reply.list[0];
    assert_eq!(q.state, TradeState::Normal);
    assert_eq!((q.index_up, q.index_down, q.index_up_limit, q.index_down_limit), (100, 200, 101, 201));
}

#[test]
fn quotes_states() {
    let mut pkg = new_security_quotes().unwrap();
    let body = v1_body(&[v1_record(0, b"000002", 500, 0, -500), v1_record(0, b"000003", 0, 0, 0)]);
    assert_eq!(pkg.unserialize(&hdr(), &body), Ok(()));
    assert_eq!(pkg.reply.list[0].state, TradeState::Suspend);
    assert_eq!(pkg.reply.list[1].state, TradeState::Delisting);
    assert_eq!(pkg.reply.list[1].server_time, "09:30:00.000");
}

#[test]
fn delisted_quotes_get_the_requested_codes_back() {
    let mut pkg = new_security_quotes().unwrap();
    pkg.set_params(SecurityQuotesRequest {
        stock_list: vec![Stock { market: 0, code: "000001".into() }, Stock { market: 1, code: "600000".into() }],
    });
    assert_eq!(pkg.map_code.len(), 2);
    let body = v1_body(&[v1_record(1, b"600000", 1000, 0, 1), v1_record(0, &[0; 6], 0, 0, 0)]);
    assert_eq!(pkg.unserialize(&hdr(), &body), Ok(()));
    assert_eq!(pkg.reply.list[0].code, "600000");
    assert_eq!(pkg.reply.list[1].state, TradeState::Delisting);
    assert_eq!(pkg.reply.list[1].code, "000001");
    assert!(pkg.map_code.is_empty());
}

#[test]
fn quotes_cut_off_keep_earlier_records() {
    let mut pkg = new_security_quotes().unwrap();
    pkg.set_params(SecurityQuotesRequest {
        stock_list: vec![Stock { market: 1, code: "600000".into() }, Stock { market: 0, code: "000001".into() }],
    });
    let mut body = v1_body(&[v1_record(1, b"600000", 1000, 0, 1), v1_record(0, b"000001", 1, 0, 1)]);
    body.truncate(body.len() - 1);
    assert_eq!(pkg.unserialize(&hdr(), &body), Err(QuotesError::UnexpectedEof));
    assert_eq!(pkg.reply.list.len(), 1);
    // The stock seen is taken out; the other one stays requested.
    assert_eq!(pkg.map_code.len(), 1);
    assert_eq!(pkg.map_code[0].stock.code, "000001");
    assert_eq!(pkg.unserialize(&hdr(), &[0, 0, 1]), Err(QuotesError::ResponseTooShort));
    let mut empty = new_security_quotes().unwrap();
    assert_eq!(empty.unserialize(&hdr(), &[0, 0, 1, 0]), Err(QuotesError::EntryTruncated));
}

fn v2_record(market: u8, code: &[u8; 6], price: i32) -> Vec<u8> {
    let mut r = vec![market];
    r.extend_from_slice(code);
    r.extend_from_slice(&3u16.to_le_bytes());
    for v in [price, -1, 2, 5, -5, 0, 8, 9, 10] {
        r.extend(varint(v));
    }
    r.extend_from_slice(&77u32.to_le_bytes());
    for v in [11, 12, 13, 14, -3, 4, 15, 16] {
        r.extend(varint(v));
    }
    r.extend_from_slice(&6u16.to_le_bytes());
    r.extend(varint(0));
    r.extend(varint(0));
    r.extend_from_slice(&[0u8; 48]);
    r.extend_from_slice(&2u16.to_le_bytes());
    r
}

#[test]
fn quotes_second_version() {
    let mut pkg = new_security_quotes_v2().unwrap();
    pkg.set_params(V2SecurityQuotesRequest { stock_list: vec![Stock { market: 1, code: "600000".into() }] });
    assert!(pkg.serialize(1).is_ok());
    let mut body = vec![0, 0, 1, 0];
    body.extend(v2_record(1, b"600000", 1234));
    assert_eq!(pkg.unserialize(&hdr(), &body), Ok(()));
    let q = &pkg.reply.list[0];
    assert_eq!((q.code.as_str(), q.price, q.last_close, q.open, q.high, q.low), ("600000", 1234, 1233, 1236, 1239, 1229));
    assert_eq!(q.server_time, "0");
    assert_eq!((q.vol, q.cur_vol, q.amount), (9, 10, 77));
    assert_eq!((q.bid1, q.ask1, q.bid_vol1, q.ask_vol1), (1231, 1238, 15, 16));
    assert_eq!((q.reversed_bytes4, q.active2, q.rate), (6, 2, 0));
    body.truncate(body.len() - 3);
    assert_eq!(pkg.unserialize(&hdr(), &body), Err(QuotesError::UnexpectedEof));
    assert!(pkg.reply.list.is_empty());
}

#[test]
fn snapshot_stocks() {
    let codes = vec!["sh600000".to_string(), "bad".to_string(), "000001.SZ".to_string()];
    let stocks = stocks_from_codes(&codes).unwrap();
    let got: Vec<(u8, String)> = stocks.into_iter().map(|s| (s.market, s.code)).collect();
    assert_eq!(got, vec![(1, "600000".to_string()), (0, "000001".to_string())]);
    assert_eq!(stocks_from_codes(&vec![]).err(), Some(QuotesError::EmptyRequest));
    assert_eq!(stocks_from_codes(&vec!["x".to_string()]).err(), Some(QuotesError::InvalidSecurityCode));
    let many: Vec<String> = (0..81).map(|_| "sh600000".to_string()).collect();
    assert_eq!(stocks_from_codes(&many).err(), Some(QuotesError::TooManyStocks));
    assert_eq!(ExchangeState::default(), ExchangeState::Normal);
    assert_eq!(ExchangeState::Delisting.code(), -1);
    assert_eq!(TradeState::default(), TradeState::Normal);
}

#[test]
fn targets_from_securities() {
    let s = Security {
        code: "600000".into(),
        vol_unit: 100,
        reversed1: [0; 4],
        decimal_point: 2,
        name: "浦发银行".into(),
        pre_close: 0,
        reversed2: [0; 4],
    };
    let t = SecurityTarget::from_security(&s);
    assert_eq!((t.code.as_str(), t.vol_unit, t.decimal_point, t.name.as_str()), ("600000", 100, 2, "浦发银行"));
}

#[test]
fn requested_stocks_are_keyed_once() {
    let mut pkg = new_security_quotes().unwrap();
    pkg.set_params(SecurityQuotesRequest {
        stock_list: vec![
            Stock { market: 1, code: "600000".into() },
            Stock { market: 0, code: "000001".into() },
            Stock { market: 1, code: "600000".into() },
        ],
    });
    assert_eq!(pkg.map_code.len(), 2);
    let keys: Vec<String> = pkg.map_code.iter().map(|e| e.key.iter().collect()).collect();
    assert_eq!(keys, vec!["sh600000".to_string(), "sz000001".to_string()]);
}

#[test]
fn book_volume_sums() {
    assert_eq!(volume_direction([100, 0, 0, 0, 0], [50, 0, 0, 0, 0]), Some(50));
    assert_eq!(average_bidding_volume([10, 0, 0, 0, 0], [5, 0, 0, 0, 0]), Some(1));
    assert_eq!(average_bidding_volume([-10, 0, 0, 0, -5], [0, 0, 0, 0, 0]), Some(-1));
    assert_eq!(volume_direction([i32::MAX, 1, 0, 0, 0], [0; 5]), None);
    assert_eq!(average_bidding_volume([i32::MAX, 0, 0, 0, 0], [1, 0, 0, 0, 0]), None);
    assert_eq!(volume_direction([0; 5], [i32::MIN, 0, 0, 0, 0]), None);
}
