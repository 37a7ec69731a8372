use tdx::internal::helpers::decode_varint;
use tdx::quotes::base_consts::QuotesError;
use tdx::quotes::cmd_minute_time_data::{HistoryMinuteTimePackage, MinuteTimePackage};
use tdx::quotes::cmd_security_bars::{new_index_bars, new_security_bars, SecurityBarsRequest};
use tdx::quotes::cmd_transaction_data::{HistoryTransactionPackage, TransactionPackage, TransactionRequest};
use tdx::quotes::message::{Message, StdResponseHeader};

fn varint(v: i32) -> Vec<u8> {
    let neg = v < 0;
    let mut a = (v as i64).unsigned_abs();
    let mut first = (a & 0x3f) as u8;
    if neg {
        first |= 0x40;
    }
    a >>= 6;
    if a > 0 {
        first |= 0x80;
    }
    let mut out = vec![first];
    while a > 0 {
        let mut b = (a & 0x7f) as u8;
        a >>= 7;
        if a > 0 {
            b |= 0x80;
        }
        out.push(b);
    }
    out
}

fn varints(vs: &[i32]) -> Vec<u8> {
    vs.iter().flat_map(|v| varint(*v)).collect()
}

fn hdr() -> StdResponseHeader {
    StdResponseHeader::zeroed()
}

#[test]
fn minute_prices_accumulate() {
    let mut pkg = MinuteTimePackage::new();
    let mut body = vec![2, 0];
    body.extend_from_slice(&[0; 9]);
    body.extend(varints(&[1000, 0, 10, 5, 7, 20]));
    assert_eq!(pkg.unserialize(&hdr(), &body), Ok(()));
    assert_eq!(pkg.reply.count, 2);
    let got: Vec<(i32, i32)> = pkg.reply.list.iter().map(|m| (m.price, m.vol)).collect();
    assert_eq!(got, vec![(1000, 10), (1005, 20)]);
    // A cut-off record ends the reading; the first is kept.
    let cut = &body[..body.len() - 1];
    assert_eq!(pkg.unserialize(&hdr(), cut), Err(QuotesError::BufferUnderflow));
    assert_eq!(pkg.reply.list.len(), 1);
    assert_eq!(pkg.unserialize(&hdr(), &[1]), Err(QuotesError::UnexpectedEof));
}

#[test]
fn history_minutes_start_after_six_bytes() {
    let mut pkg = HistoryMinuteTimePackage::new();
    let mut body = vec![1, 0, 0, 0, 0, 0];
    body.extend(varints(&[-50, 0, 3]));
    assert_eq!(pkg.unserialize(&hdr(), &body), Ok(()));
    assert_eq!(pkg.reply.list.len(), 1);
    assert_eq!((pkg.reply.list[0].price, pkg.reply.list[0].vol), (-50, 3));
}

#[test]
fn transactions_of_today() {
    let mut pkg = TransactionPackage::new();
    pkg.set_params(TransactionRequest { market: 0, code: *b"000001", start: 0, count: 2 });
    let out = pkg.serialize(4).unwrap();
    assert_eq!(pkg.req_header.pkg_len1, 0x0e);
    assert_eq!(&out[12..], &[0, 0, b'0', b'0', b'0', b'0', b'0', b'1', 0, 0, 2, 0]);
    let mut body = vec![2, 0];
    body.extend_from_slice(&570u16.to_le_bytes());
    body.extend(varints(&[1000, 5, 3, 1, 0]));
    body.extend_from_slice(&571u16.to_le_bytes());
    body.extend(varints(&[-10, 2, 1, 0, 0]));
    assert_eq!(pkg.unserialize(&hdr(), &body), Ok(()));
    assert_eq!(pkg.reply.count, 2);
    let t0 = &pkg.reply.list[0];
    assert_eq!((t0.time.as_str(), t0.price, t0.vol, t0.num, t0.buy_or_sell), ("09:30", 1000, 500, 3, 1));
    let t1 = &pkg.reply.list[1];
    assert_eq!((t1.time.as_str(), t1.price, t1.vol, t1.num, t1.buy_or_sell), ("09:31", 990, 200, 1, 0));
}

#[test]
fn transactions_of_a_past_day() {
    let mut pkg = HistoryTransactionPackage::new();
    let mut body = vec![1, 0, 9, 9, 9, 9];
    body.extend_from_slice(&900u16.to_le_bytes());
    body.extend(varints(&[2000, 7, 2, 0]));
    assert_eq!(pkg.unserialize(&hdr(), &body), Ok(()));
    let t = &pkg.reply.list[0];
    assert_eq!((t.time.as_str(), t.price, t.vol, t.num, t.buy_or_sell), ("15:00", 2000, 700, 0, 2));
    assert_eq!(pkg.unserialize(&hdr(), &[1, 0, 0]), Err(QuotesError::BufferUnderflow));
}

fn bar_body(tail: &[u8]) -> Vec<u8> {
    let mut body = vec![1, 0];
    body.extend_from_slice(&20230615u32.to_le_bytes());
    body.extend(varints(&[10000, 500, 800, -200]));
    body.extend_from_slice(tail);
    body
}

#[test]
fn security_bars_read_volume_after_prices() {
    let mut pkg = new_security_bars().unwrap();
    pkg.set_params(SecurityBarsRequest { market: 1, code: *b"600000", category: 9, i: 0, start: 0, count: 1 });
    assert_eq!(pkg.request.i, 1);
    let out = pkg.serialize(1).unwrap();
    assert_eq!(out.len(), 12 + 16 + 20);
    assert_eq!(pkg.req_header.pkg_len1, 0x1c);
    let body = bar_body(&[0x11, 0x22, 0x33, 0x44, 0x55, 0x66, 0x77, 0x08]);
    assert_eq!(pkg.unserialize(&hdr(), &body), Ok(()));
    let b = &pkg.reply.list[0];
    assert_eq!((b.open, b.close, b.high, b.low), (10000, 10500, 10800, 9800));
    assert_eq!((b.year, b.month, b.day, b.hour, b.minute), (2023, 6, 15, 15, 0));
    assert_eq!(b.date_time, "2023-06-15 15:00:00.000");
    // Volume and amount are the two words right after the price changes.
    assert_eq!(b.vol, 0x44332211);
    assert_eq!(b.amount, 0x08776655);
    assert_eq!((b.up_count, b.down_count), (0, 0));
    // The list is appended to.
    assert_eq!(pkg.unserialize(&hdr(), &body), Ok(()));
    assert_eq!(pkg.reply.list.len(), 2);
    assert_eq!(pkg.unserialize(&hdr(), &[1]), Err(QuotesError::UnexpectedEof));
    // A bar cut off inside its volume and amount.
    let mut cut = new_security_bars().unwrap();
    cut.set_params(SecurityBarsRequest { market: 1, code: *b"600000", category: 9, i: 0, start: 0, count: 1 });
    assert_eq!(cut.unserialize(&hdr(), &body[..body.len() - 1]), Err(QuotesError::UnexpectedEof));
}

#[test]
fn security_bars_of_a_packed_day() {
    let mut pkg = new_security_bars().unwrap();
    pkg.set_params(SecurityBarsRequest { market: 1, code: *b"600000", category: 9, i: 1, start: 0, count: 1 });
    let body = [
        1, 0, 0xE6, 0xD6, 0x34, 0x01, 0x0A, 0x05, 0x06, 0x41, 0x11, 0x22, 0x33, 0x44, 0x55, 0x66,
        0x77, 0x08,
    ];
    assert_eq!(pkg.unserialize(&hdr(), &body), Ok(()));
    assert_eq!(pkg.reply.count, 1);
    let b = &pkg.reply.list[0];
    assert_eq!(b.date_time, "2024-01-02 15:00:00.000");
    assert_eq!((b.open, b.close, b.high, b.low), (10, 15, 16, 9));
    assert_eq!(b.vol, 0x44332211);
    assert_eq!(b.amount, 0x08776655);
}

#[test]
fn index_bars_carry_up_and_down_counts() {
    let mut pkg = new_index_bars().unwrap();
    pkg.set_params(SecurityBarsRequest { market: 1, code: *b"000001", category: 9, i: 5, start: 0, count: 1 });
    assert_eq!(pkg.request.i, 1);
    let body = bar_body(&[1, 0, 0, 0, 2, 0, 0, 0, 0x34, 0x12, 0x78, 0x56]);
    assert_eq!(pkg.unserialize(&hdr(), &body), Ok(()));
    let b = &pkg.reply.list[0];
    assert_eq!((b.vol, b.amount), (1, 2));
    assert_eq!((b.up_count, b.down_count), (0x1234, 0x5678));
    let mut short = new_index_bars().unwrap();
    short.set_params(SecurityBarsRequest { market: 1, code: *b"000001", category: 9, i: 5, start: 0, count: 1 });
    assert_eq!(short.unserialize(&hdr(), &body[..12]), Err(QuotesError::BufferUnderflow));
    assert!(short.reply.list.is_empty());
}

#[test]
fn replies_whose_sums_leave_i32_are_errors() {
    let mut minutes = MinuteTimePackage::new();
    let mut body = vec![2, 0];
    body.extend_from_slice(&[0; 9]);
    body.extend(varints(&[i32::MAX, 0, 1, 1, 0, 1]));
    assert_eq!(minutes.unserialize(&hdr(), &body), Err(QuotesError::Overflow));
    assert_eq!(minutes.reply.list.len(), 1);

    let mut bars = new_security_bars().unwrap();
    bars.set_params(SecurityBarsRequest { market: 1, code: *b"600000", category: 9, i: 0, start: 0, count: 1 });
    let mut body = vec![1, 0];
    body.extend_from_slice(&20230615u32.to_le_bytes());
    body.extend(varints(&[i32::MAX, 1, 0, 0]));
    body.extend_from_slice(&[0; 8]);
    assert_eq!(bars.unserialize(&hdr(), &body), Err(QuotesError::Overflow));
    assert!(bars.reply.list.is_empty());

    let mut ticks = TransactionPackage::new();
    let mut body = vec![1, 0];
    body.extend_from_slice(&570u16.to_le_bytes());
    body.extend(varints(&[1, i32::MAX, 0, 0, 0]));
    assert_eq!(ticks.unserialize(&hdr(), &body), Err(QuotesError::Overflow));
}

#[test]
fn six_byte_varints_are_errors() {
    let mut pos = 0usize;
    assert_eq!(decode_varint(&[0xff, 0xff, 0xff, 0xff, 0xff, 0x00], &mut pos), Err(QuotesError::Overflow));
    let mut pos = 0usize;
    assert_eq!(decode_varint(&[0xff, 0xff, 0xff, 0xff, 0xff], &mut pos), Err(QuotesError::BufferUnderflow));
}
